//! Live-editable values.
//!
//! A registry holds named entries, each identified by a call-site location
//! hash, a per-frame instance number and a pair of type identifiers. Values
//! are registered with a default, can be read back, edited in place, grouped
//! into regions, and marked as actively edited; a per-frame sweep drops the
//! entries that were not touched since the last sweep.

use vstd::prelude::*;
use vstd::string::StringSliceAdditionalSpecFns;

verus! {

/// Places where an editable value's widget may be drawn, as a bit set.
#[derive(Clone, Copy, Debug, PartialEq, Eq, Structural)]
pub struct EditableWidgetLocation {
    pub bits: u8,
}

impl EditableWidgetLocation {
    /// No widget anywhere.
    pub fn nowhere() -> (r: EditableWidgetLocation)
        ensures
            r.bits == 0,
    {
        EditableWidgetLocation { bits: 0 }
    }

    /// A widget drawn in world space.
    pub fn world_space() -> (r: EditableWidgetLocation)
        ensures
            r.bits == 1,
    {
        EditableWidgetLocation { bits: 1 }
    }

    /// A widget drawn in the editing panel.
    pub fn editing_panel() -> (r: EditableWidgetLocation)
        ensures
            r.bits == 2,
    {
        EditableWidgetLocation { bits: 2 }
    }

    /// The union of two widget locations.
    pub fn with(self, other: EditableWidgetLocation) -> (r: EditableWidgetLocation)
        ensures
            r.bits == self.bits | other.bits,
    {
        EditableWidgetLocation { bits: self.bits | other.bits }
    }

    /// Whether every place of `other` is also set here.
    pub fn contains(self, other: EditableWidgetLocation) -> (r: bool)
        ensures
            r == ((self.bits & other.bits) == other.bits),
    {
        (self.bits & other.bits) == other.bits
    }
}

/// The identity of one editable value: a per-frame instance number, the
/// call site's location hash, and identifiers of the wrapper and value
/// types.
#[derive(Clone, Copy, Debug, PartialEq, Eq, Structural)]
pub struct EditableEntry {
    pub instance: usize,
    pub location: u64,
    pub wrapper_type_id: u64,
    pub data_type_id: u64,
}

impl DeepView for EditableEntry {
    type V = EditableEntry;

    open spec fn deep_view(&self) -> EditableEntry {
        *self
    }
}

/// One registered editable value.
#[derive(Clone, Copy, Debug)]
pub struct EditableItem<V> {
    pub entry: EditableEntry,
    pub widget_location: EditableWidgetLocation,
    pub value: V,
    pub is_alive: bool,
}

/// The registry of editable values, the set of actively edited entries,
/// the region stack, and the per-frame instance counter.
pub struct EditableRegistry<V> {
    items: Vec<EditableItem<V>>,
    editing: Vec<EditableEntry>,
    stack: Vec<Vec<EditableEntry>>,
    instance_counter: usize,
}

/// The first index in `items` holding `e`, or `-1` when absent.
pub open spec fn first_item_index<V>(items: Seq<EditableItem<V>>, e: EditableEntry) -> int
    decreases items.len(),
{
    if items.len() == 0 {
        -1
    } else if items[0].entry == e {
        0
    } else {
        let r = first_item_index(items.drop_first(), e);
        if r < 0 {
            -1
        } else {
            1 + r
        }
    }
}

/// A position with no earlier occurrence and an occurrence (or the end,
/// standing for absence) pins down `first_item_index`.
pub proof fn lemma_first_item_index_at<V>(items: Seq<EditableItem<V>>, e: EditableEntry, i: int)
    requires
        0 <= i <= items.len(),
        forall|j: int| 0 <= j < i ==> items[j].entry != e,
        i < items.len() ==> items[i].entry == e,
    ensures
        i < items.len() ==> first_item_index(items, e) == i,
        i == items.len() ==> first_item_index(items, e) == -1,
    decreases items.len(),
{
    if items.len() == 0 {
    } else if items[0].entry == e {
    } else {
        assert(forall|j: int| 0 <= j < i - 1 ==> items.drop_first()[j].entry != e);
        lemma_first_item_index_at(items.drop_first(), e, i - 1);
    }
}

impl<V: Copy> EditableRegistry<V> {
    /// An empty registry.
    pub fn new() -> (r: EditableRegistry<V>)
        ensures
            r.items_seq() == Seq::<EditableItem<V>>::empty(),
            r.editing_seq() == Seq::<EditableEntry>::empty(),
            r.stack_seq().len() == 0,
            r.instance_count() == 0,
    {
        let r = EditableRegistry {
            items: Vec::new(),
            editing: Vec::new(),
            stack: Vec::new(),
            instance_counter: 0,
        };
        proof {
            assert(r.items_seq() =~= Seq::<EditableItem<V>>::empty());
            assert(r.editing_seq() =~= Seq::<EditableEntry>::empty());
        }
        r
    }

}

impl<V> EditableRegistry<V> {
    /// The registered items, in registration order.
    pub closed spec fn items_seq(&self) -> Seq<EditableItem<V>> {
        self.items@
    }

    /// The actively edited entries, in activation order.
    pub closed spec fn editing_seq(&self) -> Seq<EditableEntry> {
        self.editing@
    }

    /// The open regions, innermost last.
    pub closed spec fn stack_seq(&self) -> Seq<Seq<EditableEntry>> {
        self.stack.deep_view()
    }

    /// The next instance number to hand out.
    pub closed spec fn instance_count(&self) -> int {
        self.instance_counter as int
    }
}

/// What registering at a call site does to a registry: a fresh entry is
/// made from the next instance number; the innermost region (if one is
/// open) records it; and an item with the default value is added unless
/// the entry is already present.
pub open spec fn registered_entry<V>(
    reg: EditableRegistry<V>,
    location: u64,
    wrapper_type_id: u64,
    data_type_id: u64,
) -> EditableEntry {
    EditableEntry {
        instance: reg.instance_count() as usize,
        location,
        wrapper_type_id,
        data_type_id,
    }
}

/// What one registration leaves behind: the item under the fresh entry
/// is marked touched this frame (created with the default value when
/// new), the instance counter advances (wrapping at the type's end),
/// the innermost open region records the entry, and — when `edit` is
/// asked — the entry joins the actively edited set, once.
pub open spec fn registration_effect<V>(pre: EditableRegistry<V>, post: EditableRegistry<V>,
    r: EditableEntry, widget_location: EditableWidgetLocation, default_value: V,
    edit: bool) -> bool {
    &&& (first_item_index(pre.items_seq(), r) >= 0 ==> post.items_seq() == pre.items_seq().update(
        first_item_index(pre.items_seq(), r),
        EditableItem {
            entry: pre.items_seq()[first_item_index(pre.items_seq(), r)].entry,
            widget_location: pre.items_seq()[first_item_index(pre.items_seq(), r)].widget_location,
            value: pre.items_seq()[first_item_index(pre.items_seq(), r)].value,
            is_alive: true,
        },
    ))
    &&& (first_item_index(pre.items_seq(), r) < 0 ==> post.items_seq() == pre.items_seq().push(
        EditableItem { entry: r, widget_location, value: default_value, is_alive: true },
    ))
    &&& post.instance_count() == if pre.instance_count() == usize::MAX as int {
        0int
    } else {
        pre.instance_count() + 1
    }
    &&& post.stack_seq().len() == pre.stack_seq().len()
    &&& (pre.stack_seq().len() == 0 ==> post.stack_seq() == pre.stack_seq())
    &&& (pre.stack_seq().len() > 0 ==> post.stack_seq() == pre.stack_seq().update(
        pre.stack_seq().len() - 1,
        pre.stack_seq().last().push(r),
    ))
    &&& (!edit ==> post.editing_seq() == pre.editing_seq())
    &&& (edit && pre.editing_seq().contains(r) ==> post.editing_seq() == pre.editing_seq())
    &&& (edit && !pre.editing_seq().contains(r) ==> post.editing_seq()
        == pre.editing_seq().push(r))
}

impl<V: Copy> EditableRegistry<V> {
    /// Registers an entry at a call site: hands out the next instance
    /// number, records the entry in the innermost open region, and adds
    /// an item with the default value unless the entry already exists.
    /// Returns the entry and the index of its item.
    fn item(
        &mut self,
        location: u64,
        wrapper_type_id: u64,
        data_type_id: u64,
        widget_location: EditableWidgetLocation,
        default_value: V,
    ) -> (r: (EditableEntry, usize))
        ensures
            r.0 == registered_entry(*old(self), location, wrapper_type_id, data_type_id),
            final(self).instance_count() == if old(self).instance_count() == usize::MAX as int {
                0
            } else {
                old(self).instance_count() + 1
            },
            final(self).editing_seq() == old(self).editing_seq(),
            final(self).stack_seq().len() == old(self).stack_seq().len(),
            old(self).stack_seq().len() == 0 ==> final(self).stack_seq() == old(self).stack_seq(),
            old(self).stack_seq().len() > 0 ==> final(self).stack_seq() == old(
                self,
            ).stack_seq().update(
                old(self).stack_seq().len() - 1,
                old(self).stack_seq().last().push(r.0),
            ),
            first_item_index(old(self).items_seq(), r.0) >= 0 ==> {
                &&& final(self).items_seq() == old(self).items_seq()
                &&& r.1 == first_item_index(old(self).items_seq(), r.0)
            },
            first_item_index(old(self).items_seq(), r.0) < 0 ==> {
                &&& final(self).items_seq() == old(self).items_seq().push(
                    EditableItem {
                        entry: r.0,
                        widget_location,
                        value: default_value,
                        is_alive: false,
                    },
                )
                &&& r.1 == old(self).items_seq().len()
            },
            r.1 < final(self).items_seq().len(),
            final(self).items_seq()[r.1 as int].entry == r.0,
    {
        let entry = EditableEntry {
            instance: self.instance_counter,
            location,
            wrapper_type_id,
            data_type_id,
        };
        if self.instance_counter == usize::MAX {
            self.instance_counter = 0;
        } else {
            self.instance_counter = self.instance_counter + 1;
        }
        let depth = self.stack.len();
        if depth > 0 {
            let ghost old_stack = self.stack.deep_view();
            let region = &mut self.stack[depth - 1];
            region.push(entry);
            proof {
                assert(self.stack.deep_view() =~~= old_stack.update(
                    depth - 1,
                    old_stack.last().push(entry),
                ));
            }
        }
        let mut i: usize = 0;
        while i < self.items.len()
            invariant
                0 <= i <= self.items.len(),
                forall|j: int| 0 <= j < i ==> self.items@[j].entry != entry,
                entry == registered_entry(*old(self), location, wrapper_type_id, data_type_id),
                self.instance_count() == if old(self).instance_count() == usize::MAX as int {
                    0int
                } else {
                    old(self).instance_count() + 1
                },
                self.editing_seq() == old(self).editing_seq(),
                self.items_seq() == old(self).items_seq(),
                self.stack_seq().len() == old(self).stack_seq().len(),
                old(self).stack_seq().len() == 0 ==> self.stack_seq() == old(self).stack_seq(),
                old(self).stack_seq().len() > 0 ==> self.stack_seq() == old(
                    self,
                ).stack_seq().update(
                    old(self).stack_seq().len() - 1,
                    old(self).stack_seq().last().push(entry),
                ),
            decreases self.items.len() - i,
        {
            if self.items[i].entry == entry {
                proof {
                    lemma_first_item_index_at(self.items@, entry, i as int);
                }
                return (entry, i);
            }
            i += 1;
        }
        proof {
            lemma_first_item_index_at(self.items@, entry, self.items@.len() as int);
        }
        let index = self.items.len();
        self.items.push(
            EditableItem { entry, widget_location, value: default_value, is_alive: false },
        );
        (entry, index)
    }
}

impl EditableEntry {
    /// Sweeps the registry between frames: items not touched since the
    /// last sweep are dropped, the kept ones are marked untouched, the
    /// region stack is cleared and instance numbers restart at zero.
    pub fn maintain<V: Copy>(reg: &mut EditableRegistry<V>)
        ensures
            final(reg).items_seq() == old(reg).items_seq().filter(
                |it: EditableItem<V>| it.is_alive,
            ).map_values(
                |it: EditableItem<V>|
                    (EditableItem {
                        entry: it.entry,
                        widget_location: it.widget_location,
                        value: it.value,
                        is_alive: false,
                    }),
            ),
            final(reg).editing_seq() == old(reg).editing_seq(),
            final(reg).stack_seq().len() == 0,
            final(reg).instance_count() == 0,
    {
        let ghost pred = |it: EditableItem<V>| it.is_alive;
        let ghost clear = |it: EditableItem<V>|
            (EditableItem {
                entry: it.entry,
                widget_location: it.widget_location,
                value: it.value,
                is_alive: false,
            });
        let mut kept: Vec<EditableItem<V>> = Vec::new();
        let mut i: usize = 0;
        proof {
            reveal(Seq::filter);
            assert(reg.items@.take(0int).filter(pred).map_values(clear) =~= kept@);
        }
        while i < reg.items.len()
            invariant
                0 <= i <= reg.items.len(),
                pred == (|it: EditableItem<V>| it.is_alive),
                clear == (|it: EditableItem<V>|
                    (EditableItem {
                        entry: it.entry,
                        widget_location: it.widget_location,
                        value: it.value,
                        is_alive: false,
                    })),
                kept@ == reg.items@.take(i as int).filter(pred).map_values(clear),
            decreases reg.items.len() - i,
        {
            let it = reg.items[i];
            if it.is_alive {
                kept.push(
                    EditableItem {
                        entry: it.entry,
                        widget_location: it.widget_location,
                        value: it.value,
                        is_alive: false,
                    },
                );
            }
            proof {
                reveal(Seq::filter);
                let ts = reg.items@;
                assert(ts.take(i + 1).drop_last() =~= ts.take(i as int));
                assert(ts.take(i + 1).last() == ts[i as int]);
                let fs = ts.take(i as int).filter(pred);
                let gs = ts.take(i + 1).filter(pred);
                if pred(ts[i as int]) {
                    assert(gs == fs.push(ts[i as int]));
                } else {
                    assert(gs == fs);
                }
                assert forall|k: int| 0 <= k < gs.len() implies gs.map_values(clear)[k]
                    == kept@[k] by {
                    assert(gs.map_values(clear)[k] == clear(gs[k]));
                    if k < fs.len() {
                        assert(gs[k] == fs[k]);
                        assert(fs.map_values(clear)[k] == clear(fs[k]));
                    }
                }
                assert(gs.map_values(clear) =~= kept@);
            }
            i += 1;
        }
        proof {
            assert(reg.items@.take(reg.items@.len() as int) =~= reg.items@);
        }
        reg.items = kept;
        reg.stack = Vec::new();
        reg.instance_counter = 0;
        proof {
            assert(final(reg).stack_seq() =~= Seq::<Seq<EditableEntry>>::empty());
        }
    }

    /// The call-site location hash.
    pub fn location(self) -> (r: u64)
        ensures
            r == self.location,
    {
        self.location
    }

    /// The per-frame instance number.
    pub fn instance(self) -> (r: usize)
        ensures
            r == self.instance,
    {
        self.instance
    }

    /// The identifier of the wrapper type.
    pub fn wrapper_type_id(self) -> (r: u64)
        ensures
            r == self.wrapper_type_id,
    {
        self.wrapper_type_id
    }

    /// The identifier of the stored value type.
    pub fn data_type_id(self) -> (r: u64)
        ensures
            r == self.data_type_id,
    {
        self.data_type_id
    }

    /// Registers a value at a call site and marks its item as touched
    /// this frame; returns the entry naming it.
    pub fn entry<V: Copy>(
        reg: &mut EditableRegistry<V>,
        location: u64,
        wrapper_type_id: u64,
        data_type_id: u64,
        widget_location: EditableWidgetLocation,
        default_value: V,
    ) -> (r: EditableEntry)
        ensures
            r == registered_entry(*old(reg), location, wrapper_type_id, data_type_id),
            registration_effect(*old(reg), *final(reg), r, widget_location, default_value, false),
    {
        let (entry, index) = reg.item(
            location,
            wrapper_type_id,
            data_type_id,
            widget_location,
            default_value,
        );
        let mut it = reg.items[index];
        it.is_alive = true;
        reg.items.set(index, it);
        proof {
            if first_item_index(old(reg).items_seq(), entry) < 0 {
                assert(final(reg).items_seq() =~= old(reg).items_seq().push(
                    EditableItem {
                        entry,
                        widget_location,
                        value: default_value,
                        is_alive: true,
                    },
                ));
            }
        }
        entry
    }

    /// Registers a value at a call site, optionally marks it as actively
    /// edited, and returns the stored value (the default on first sight).
    pub fn value<V: Copy>(
        reg: &mut EditableRegistry<V>,
        location: u64,
        wrapper_type_id: u64,
        data_type_id: u64,
        widget_location: EditableWidgetLocation,
        default_value: V,
        edit: bool,
    ) -> (r: V)
        ensures
            registration_effect(
                *old(reg),
                *final(reg),
                registered_entry(*old(reg), location, wrapper_type_id, data_type_id),
                widget_location,
                default_value,
                edit,
            ),
            first_item_index(old(reg).items_seq(), registered_entry(
                *old(reg),
                location,
                wrapper_type_id,
                data_type_id,
            )) < 0 ==> r == default_value,
            first_item_index(old(reg).items_seq(), registered_entry(
                *old(reg),
                location,
                wrapper_type_id,
                data_type_id,
            )) >= 0 ==> r == old(reg).items_seq()[first_item_index(
                old(reg).items_seq(),
                registered_entry(*old(reg), location, wrapper_type_id, data_type_id),
            )].value,
    {
        let (_, v) = Self::entry_value(
            reg,
            location,
            wrapper_type_id,
            data_type_id,
            widget_location,
            default_value,
            edit,
        );
        v
    }

    /// Registers a value at a call site and returns both its entry and
    /// the stored value.
    pub fn entry_value<V: Copy>(
        reg: &mut EditableRegistry<V>,
        location: u64,
        wrapper_type_id: u64,
        data_type_id: u64,
        widget_location: EditableWidgetLocation,
        default_value: V,
        edit: bool,
    ) -> (r: (EditableEntry, V))
        ensures
            r.0 == registered_entry(*old(reg), location, wrapper_type_id, data_type_id),
            registration_effect(*old(reg), *final(reg), r.0, widget_location, default_value, edit),
            first_item_index(old(reg).items_seq(), r.0) < 0 ==> r.1 == default_value,
            first_item_index(old(reg).items_seq(), r.0) >= 0 ==> r.1 == old(reg).items_seq()[
                first_item_index(old(reg).items_seq(), r.0)
            ].value,
    {
        let (entry, index) = reg.item(
            location,
            wrapper_type_id,
            data_type_id,
            widget_location,
            default_value,
        );
        let mut it = reg.items[index];
        it.is_alive = true;
        reg.items.set(index, it);
        proof {
            if first_item_index(old(reg).items_seq(), entry) < 0 {
                assert(reg.items_seq() =~= old(reg).items_seq().push(
                    EditableItem {
                        entry,
                        widget_location,
                        value: default_value,
                        is_alive: true,
                    },
                ));
            }
        }
        if edit {
            entry.start_editing(reg);
        }
        (entry, it.value)
    }

    /// The stored value under this entry, if one is registered.
    pub fn get<V: Copy>(self, reg: &EditableRegistry<V>) -> (r: Option<V>)
        ensures
            first_item_index(reg.items_seq(), self) < 0 ==> r is None,
            first_item_index(reg.items_seq(), self) >= 0 ==> r == Some(
                reg.items_seq()[first_item_index(reg.items_seq(), self)].value,
            ),
    {
        let mut i: usize = 0;
        while i < reg.items.len()
            invariant
                0 <= i <= reg.items.len(),
                forall|j: int| 0 <= j < i ==> reg.items@[j].entry != self,
            decreases reg.items.len() - i,
        {
            if reg.items[i].entry == self {
                proof {
                    lemma_first_item_index_at(reg.items@, self, i as int);
                }
                return Some(reg.items[i].value);
            }
            i += 1;
        }
        proof {
            lemma_first_item_index_at(reg.items@, self, reg.items@.len() as int);
        }
        None
    }

    /// Rewrites the stored value under this entry through `f`; returns
    /// the new value, or nothing when the entry is not registered.
    pub fn with<V: Copy, F: FnOnce(V) -> V>(self, reg: &mut EditableRegistry<V>, f: F) -> (r:
        Option<V>)
        requires
            forall|v: V| f.requires((v,)),
        ensures
            first_item_index(old(reg).items_seq(), self) < 0 ==> r is None && *final(reg) == *old(
                reg,
            ),
            first_item_index(old(reg).items_seq(), self) >= 0 ==> {
                let idx = first_item_index(old(reg).items_seq(), self);
                &&& r is Some
                &&& f.ensures((old(reg).items_seq()[idx].value,), r->0)
                &&& final(reg).items_seq() == old(reg).items_seq().update(
                    idx,
                    EditableItem {
                        entry: old(reg).items_seq()[idx].entry,
                        widget_location: old(reg).items_seq()[idx].widget_location,
                        value: r->0,
                        is_alive: old(reg).items_seq()[idx].is_alive,
                    },
                )
                &&& final(reg).editing_seq() == old(reg).editing_seq()
                &&& final(reg).stack_seq() == old(reg).stack_seq()
                &&& final(reg).instance_count() == old(reg).instance_count()
            },
    {
        let mut i: usize = 0;
        while i < reg.items.len()
            invariant
                0 <= i <= reg.items.len(),
                forall|j: int| 0 <= j < i ==> reg.items@[j].entry != self,
                *reg == *old(reg),
                forall|v: V| f.requires((v,)),
            decreases reg.items.len() - i,
        {
            if reg.items[i].entry == self {
                proof {
                    lemma_first_item_index_at(reg.items@, self, i as int);
                }
                let mut it = reg.items[i];
                let nv = f(it.value);
                it.value = nv;
                reg.items.set(i, it);
                return Some(nv);
            }
            i += 1;
        }
        proof {
            lemma_first_item_index_at(reg.items@, self, reg.items@.len() as int);
        }
        None
    }

    /// Marks this entry as actively edited, once.
    pub fn start_editing<V: Copy>(self, reg: &mut EditableRegistry<V>)
        ensures
            old(reg).editing_seq().contains(self) ==> final(reg).editing_seq() == old(
                reg,
            ).editing_seq(),
            !old(reg).editing_seq().contains(self) ==> final(reg).editing_seq() == old(
                reg,
            ).editing_seq().push(self),
            final(reg).items_seq() == old(reg).items_seq(),
            final(reg).stack_seq() == old(reg).stack_seq(),
            final(reg).instance_count() == old(reg).instance_count(),
    {
        let mut i: usize = 0;
        while i < reg.editing.len()
            invariant
                0 <= i <= reg.editing.len(),
                forall|j: int| 0 <= j < i ==> reg.editing@[j] != self,
                *reg == *old(reg),
            decreases reg.editing.len() - i,
        {
            if reg.editing[i] == self {
                return ;
            }
            i += 1;
        }
        reg.editing.push(self);
    }

    /// Marks each given entry as actively edited, in order.
    pub fn start_editing_many<V: Copy>(reg: &mut EditableRegistry<V>, entries: Vec<EditableEntry>)
        ensures
            final(reg).editing_seq() == editing_after_adding(old(reg).editing_seq(), entries@),
            final(reg).items_seq() == old(reg).items_seq(),
            final(reg).stack_seq() == old(reg).stack_seq(),
            final(reg).instance_count() == old(reg).instance_count(),
    {
        let mut i: usize = 0;
        proof {
            assert(entries@.skip(0int) =~= entries@);
        }
        while i < entries.len()
            invariant
                0 <= i <= entries.len(),
                editing_after_adding(old(reg).editing_seq(), entries@) == editing_after_adding(
                    reg.editing_seq(),
                    entries@.skip(i as int),
                ),
                reg.items_seq() == old(reg).items_seq(),
                reg.stack_seq() == old(reg).stack_seq(),
                reg.instance_count() == old(reg).instance_count(),
            decreases entries.len() - i,
        {
            let ghost before = reg.editing_seq();
            entries[i].start_editing(reg);
            proof {
                assert(entries@.skip(i as int).drop_first() =~= entries@.skip(i + 1));
                assert(entries@.skip(i as int)[0] == entries@[i as int]);
            }
            i += 1;
        }
        proof {
            assert(entries@.skip(entries@.len() as int) =~= Seq::<EditableEntry>::empty());
        }
    }

    /// Takes this entry out of the actively edited set.
    pub fn stop_editing<V: Copy>(self, reg: &mut EditableRegistry<V>)
        ensures
            final(reg).editing_seq() == old(reg).editing_seq().filter(
                |e: EditableEntry| e != self,
            ),
            final(reg).items_seq() == old(reg).items_seq(),
            final(reg).stack_seq() == old(reg).stack_seq(),
            final(reg).instance_count() == old(reg).instance_count(),
    {
        let ghost pred = |e: EditableEntry| e != self;
        let mut kept: Vec<EditableEntry> = Vec::new();
        let mut i: usize = 0;
        proof {
            reveal(Seq::filter);
            assert(reg.editing@.take(0int).filter(pred) =~= kept@);
        }
        while i < reg.editing.len()
            invariant
                0 <= i <= reg.editing.len(),
                pred == (|e: EditableEntry| e != self),
                kept@ == reg.editing@.take(i as int).filter(pred),
                *reg == *old(reg),
            decreases reg.editing.len() - i,
        {
            let e = reg.editing[i];
            if !(e == self) {
                kept.push(e);
            }
            proof {
                reveal(Seq::filter);
                let ts = reg.editing@;
                assert(ts.take(i + 1).drop_last() =~= ts.take(i as int));
                assert(ts.take(i + 1).last() == ts[i as int]);
            }
            i += 1;
        }
        proof {
            assert(reg.editing@.take(reg.editing@.len() as int) =~= reg.editing@);
        }
        reg.editing = kept;
    }

    /// Takes each given entry out of the actively edited set.
    pub fn stop_editing_many<V: Copy>(reg: &mut EditableRegistry<V>, entries: Vec<EditableEntry>)
        ensures
            final(reg).editing_seq() == old(reg).editing_seq().filter(
                |e: EditableEntry| !entries@.contains(e),
            ),
            final(reg).items_seq() == old(reg).items_seq(),
            final(reg).stack_seq() == old(reg).stack_seq(),
            final(reg).instance_count() == old(reg).instance_count(),
    {
        let ghost pred = |e: EditableEntry| !entries@.contains(e);
        let mut kept: Vec<EditableEntry> = Vec::new();
        let mut i: usize = 0;
        proof {
            reveal(Seq::filter);
            assert(reg.editing@.take(0int).filter(pred) =~= kept@);
        }
        while i < reg.editing.len()
            invariant
                0 <= i <= reg.editing.len(),
                pred == (|e: EditableEntry| !entries@.contains(e)),
                kept@ == reg.editing@.take(i as int).filter(pred),
                *reg == *old(reg),
            decreases reg.editing.len() - i,
        {
            let e = reg.editing[i];
            if !entries_contain(&entries, e) {
                kept.push(e);
            }
            proof {
                reveal(Seq::filter);
                let ts = reg.editing@;
                assert(ts.take(i + 1).drop_last() =~= ts.take(i as int));
                assert(ts.take(i + 1).last() == ts[i as int]);
            }
            i += 1;
        }
        proof {
            assert(reg.editing@.take(reg.editing@.len() as int) =~= reg.editing@);
        }
        reg.editing = kept;
    }

    /// Empties the actively edited set.
    pub fn stop_editing_all<V: Copy>(reg: &mut EditableRegistry<V>)
        ensures
            final(reg).editing_seq() == Seq::<EditableEntry>::empty(),
            final(reg).items_seq() == old(reg).items_seq(),
            final(reg).stack_seq() == old(reg).stack_seq(),
            final(reg).instance_count() == old(reg).instance_count(),
    {
        reg.editing = Vec::new();
        proof {
            assert(final(reg).editing_seq() =~= Seq::<EditableEntry>::empty());
        }
    }

    /// Opens a new innermost region that records entries registered
    /// while it is open.
    pub fn begin_region<V: Copy>(reg: &mut EditableRegistry<V>)
        ensures
            final(reg).stack_seq() == old(reg).stack_seq().push(Seq::<EditableEntry>::empty()),
            final(reg).items_seq() == old(reg).items_seq(),
            final(reg).editing_seq() == old(reg).editing_seq(),
            final(reg).instance_count() == old(reg).instance_count(),
    {
        reg.stack.push(Vec::new());
        proof {
            assert(final(reg).stack_seq() =~~= old(reg).stack_seq().push(
                Seq::<EditableEntry>::empty(),
            ));
        }
    }

    /// Closes the innermost region and returns its entries; they are
    /// also added to the enclosing region, if one is open.
    pub fn end_region<V: Copy>(reg: &mut EditableRegistry<V>) -> (r: Vec<EditableEntry>)
        ensures
            old(reg).stack_seq().len() == 0 ==> {
                &&& r@ == Seq::<EditableEntry>::empty()
                &&& final(reg).stack_seq() == old(reg).stack_seq()
                &&& final(reg).items_seq() == old(reg).items_seq()
                &&& final(reg).editing_seq() == old(reg).editing_seq()
                &&& final(reg).instance_count() == old(reg).instance_count()
            },
            old(reg).stack_seq().len() >= 1 ==> {
                &&& r@ == old(reg).stack_seq().last()
                &&& final(reg).stack_seq().len() == old(reg).stack_seq().len() - 1
                &&& (old(reg).stack_seq().len() >= 2 ==> final(reg).stack_seq() == old(
                    reg,
                ).stack_seq().drop_last().update(
                    old(reg).stack_seq().len() - 2,
                    old(reg).stack_seq()[old(reg).stack_seq().len() - 2] + old(
                        reg,
                    ).stack_seq().last(),
                ))
                &&& (old(reg).stack_seq().len() == 1 ==> final(reg).stack_seq()
                    == Seq::<Seq<EditableEntry>>::empty())
                &&& final(reg).items_seq() == old(reg).items_seq()
                &&& final(reg).editing_seq() == old(reg).editing_seq()
                &&& final(reg).instance_count() == old(reg).instance_count()
            },
    {
        let popped = reg.stack.pop();
        match popped {
            None => {
                let r: Vec<EditableEntry> = Vec::new();
                proof {
                    assert(old(reg).stack_seq().len() == 0);
                    assert(final(reg).stack_seq() =~~= old(reg).stack_seq());
                    assert(r@ =~= Seq::<EditableEntry>::empty());
                }
                r
            },
            Some(region) => {
                proof {
                    assert(reg.stack.deep_view() =~= old(reg).stack_seq().drop_last());
                    assert(region.deep_view() == old(reg).stack_seq().last());
                }
                let depth = reg.stack.len();
                if depth > 0 {
                    let ghost mid_stack = reg.stack.deep_view();
                    let mut j: usize = 0;
                    while j < region.len()
                        invariant
                            0 <= j <= region.len(),
                            depth == reg.stack.len(),
                            depth >= 1,
                            mid_stack.len() == depth,
                            reg.stack.deep_view() =~~= mid_stack.update(
                                depth - 1,
                                mid_stack[depth - 1] + region.deep_view().take(j as int),
                            ),
                            reg.editing_seq() == old(reg).editing_seq(),
                            reg.items_seq() == old(reg).items_seq(),
                            reg.instance_count() == old(reg).instance_count(),
                            mid_stack == old(reg).stack_seq().drop_last(),
                            region.deep_view() == old(reg).stack_seq().last(),
                        decreases region.len() - j,
                    {
                        let e = region[j];
                        let ghost pre = reg.stack.deep_view();
                        let slot = &mut reg.stack[depth - 1];
                        slot.push(e);
                        proof {
                            assert(reg.stack.deep_view() =~~= pre.update(
                                depth - 1,
                                pre[depth - 1].push(e),
                            ));
                            assert(region.deep_view().take(j + 1) =~= region.deep_view().take(
                                j as int,
                            ).push(region@[j as int]));
                            assert(pre[depth - 1].push(e) =~= mid_stack[depth - 1]
                                + region.deep_view().take(j + 1));
                            assert(reg.stack.deep_view() =~~= mid_stack.update(
                                depth - 1,
                                mid_stack[depth - 1] + region.deep_view().take(j + 1),
                            ));
                        }
                        j += 1;
                    }
                    proof {
                        assert(region.deep_view().take(region@.len() as int) =~= region.deep_view());
                    }
                } else {
                    proof {
                        assert(reg.stack.deep_view() =~= Seq::<Seq<EditableEntry>>::empty());
                    }
                }
                region
            },
        }
    }

    /// Records this entry in the innermost open region, if any.
    pub fn push_to_region<V: Copy>(self, reg: &mut EditableRegistry<V>)
        ensures
            old(reg).stack_seq().len() == 0 ==> *final(reg) == *old(reg),
            old(reg).stack_seq().len() > 0 ==> {
                &&& final(reg).stack_seq() == old(reg).stack_seq().update(
                    old(reg).stack_seq().len() - 1,
                    old(reg).stack_seq().last().push(self),
                )
                &&& final(reg).items_seq() == old(reg).items_seq()
                &&& final(reg).editing_seq() == old(reg).editing_seq()
                &&& final(reg).instance_count() == old(reg).instance_count()
            },
    {
        let depth = reg.stack.len();
        if depth > 0 {
            let ghost old_stack = reg.stack.deep_view();
            let slot = &mut reg.stack[depth - 1];
            slot.push(self);
            proof {
                assert(reg.stack.deep_view() =~~= old_stack.update(
                    depth - 1,
                    old_stack.last().push(self),
                ));
            }
        }
    }

}

/// The set after adding each entry of `es` in order, skipping those
/// already present.
pub open spec fn editing_after_adding(s: Seq<EditableEntry>, es: Seq<EditableEntry>) -> Seq<
    EditableEntry,
>
    decreases es.len(),
{
    if es.len() == 0 {
        s
    } else {
        let s2 = if s.contains(es[0]) {
            s
        } else {
            s.push(es[0])
        };
        editing_after_adding(s2, es.drop_first())
    }
}

/// The subsystem that drives editable widgets; its drawing lives with
/// the embedding application, so the library holds only the marker.
#[derive(Clone, Copy, Debug, PartialEq, Eq, Structural)]
pub struct EditableSubsystem;

/// The hash folding constant.
pub const FNV_PRIME: u64 = 1_099_511_628_211;

/// The hash starting value.
pub const FNV_BASIS: u64 = 14_695_981_039_346_656_037;

/// One folding step: the byte is mixed in and the state multiplied by
/// the folding constant, kept to 64 bits.
pub open spec fn fnv_step(h: u64, b: u8) -> u64 {
    ((((h ^ (b as u64)) as int) * (FNV_PRIME as int)) % 0x1_0000_0000_0000_0000) as u64
}

/// The hash of a byte sequence, folded left to right from the basis.
pub open spec fn fnv_hash(bytes: Seq<u8>, h: u64) -> u64
    decreases bytes.len(),
{
    if bytes.len() == 0 {
        h
    } else {
        fnv_hash(bytes.drop_first(), fnv_step(h, bytes[0]))
    }
}

/// The eight bytes of a 64-bit number, least significant first.
pub open spec fn le_bytes(x: u64) -> Seq<u8> {
    seq![
        (x % 256) as u8,
        ((x / 0x100) % 256) as u8,
        ((x / 0x1_0000) % 256) as u8,
        ((x / 0x100_0000) % 256) as u8,
        ((x / 0x1_0000_0000) % 256) as u8,
        ((x / 0x100_0000_0000) % 256) as u8,
        ((x / 0x1_0000_0000_0000) % 256) as u8,
        ((x / 0x100_0000_0000_0000) % 256) as u8,
    ]
}

/// The location hash of a call site: the file's bytes, then the line
/// and column numbers byte by byte, folded into one 64-bit value.
pub open spec fn location_hash_spec(file: Seq<u8>, line: u64, column: u64) -> u64 {
    fnv_hash(le_bytes(column), fnv_hash(le_bytes(line), fnv_hash(file, FNV_BASIS)))
}

fn fnv_fold_byte(h: u64, b: u8) -> (r: u64)
    ensures
        r == fnv_step(h, b),
{
    let x = h ^ (b as u64);
    let wide = (x as u128) * (FNV_PRIME as u128);
    (wide % 0x1_0000_0000_0000_0000u128) as u64
}

fn fnv_fold_bytes(bytes: &[u8], h0: u64) -> (r: u64)
    ensures
        r == fnv_hash(bytes@, h0),
{
    let mut h = h0;
    let mut i: usize = 0;
    proof {
        assert(bytes@.skip(0int) =~= bytes@);
    }
    while i < bytes.len()
        invariant
            0 <= i <= bytes@.len(),
            fnv_hash(bytes@, h0) == fnv_hash(bytes@.skip(i as int), h),
        decreases bytes@.len() - i,
    {
        proof {
            assert(bytes@.skip(i as int).drop_first() =~= bytes@.skip(i + 1));
            assert(bytes@.skip(i as int)[0] == bytes@[i as int]);
        }
        h = fnv_fold_byte(h, bytes[i]);
        i += 1;
    }
    proof {
        assert(bytes@.skip(bytes@.len() as int) =~= Seq::<u8>::empty());
    }
    h
}

fn fnv_fold_u64(x: u64, h0: u64) -> (r: u64)
    ensures
        r == fnv_hash(le_bytes(x), h0),
{
    let b0 = (x % 256) as u8;
    let b1 = ((x / 0x100) % 256) as u8;
    let b2 = ((x / 0x1_0000) % 256) as u8;
    let b3 = ((x / 0x100_0000) % 256) as u8;
    let b4 = ((x / 0x1_0000_0000) % 256) as u8;
    let b5 = ((x / 0x100_0000_0000) % 256) as u8;
    let b6 = ((x / 0x1_0000_0000_0000) % 256) as u8;
    let b7 = ((x / 0x100_0000_0000_0000) % 256) as u8;
    let mut h = fnv_fold_byte(h0, b0);
    h = fnv_fold_byte(h, b1);
    h = fnv_fold_byte(h, b2);
    h = fnv_fold_byte(h, b3);
    h = fnv_fold_byte(h, b4);
    h = fnv_fold_byte(h, b5);
    h = fnv_fold_byte(h, b6);
    h = fnv_fold_byte(h, b7);
    proof {
        let bs = le_bytes(x);
        let t1 = bs.drop_first();
        let t2 = t1.drop_first();
        let t3 = t2.drop_first();
        let t4 = t3.drop_first();
        let t5 = t4.drop_first();
        let t6 = t5.drop_first();
        let t7 = t6.drop_first();
        let t8 = t7.drop_first();
        assert(bs[0] == b0 && t1[0] == b1 && t2[0] == b2 && t3[0] == b3 && t4[0] == b4 && t5[0]
            == b5 && t6[0] == b6 && t7[0] == b7);
        let h1 = fnv_step(h0, b0);
        let h2 = fnv_step(h1, b1);
        let h3 = fnv_step(h2, b2);
        let h4 = fnv_step(h3, b3);
        let h5 = fnv_step(h4, b4);
        let h6 = fnv_step(h5, b5);
        let h7 = fnv_step(h6, b6);
        let h8 = fnv_step(h7, b7);
        assert(fnv_hash(bs, h0) == fnv_hash(t1, h1));
        assert(fnv_hash(t1, h1) == fnv_hash(t2, h2));
        assert(fnv_hash(t2, h2) == fnv_hash(t3, h3));
        assert(fnv_hash(t3, h3) == fnv_hash(t4, h4));
        assert(fnv_hash(t4, h4) == fnv_hash(t5, h5));
        assert(fnv_hash(t5, h5) == fnv_hash(t6, h6));
        assert(fnv_hash(t6, h6) == fnv_hash(t7, h7));
        assert(fnv_hash(t7, h7) == fnv_hash(t8, h8));
        assert(t8.len() == 0);
        assert(fnv_hash(t8, h8) == h8);
    }
    h
}

/// The hash identifying a call site, from its file name, line and
/// column; registrations use it as the entry's location.
pub fn location_hash(file: &str, line: u64, column: u64) -> (r: u64)
    ensures
        r == location_hash_spec(file.spec_bytes(), line, column),
{
    let bytes = file.as_bytes();
    let h = fnv_fold_bytes(bytes, FNV_BASIS);
    let h = fnv_fold_u64(line, h);
    fnv_fold_u64(column, h)
}

/// Whether `v` holds `e`, by scanning.
fn entries_contain(v: &Vec<EditableEntry>, e: EditableEntry) -> (r: bool)
    ensures
        r == v@.contains(e),
{
    let mut i: usize = 0;
    while i < v.len()
        invariant
            0 <= i <= v.len(),
            forall|j: int| 0 <= j < i ==> v@[j] != e,
        decreases v.len() - i,
    {
        if v[i] == e {
            return true;
        }
        i += 1;
    }
    false
}


} // verus!
