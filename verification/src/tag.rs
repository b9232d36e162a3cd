//! Hierarchical dot-separated tags.
//!
//! A tag such as `player.weapon.sword` names a path of parts; tags
//! support prefix queries, wildcard matching (`*` matches any single
//! part) and set-like collections used for gameplay filtering.

use vstd::prelude::*;

verus! {

/// The index of the first `'.'` in `s`, or `s.len()` when there is none.
pub open spec fn first_dot(s: Seq<char>) -> int
    decreases s.len(),
{
    if s.len() == 0 {
        0
    } else if s[0] == '.' {
        0
    } else {
        1 + first_dot(s.drop_first())
    }
}

pub proof fn lemma_first_dot(s: Seq<char>)
    ensures
        0 <= first_dot(s) <= s.len(),
        forall|j: int| 0 <= j < first_dot(s) ==> s[j] != '.',
        first_dot(s) < s.len() ==> s[first_dot(s)] == '.',
    decreases s.len(),
{
    if s.len() != 0 && s[0] != '.' {
        lemma_first_dot(s.drop_first());
        assert forall|j: int| 0 <= j < first_dot(s) implies s[j] != '.' by {
            if j > 0 {
                assert(s.drop_first()[j - 1] == s[j]);
            }
        }
    }
}

/// The parts of `s`, split on `'.'`: the empty string has one empty
/// part, and each dot separates two parts.
pub open spec fn split_parts(s: Seq<char>) -> Seq<Seq<char>>
    decreases s.len(),
{
    let i = first_dot_clamped(s);
    if i >= s.len() {
        seq![s]
    } else {
        seq![s.take(i)] + split_parts(s.skip(i + 1))
    }
}

/// `first_dot`, clamped into `[0, s.len()]` so that recursion on the
/// remainder of the string is well founded by construction.
pub open spec fn first_dot_clamped(s: Seq<char>) -> int {
    if first_dot(s) < 0 {
        0
    } else if first_dot(s) > s.len() {
        s.len() as int
    } else {
        first_dot(s)
    }
}

/// The parts joined back with dots between them.
pub open spec fn join_parts(ps: Seq<Seq<char>>) -> Seq<char>
    decreases ps.len(),
{
    if ps.len() == 0 {
        Seq::empty()
    } else if ps.len() == 1 {
        ps[0]
    } else {
        join_parts(ps.drop_last()) + seq!['.'] + ps.last()
    }
}

/// Splitting never yields an empty part list.
pub proof fn lemma_split_nonempty(s: Seq<char>)
    ensures
        split_parts(s).len() >= 1,
    decreases s.len(),
{
    lemma_first_dot(s);
    let i = first_dot_clamped(s);
    if i < s.len() {
        lemma_split_nonempty(s.skip(i + 1));
    }
}

/// No part produced by splitting contains a dot.
pub proof fn lemma_split_no_dots(s: Seq<char>)
    ensures
        forall|k: int, j: int|
            0 <= k < split_parts(s).len() && 0 <= j < split_parts(s)[k].len()
                ==> split_parts(s)[k][j] != '.',
    decreases s.len(),
{
    lemma_first_dot(s);
    let i = first_dot_clamped(s);
    if i < s.len() {
        lemma_split_no_dots(s.skip(i + 1));
        let ps = split_parts(s);
        assert forall|k: int, j: int|
            0 <= k < ps.len() && 0 <= j < ps[k].len() implies ps[k][j] != '.' by {
            if k == 0 {
                assert(ps[0] == s.take(i));
                assert(s.take(i)[j] == s[j]);
            } else {
                assert(ps[k] == split_parts(s.skip(i + 1))[k - 1]);
            }
        }
    }
}

/// Joining the split parts gives the string back.
pub proof fn lemma_join_split(s: Seq<char>)
    ensures
        join_parts(split_parts(s)) == s,
    decreases s.len(),
{
    lemma_first_dot(s);
    let i = first_dot_clamped(s);
    if i >= s.len() {
        assert(split_parts(s) == seq![s]);
        assert(join_parts(seq![s]) == s);
    } else {
        let rest = s.skip(i + 1);
        lemma_join_split(rest);
        lemma_split_nonempty(rest);
        lemma_join_take_step(seq![s.take(i)] + split_parts(rest));
        assert((seq![s.take(i)] + split_parts(rest)).drop_first() =~= split_parts(rest));
        lemma_join_cons(s.take(i), split_parts(rest));
        assert(s.take(i) + seq!['.'] + rest =~= s);
    }
}

/// Joining a non-empty list equals the head, a dot, then the joined tail.
pub proof fn lemma_join_cons(head: Seq<char>, tail: Seq<Seq<char>>)
    requires
        tail.len() >= 1,
    ensures
        join_parts(seq![head] + tail) == head + seq!['.'] + join_parts(tail),
    decreases tail.len(),
{
    let whole = seq![head] + tail;
    if tail.len() == 1 {
        assert(whole.drop_last() =~= seq![head]);
        assert(join_parts(whole) == join_parts(seq![head]) + seq!['.'] + whole.last());
        assert(join_parts(seq![head]) == head);
        assert(whole.last() == tail[0]);
        assert(join_parts(tail) == tail[0]);
    } else {
        assert(whole.drop_last() =~= seq![head] + tail.drop_last());
        lemma_join_cons(head, tail.drop_last());
        assert(join_parts(whole) == join_parts(seq![head] + tail.drop_last()) + seq!['.']
            + whole.last());
        assert(whole.last() == tail.last());
        assert(join_parts(tail) == join_parts(tail.drop_last()) + seq!['.'] + tail.last());
        assert(head + seq!['.'] + (join_parts(tail.drop_last()) + seq!['.'] + tail.last()) =~= (head
            + seq!['.'] + join_parts(tail.drop_last())) + seq!['.'] + tail.last());
    }
}

proof fn lemma_join_take_step(ps: Seq<Seq<char>>)
    requires
        ps.len() >= 2,
    ensures
        join_parts(ps) == join_parts(ps.drop_last()) + seq!['.'] + ps.last(),
{
}

/// The joined prefix of `k` parts is a prefix of the whole joined list,
/// ending just before a dot (or at the end).
pub proof fn lemma_join_take_prefix(ps: Seq<Seq<char>>, k: int)
    requires
        1 <= k <= ps.len(),
    ensures
        join_parts(ps.take(k)).len() <= join_parts(ps).len(),
        join_parts(ps).take(join_parts(ps.take(k)).len() as int) == join_parts(ps.take(k)),
    decreases ps.len() - k,
{
    if k == ps.len() {
        assert(ps.take(k) =~= ps);
        assert(join_parts(ps).take(join_parts(ps).len() as int) =~= join_parts(ps));
    } else {
        lemma_join_take_prefix(ps, k + 1);
        let a = ps.take(k);
        let b = ps.take(k + 1);
        assert(b.drop_last() =~= a);
        lemma_join_take_step(b);
        assert(join_parts(b) == join_parts(a) + seq!['.'] + b.last());
        assert(join_parts(b).take(join_parts(a).len() as int) =~= join_parts(a));
        let la = join_parts(a).len() as int;
        let lb = join_parts(b).len() as int;
        assert(join_parts(ps).take(lb).take(la) =~= join_parts(ps).take(la));
    }
}

/// The length of the shared leading run of equal parts.
pub open spec fn shared_prefix_len(a: Seq<Seq<char>>, b: Seq<Seq<char>>) -> int
    decreases a.len(),
{
    if a.len() == 0 || b.len() == 0 {
        0
    } else if a[0] != b[0] {
        0
    } else {
        1 + shared_prefix_len(a.drop_first(), b.drop_first())
    }
}

/// Any cut position with equal parts before it and unequal parts (or an
/// end) at it is the shared prefix length.
pub proof fn lemma_shared_prefix_at(a: Seq<Seq<char>>, b: Seq<Seq<char>>, i: int)
    requires
        0 <= i <= a.len(),
        i <= b.len(),
        forall|j: int| 0 <= j < i ==> a[j] == b[j],
        i < a.len() && i < b.len() ==> a[i] != b[i],
    ensures
        shared_prefix_len(a, b) == i,
    decreases a.len(),
{
    if a.len() == 0 || b.len() == 0 {
    } else if a[0] != b[0] {
    } else {
        assert(forall|j: int| 0 <= j < i - 1 ==> a.drop_first()[j] == b.drop_first()[j]);
        lemma_shared_prefix_at(a.drop_first(), b.drop_first(), i - 1);
    }
}

/// Whether pattern parts `a` match concrete parts `b`: `a` is no longer
/// than `b` and each part equals the one in `b` or is the `*` wildcard.
pub open spec fn spec_matches(a: Seq<Seq<char>>, b: Seq<Seq<char>>) -> bool {
    a.len() <= b.len() && forall|i: int|
        0 <= i < a.len() ==> a[i] == seq!['*'] || a[i] == b[i]
}

/// A dot-separated tag; the split parts are kept beside the text.
#[derive(Debug, Clone, Eq, Hash)]
pub struct Tag {
    content: String,
    parts: Vec<String>,
}

impl Tag {
    /// The tag's parts, as sequences of characters.
    pub closed spec fn parts_view(&self) -> Seq<Seq<char>> {
        self.parts.deep_view()
    }

    /// The tag's full text.
    pub closed spec fn content_view(&self) -> Seq<char> {
        self.content@
    }

    /// The parts are exactly the text split on dots; the default tag is
    /// the one exception, with no text and no parts.
    pub closed spec fn wf(&self) -> bool {
        ||| self.parts_view() == split_parts(self.content_view())
        ||| (self.content_view().len() == 0 && self.parts_view().len() == 0)
    }

    /// Builds a tag from its text, splitting it on dots.
    pub fn new(content: &str) -> (r: Tag)
        ensures
            r.wf(),
            r.content_view() == content@,
            r.parts_view() == split_parts(content@),
    {
        let n = content.unicode_len();
        let mut parts: Vec<String> = Vec::new();
        let mut start: usize = 0;
        let mut i: usize = 0;
        proof {
            lemma_first_dot(content@);
            assert(content@.skip(0) =~= content@);
            assert(parts.deep_view() =~= Seq::<Seq<char>>::empty());
        }
        while i < n
            invariant
                0 <= start <= i <= n,
                n == content@.len(),
                forall|j: int| start <= j < i ==> content@[j] != '.',
                split_parts(content@) =~= parts.deep_view() + split_parts(content@.skip(start as int)),
            decreases n - i,
        {
            let c = content.get_char(i);
            if c == '.' {
                let part = content.substring_char(start, i);
                let ghost old_parts = parts.deep_view();
                parts.push(part.to_owned());
                proof {
                    let s = content@.skip(start as int);
                    lemma_first_dot(s);
                    assert(s[i - start as int] == '.');
                    assert(forall|j: int| 0 <= j < i - start as int ==> s[j] != '.');
                    lemma_first_dot_at(s, i - start as int);
                    assert(split_parts(s) == seq![s.take(i - start as int)] + split_parts(
                        s.skip(i - start as int + 1),
                    ));
                    assert(s.take(i - start as int) =~= content@.subrange(start as int, i as int));
                    assert(s.skip(i - start as int + 1) =~= content@.skip(i + 1 as int));
                    assert(parts.deep_view() =~= old_parts + seq![
                        content@.subrange(start as int, i as int),
                    ]);
                }
                start = i + 1;
            }
            i += 1;
        }
        let last = content.substring_char(start, n);
        let ghost old_parts = parts.deep_view();
        parts.push(last.to_owned());
        proof {
            let s = content@.skip(start as int);
            lemma_first_dot(s);
            assert(forall|j: int| 0 <= j < s.len() ==> s[j] != '.');
            assert(first_dot_clamped(s) >= s.len());
            assert(split_parts(s) == seq![s]);
            assert(s =~= content@.subrange(start as int, n as int));
            assert(parts.deep_view() =~= old_parts + seq![s]);
        }
        Tag { content: content.to_owned(), parts }
    }

    /// The tag's text.
    pub fn as_str(&self) -> (r: &str)
        ensures
            r@ == self.content_view(),
    {
        self.content.as_str()
    }

    /// The tag's parts, in order.
    pub fn parts(&self) -> (r: Vec<String>)
        ensures
            r.deep_view() == self.parts_view(),
    {
        let out = self.parts.clone();
        proof {
            assert(out.deep_view() =~= self.parts.deep_view());
        }
        out
    }

    /// The part at `index`, or nothing past the end.
    pub fn part(&self, index: usize) -> (r: Option<&str>)
        ensures
            index < self.parts_view().len() ==> r is Some && r->0@ == self.parts_view()[index as int],
            index >= self.parts_view().len() ==> r is None,
    {
        if index < self.parts.len() {
            Some(self.parts[index].as_str())
        } else {
            None
        }
    }

    /// The number of parts.
    pub fn len(&self) -> (r: usize)
        ensures
            r == self.parts_view().len(),
    {
        self.parts.len()
    }

    /// Whether the tag has no parts: only the default tag does.
    pub fn is_empty(&self) -> (r: bool)
        ensures
            r == (self.parts_view().len() == 0),
    {
        self.parts.len() == 0
    }

    /// How many leading parts `fragment(parts)` keeps: at most the part
    /// count, and never fewer than one.
    pub open spec fn fragment_parts(len: int, parts: int) -> int {
        let clamped = if parts < len {
            parts
        } else {
            len
        };
        if clamped < 1 {
            1
        } else {
            clamped
        }
    }

    /// The text of the first `parts` parts (at least one), dots included.
    pub fn fragment(&self, parts: usize) -> (r: &str)
        requires
            self.wf(),
            self.parts_view().len() > 0,
        ensures
            r@ == join_parts(
                self.parts_view().take(
                    Self::fragment_parts(self.parts_view().len() as int, parts as int),
                ),
            ),
    {
        proof {
            lemma_join_split(self.content_view());
        }
        let len = self.parts.len();
        let k = if parts < len {
            if parts < 1 {
                1
            } else {
                parts
            }
        } else {
            len
        };
        let ghost ps = self.parts_view();
        let n = self.content.as_str().unicode_len();
        let mut total: usize = 0;
        let mut j: usize = 0;
        while j < k
            invariant
                0 < k <= len,
                len == self.parts.len(),
                n == self.content_view().len(),
                len == ps.len(),
                ps == self.parts_view(),
                ps == split_parts(self.content_view()),
                self.content_view() == join_parts(ps),
                0 <= j <= k,
                j == 0 ==> total == 0,
                j >= 1 ==> total == join_parts(ps.take(j as int)).len(),
                total <= self.content_view().len(),
            decreases k - j,
        {
            proof {
                lemma_join_take_prefix(ps, j + 1);
                if j >= 1 {
                    lemma_join_take_step(ps.take(j + 1));
                    assert(ps.take(j + 1).drop_last() =~= ps.take(j as int));
                    assert(ps.take(j + 1).last() == ps[j as int]);
                } else {
                    assert(join_parts(ps.take(1)) == ps.take(1)[0]);
                    assert(ps.take(1)[0] == ps[0]);
                }
                assert(ps[j as int] == self.parts@[j as int]@);
            }
            let part_len = self.parts[j].as_str().unicode_len();
            if j == 0 {
                total = part_len;
            } else {
                total = total + 1 + part_len;
            }
            j += 1;
        }
        proof {
            lemma_join_take_prefix(ps, k as int);
            assert(self.content_view().subrange(0, total as int) == join_parts(
                ps.take(k as int),
            ));
        }
        self.content.as_str().substring_char(0, total)
    }

    /// The text of all parts but the last (or the whole single part).
    pub fn parent_fragment(&self) -> (r: &str)
        requires
            self.wf(),
            self.parts_view().len() > 0,
        ensures
            r@ == join_parts(
                self.parts_view().take(
                    Self::fragment_parts(
                        self.parts_view().len() as int,
                        self.parts_view().len() as int - 1,
                    ),
                ),
            ),
    {
        let len = self.parts.len();
        if len >= 1 {
            self.fragment(len - 1)
        } else {
            self.fragment(0)
        }
    }

    /// The tag made of the first `parts` parts (at least one).
    pub fn sub_tag(&self, parts: usize) -> (r: Tag)
        requires
            self.wf(),
            self.parts_view().len() > 0,
        ensures
            r.wf(),
            r.parts_view() == self.parts_view().take(
                Self::fragment_parts(self.parts_view().len() as int, parts as int),
            ),
            r.content_view() == join_parts(
                self.parts_view().take(
                    Self::fragment_parts(self.parts_view().len() as int, parts as int),
                ),
            ),
    {
        let frag = self.fragment(parts);
        let r = Tag::new(frag);
        proof {
            let ghost k = Self::fragment_parts(self.parts_view().len() as int, parts as int);
            lemma_split_no_dots(self.content_view());
            assert forall|i: int, j: int|
                0 <= i < self.parts_view().take(k).len() && 0 <= j
                    < self.parts_view().take(k)[i].len() implies self.parts_view().take(k)[i][j]
                != '.' by {
                assert(self.parts_view().take(k)[i] == split_parts(self.content_view())[i]);
            }
            lemma_split_join(self.parts_view().take(k));
        }
        r
    }

    /// The tag with the last part removed (a single part stays).
    pub fn parent(&self) -> (r: Tag)
        requires
            self.wf(),
            self.parts_view().len() > 0,
        ensures
            r.wf(),
            r.parts_view() == self.parts_view().take(
                Self::fragment_parts(
                    self.parts_view().len() as int,
                    self.parts_view().len() as int - 1,
                ),
            ),
            r.content_view() == join_parts(
                self.parts_view().take(
                    Self::fragment_parts(
                        self.parts_view().len() as int,
                        self.parts_view().len() as int - 1,
                    ),
                ),
            ),
    {
        let len = self.parts.len();
        if len >= 1 {
            self.sub_tag(len - 1)
        } else {
            self.sub_tag(0)
        }
    }

    /// The tag extended by one more dot-separated piece of text.
    pub fn push(&self, part: &str) -> (r: Tag)
        ensures
            r.wf(),
            r.content_view() == self.content_view() + seq!['.'] + part@,
            r.parts_view() == split_parts(self.content_view() + seq!['.'] + part@),
    {
        let mut s = self.content.clone();
        s.append(".");
        s.append(part);
        proof {
            reveal_strlit(".");
            assert("."@ =~= seq!['.']);
        }
        let r = Tag::new(s.as_str());
        r
    }

    /// How many leading parts this tag shares with `other`.
    pub fn shared_parts(&self, other: &Tag) -> (r: usize)
        ensures
            r == shared_prefix_len(self.parts_view(), other.parts_view()),
    {
        let mut i: usize = 0;
        loop
            invariant
                0 <= i <= self.parts.len(),
                i <= other.parts.len(),
                forall|j: int| 0 <= j < i ==> self.parts_view()[j] == other.parts_view()[j],
            decreases self.parts.len() - i,
        {
            if i >= self.parts.len() || i >= other.parts.len() {
                proof {
                    lemma_shared_prefix_at(self.parts_view(), other.parts_view(), i as int);
                }
                return i;
            }
            if !(self.parts[i] == other.parts[i]) {
                proof {
                    lemma_shared_prefix_at(self.parts_view(), other.parts_view(), i as int);
                }
                return i;
            }
            i += 1;
        }
    }

    /// Whether every part of this tag starts `other`: `other` refines it.
    pub fn is_subset_of(&self, other: &Tag) -> (r: bool)
        ensures
            r == (self.parts_view().len() <= other.parts_view().len() && shared_prefix_len(
                self.parts_view(),
                other.parts_view(),
            ) == self.parts_view().len()),
    {
        self.len() <= other.len() && self.shared_parts(other) == self.len()
    }

    /// Whether this tag starts with every part of `other`.
    pub fn is_superset_of(&self, other: &Tag) -> (r: bool)
        ensures
            r == (self.parts_view().len() >= other.parts_view().len() && shared_prefix_len(
                self.parts_view(),
                other.parts_view(),
            ) == other.parts_view().len()),
    {
        self.len() >= other.len() && self.shared_parts(other) == other.len()
    }

    /// Whether this tag, read as a pattern with `*` wildcards, matches
    /// `other`.
    pub fn matches(&self, other: &Tag) -> (r: bool)
        ensures
            r == spec_matches(self.parts_view(), other.parts_view()),
    {
        if self.parts.len() > other.parts.len() {
            return false;
        }
        let star: String = String::from_str("*");
        proof {
            reveal_strlit("*");
            assert(star@ =~= seq!['*']);
        }
        let mut i: usize = 0;
        while i < self.parts.len()
            invariant
                0 <= i <= self.parts_view().len(),
                self.parts_view().len() <= other.parts_view().len(),
                star@ == seq!['*'],
                forall|j: int|
                    0 <= j < i ==> self.parts_view()[j] == seq!['*'] || self.parts_view()[j]
                        == other.parts_view()[j],
            decreases self.parts.len() - i,
        {
            let wild = self.parts[i] == star;
            if !wild && !(self.parts[i] == other.parts[i]) {
                proof {
                    assert(self.parts_view()[i as int] == self.parts@[i as int]@);
                    assert(other.parts_view()[i as int] == other.parts@[i as int]@);
                }
                return false;
            }
            proof {
                assert(self.parts_view()[i as int] == self.parts@[i as int]@);
                assert(other.parts_view()[i as int] == other.parts@[i as int]@);
            }
            i += 1;
        }
        true
    }
}

impl Default for Tag {
    /// The empty tag: no text and no parts.
    fn default() -> (r: Tag)
        ensures
            r.wf(),
            r.parts_view().len() == 0,
            r.content_view().len() == 0,
    {
        let r = Tag { content: String::new(), parts: Vec::new() };
        proof {
            assert(r.parts_view() =~= Seq::<Seq<char>>::empty());
        }
        r
    }
}

impl core::str::FromStr for Tag {
    type Err = ();

    fn from_str(s: &str) -> Result<Tag, ()> {
        Ok(Tag::new(s))
    }
}

/// Splitting the joined text of dot-free parts gives the parts back.
pub proof fn lemma_split_join(ps: Seq<Seq<char>>)
    requires
        ps.len() >= 1,
        forall|i: int, j: int| 0 <= i < ps.len() && 0 <= j < ps[i].len() ==> ps[i][j] != '.',
    ensures
        split_parts(join_parts(ps)) == ps,
    decreases ps.len(),
{
    let s = join_parts(ps);
    if ps.len() == 1 {
        lemma_first_dot_at(s, s.len() as int);
        assert(split_parts(s) =~= seq![ps[0]]);
    } else {
        let head = ps[0];
        let tail = ps.drop_first();
        assert(ps =~= seq![head] + tail);
        lemma_join_cons(head, tail);
        assert(s == head + seq!['.'] + join_parts(tail));
        assert forall|j: int| 0 <= j < head.len() implies s[j] != '.' by {
            assert(s[j] == head[j]);
        }
        assert(s[head.len() as int] == '.');
        lemma_first_dot_at(s, head.len() as int);
        assert(s.take(head.len() as int) =~= head);
        assert(s.skip(head.len() as int + 1) =~= join_parts(tail));
        assert(forall|i: int, j: int|
            0 <= i < tail.len() && 0 <= j < tail[i].len() ==> tail[i][j] != '.');
        lemma_split_join(tail);
        assert(split_parts(s) =~= seq![head] + tail);
    }
}

impl PartialEq for Tag {
    /// Tags are equal exactly when their texts are equal.
    fn eq(&self, other: &Tag) -> (r: bool) {
        self.content == other.content
    }
}

impl vstd::std_specs::cmp::PartialEqSpecImpl for Tag {
    open spec fn obeys_eq_spec() -> bool {
        true
    }

    open spec fn eq_spec(&self, other: &Tag) -> bool {
        self.content_view() == other.content_view()
    }
}

/// Whether some tag of `ts` matches `t` as a pattern.
pub open spec fn spec_matches_any(ts: Seq<Tag>, t: Tag) -> bool {
    exists|i: int| 0 <= i < ts.len() && spec_matches(ts[i].parts_view(), t.parts_view())
}

/// Whether every tag of `ts` matches `t` as a pattern.
pub open spec fn spec_matches_all(ts: Seq<Tag>, t: Tag) -> bool {
    forall|i: int| 0 <= i < ts.len() ==> spec_matches(ts[i].parts_view(), t.parts_view())
}

/// Whether two tags hold the same text and the same parts.
pub open spec fn tag_alike(a: Tag, b: Tag) -> bool {
    a.content_view() == b.content_view() && a.parts_view() == b.parts_view()
}

/// Whether two tag lists are alike element by element.
pub open spec fn tags_alike(a: Seq<Tag>, b: Seq<Tag>) -> bool {
    a.len() == b.len() && forall|i: int| 0 <= i < a.len() ==> tag_alike(a[i], b[i])
}

/// A collection of tags with set-like insertion and pattern queries.
#[derive(Debug, Clone)]
pub struct Tags {
    tags: Vec<Tag>,
}

impl Tags {
    /// The tags held, in insertion order.
    pub closed spec fn tags_seq(&self) -> Seq<Tag> {
        self.tags@
    }

    /// The collection extended by `tag`, unless an equal tag is present.
    pub fn with(self, tag: Tag) -> (r: Tags)
        ensures
            (exists|i: int|
                0 <= i < self.tags_seq().len() && self.tags_seq()[i].content_view()
                    == tag.content_view()) ==> r.tags_seq() == self.tags_seq(),
            (forall|i: int|
                0 <= i < self.tags_seq().len() ==> self.tags_seq()[i].content_view()
                    != tag.content_view()) ==> r.tags_seq() == self.tags_seq().push(tag),
    {
        let mut i: usize = 0;
        while i < self.tags.len()
            invariant
                0 <= i <= self.tags.len(),
                forall|j: int| 0 <= j < i ==> self.tags_seq()[j].content_view() != tag.content_view(),
            decreases self.tags.len() - i,
        {
            if self.tags[i] == tag {
                return self;
            }
            i += 1;
        }
        let mut r = self;
        r.tags.push(tag);
        r
    }

    /// Whether some tag here, as a pattern, matches `tag`.
    pub fn matches_any(&self, tag: &Tag) -> (r: bool)
        ensures
            r == spec_matches_any(self.tags_seq(), *tag),
    {
        let mut i: usize = 0;
        while i < self.tags.len()
            invariant
                0 <= i <= self.tags.len(),
                forall|j: int|
                    0 <= j < i ==> !spec_matches(self.tags_seq()[j].parts_view(), tag.parts_view()),
            decreases self.tags.len() - i,
        {
            if self.tags[i].matches(tag) {
                return true;
            }
            i += 1;
        }
        false
    }

    /// Whether every tag here, as a pattern, matches `tag`.
    pub fn matches_all(&self, tag: &Tag) -> (r: bool)
        ensures
            r == spec_matches_all(self.tags_seq(), *tag),
    {
        let mut i: usize = 0;
        while i < self.tags.len()
            invariant
                0 <= i <= self.tags.len(),
                forall|j: int|
                    0 <= j < i ==> spec_matches(self.tags_seq()[j].parts_view(), tag.parts_view()),
            decreases self.tags.len() - i,
        {
            if !self.tags[i].matches(tag) {
                return false;
            }
            i += 1;
        }
        true
    }

    /// The tags of this collection that some tag of `other` matches.
    pub fn matching_any_iter(&self, other: &Tags) -> (r: Vec<Tag>)
        ensures
            tags_alike(
                self.tags_seq().filter(|t: Tag| spec_matches_any(other.tags_seq(), t)),
                r@,
            ),
    {
        let ghost pred = |t: Tag| spec_matches_any(other.tags_seq(), t);
        let mut out: Vec<Tag> = Vec::new();
        let mut i: usize = 0;
        proof {
            reveal(Seq::filter);
            assert(self.tags_seq().take(0int).filter(pred) =~= out@);
        }
        while i < self.tags.len()
            invariant
                0 <= i <= self.tags.len(),
                tags_alike(
                    self.tags_seq().take(i as int).filter(
                        |t: Tag| spec_matches_any(other.tags_seq(), t),
                    ),
                    out@,
                ),
            decreases self.tags.len() - i,
        {
            let keep = other.matches_any(&self.tags[i]);
            if keep {
                out.push(self.tags[i].clone_tag());
            }
            proof {
                reveal(Seq::filter);
                let ts = self.tags_seq();
                assert(ts.take(i + 1).drop_last() =~= ts.take(i as int));
                assert(ts.take(i + 1).last() == ts[i as int]);
            }
            i += 1;
        }
        proof {
            assert(self.tags_seq().take(self.tags_seq().len() as int) =~= self.tags_seq());
        }
        out
    }

    /// The tags of this collection that every tag of `other` matches.
    pub fn matching_all_iter(&self, other: &Tags) -> (r: Vec<Tag>)
        ensures
            tags_alike(
                self.tags_seq().filter(|t: Tag| spec_matches_all(other.tags_seq(), t)),
                r@,
            ),
    {
        let ghost pred = |t: Tag| spec_matches_all(other.tags_seq(), t);
        let mut out: Vec<Tag> = Vec::new();
        let mut i: usize = 0;
        proof {
            reveal(Seq::filter);
            assert(self.tags_seq().take(0int).filter(pred) =~= out@);
        }
        while i < self.tags.len()
            invariant
                0 <= i <= self.tags.len(),
                tags_alike(
                    self.tags_seq().take(i as int).filter(
                        |t: Tag| spec_matches_all(other.tags_seq(), t),
                    ),
                    out@,
                ),
            decreases self.tags.len() - i,
        {
            let keep = other.matches_all(&self.tags[i]);
            if keep {
                out.push(self.tags[i].clone_tag());
            }
            proof {
                reveal(Seq::filter);
                let ts = self.tags_seq();
                assert(ts.take(i + 1).drop_last() =~= ts.take(i as int));
                assert(ts.take(i + 1).last() == ts[i as int]);
            }
            i += 1;
        }
        proof {
            assert(self.tags_seq().take(self.tags_seq().len() as int) =~= self.tags_seq());
        }
        out
    }

    /// The sub-collection that some tag of `other` matches.
    pub fn matching_union_any(&self, other: &Tags) -> (r: Tags)
        ensures
            tags_alike(
                self.tags_seq().filter(|t: Tag| spec_matches_any(other.tags_seq(), t)),
                r.tags_seq(),
            ),
    {
        Tags { tags: self.matching_any_iter(other) }
    }

    /// The sub-collection that every tag of `other` matches.
    pub fn matching_union_all(&self, other: &Tags) -> (r: Tags)
        ensures
            tags_alike(
                self.tags_seq().filter(|t: Tag| spec_matches_all(other.tags_seq(), t)),
                r.tags_seq(),
            ),
    {
        Tags { tags: self.matching_all_iter(other) }
    }

    /// The sub-collection that no tag of `other` matches.
    pub fn matching_difference_any(&self, other: &Tags) -> (r: Tags)
        ensures
            tags_alike(
                self.tags_seq().filter(|t: Tag| !spec_matches_any(other.tags_seq(), t)),
                r.tags_seq(),
            ),
    {
        let ghost pred = |t: Tag| !spec_matches_any(other.tags_seq(), t);
        let mut out: Vec<Tag> = Vec::new();
        let mut i: usize = 0;
        proof {
            reveal(Seq::filter);
            assert(self.tags_seq().take(0int).filter(pred) =~= out@);
        }
        while i < self.tags.len()
            invariant
                0 <= i <= self.tags.len(),
                tags_alike(
                    self.tags_seq().take(i as int).filter(
                        |t: Tag| !spec_matches_any(other.tags_seq(), t),
                    ),
                    out@,
                ),
            decreases self.tags.len() - i,
        {
            let keep = !other.matches_any(&self.tags[i]);
            if keep {
                out.push(self.tags[i].clone_tag());
            }
            proof {
                reveal(Seq::filter);
                let ts = self.tags_seq();
                assert(ts.take(i + 1).drop_last() =~= ts.take(i as int));
                assert(ts.take(i + 1).last() == ts[i as int]);
            }
            i += 1;
        }
        proof {
            assert(self.tags_seq().take(self.tags_seq().len() as int) =~= self.tags_seq());
        }
        Tags { tags: out }
    }

    /// The sub-collection that not every tag of `other` matches.
    pub fn matching_difference_all(&self, other: &Tags) -> (r: Tags)
        ensures
            tags_alike(
                self.tags_seq().filter(|t: Tag| !spec_matches_all(other.tags_seq(), t)),
                r.tags_seq(),
            ),
    {
        let ghost pred = |t: Tag| !spec_matches_all(other.tags_seq(), t);
        let mut out: Vec<Tag> = Vec::new();
        let mut i: usize = 0;
        proof {
            reveal(Seq::filter);
            assert(self.tags_seq().take(0int).filter(pred) =~= out@);
        }
        while i < self.tags.len()
            invariant
                0 <= i <= self.tags.len(),
                tags_alike(
                    self.tags_seq().take(i as int).filter(
                        |t: Tag| !spec_matches_all(other.tags_seq(), t),
                    ),
                    out@,
                ),
            decreases self.tags.len() - i,
        {
            let keep = !other.matches_all(&self.tags[i]);
            if keep {
                out.push(self.tags[i].clone_tag());
            }
            proof {
                reveal(Seq::filter);
                let ts = self.tags_seq();
                assert(ts.take(i + 1).drop_last() =~= ts.take(i as int));
                assert(ts.take(i + 1).last() == ts[i as int]);
            }
            i += 1;
        }
        proof {
            assert(self.tags_seq().take(self.tags_seq().len() as int) =~= self.tags_seq());
        }
        Tags { tags: out }
    }
}

impl Default for Tags {
    /// The empty collection.
    fn default() -> (r: Tags)
        ensures
            r.tags_seq() == Seq::<Tag>::empty(),
    {
        let r = Tags { tags: Vec::new() };
        proof {
            assert(r.tags_seq() =~= Seq::<Tag>::empty());
        }
        r
    }
}

impl Tag {
    /// A copy of the tag with the same text and parts.
    pub fn clone_tag(&self) -> (r: Tag)
        ensures
            tag_alike(*self, r),
            r.wf() == self.wf(),
    {
        let r = Tag { content: self.content.clone(), parts: self.parts.clone() };
        proof {
            assert forall|i: int|
                0 <= i < r.parts@.len() implies r.parts@[i]@ == self.parts@[i]@ by {
                assert(vstd::pervasive::cloned::<String>(self.parts@[i], r.parts@[i]));
            }
            assert(r.parts_view() =~= self.parts_view());
        }
        r
    }
}

/// `first_dot` is the only cut with no dot before it and a dot (or the
/// end) at it.
pub proof fn lemma_first_dot_at(s: Seq<char>, i: int)
    requires
        0 <= i <= s.len(),
        forall|j: int| 0 <= j < i ==> s[j] != '.',
        i < s.len() ==> s[i] == '.',
    ensures
        first_dot(s) == i,
    decreases s.len(),
{
    if s.len() == 0 {
    } else if s[0] == '.' {
    } else {
        assert(forall|j: int| 0 <= j < i - 1 ==> s.drop_first()[j] != '.');
        lemma_first_dot_at(s.drop_first(), i - 1);
    }
}

} // verus!
