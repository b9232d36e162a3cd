use quaso::editable::{location_hash, EditableEntry, EditableRegistry, EditableWidgetLocation};

const I32_WRAPPER: u64 = 1;
const I32_DATA: u64 = 1;

#[test]
fn test_editable_hash_uniqueness() {
    let hash1 = location_hash("tests/editable.rs", 8, 17);
    let hash2 = location_hash("tests/editable.rs", 9, 17);
    assert_ne!(hash1, hash2, "Hashes should be unique for different calls");
}

#[test]
fn test_editable_value_storage() {
    let mut reg = EditableRegistry::<i32>::new();

    let initial_value = EditableEntry::value(
        &mut reg,
        location_hash("tests/editable.rs", 19, 9),
        I32_WRAPPER,
        I32_DATA,
        EditableWidgetLocation::nowhere(),
        10_i32,
        false,
    );
    assert_eq!(initial_value, 10);

    let updated_value = EditableEntry::value(
        &mut reg,
        location_hash("tests/editable.rs", 30, 9),
        I32_WRAPPER,
        I32_DATA,
        EditableWidgetLocation::nowhere(),
        20_i32,
        false,
    );
    assert_eq!(updated_value, 20);
}

#[test]
fn test_editable_entry_modification() {
    let mut reg = EditableRegistry::<i32>::new();
    let location = location_hash("tests/editable.rs", 43, 20);
    for index in 0..3 {
        let entry = EditableEntry::entry(
            &mut reg,
            location,
            I32_WRAPPER,
            I32_DATA,
            EditableWidgetLocation::nowhere(),
            5_i32,
        );

        match index {
            0 => {
                let value = entry.get(&reg).unwrap();
                assert_eq!(value, 5);
                entry.with(&mut reg, |_value: i32| 42);
            }
            2 => {
                let value = entry.get(&reg).unwrap();
                assert_eq!(value, 42);
            }
            _ => break,
        }
    }
}

#[test]
fn test_editable_regions_and_editing() {
    let mut reg = EditableRegistry::<i32>::new();
    EditableEntry::begin_region(&mut reg);
    let entry = EditableEntry::entry(
        &mut reg,
        77,
        I32_WRAPPER,
        I32_DATA,
        EditableWidgetLocation::world_space(),
        9_i32,
    );
    let region = EditableEntry::end_region(&mut reg);
    assert_eq!(region, vec![entry]);
    assert_eq!(EditableEntry::end_region(&mut reg), vec![]);

    entry.start_editing(&mut reg);
    entry.start_editing(&mut reg);
    entry.stop_editing(&mut reg);
    EditableEntry::start_editing_many(&mut reg, vec![entry]);
    EditableEntry::stop_editing_all(&mut reg);

    assert_eq!(entry.instance(), 0);
    assert_eq!(entry.location(), 77);
    assert_eq!(entry.wrapper_type_id(), I32_WRAPPER);
    assert_eq!(entry.data_type_id(), I32_DATA);

    let everywhere = EditableWidgetLocation::world_space()
        .with(EditableWidgetLocation::editing_panel());
    assert!(everywhere.contains(EditableWidgetLocation::world_space()));
    assert!(!EditableWidgetLocation::nowhere().contains(everywhere));

    EditableEntry::maintain(&mut reg);
    assert!(entry.get(&reg).is_some());
    EditableEntry::maintain(&mut reg);
    assert!(entry.get(&reg).is_none());
}
