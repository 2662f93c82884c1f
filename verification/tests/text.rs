use slotmap::text::decimal_text;
use slotmap::{Error, Key, SlotMap};

#[test]
fn numbers_are_written_in_decimal() {
    assert_eq!(decimal_text(0), "0");
    assert_eq!(decimal_text(7), "7");
    assert_eq!(decimal_text(9), "9");
    assert_eq!(decimal_text(1234567890), "1234567890");
    assert_eq!(decimal_text(10), "10");
    assert_eq!(decimal_text(109), "109");
    assert_eq!(decimal_text(1000000), "1000000");
    assert_eq!(decimal_text(u32::MAX), "4294967295");
}

#[test]
fn key_text_names_generation_then_index() {
    let k: Key<i32> = Key::new(0, 3).unwrap();
    assert_eq!(k.to_text(), "Key <gen: 3, index: 0>");
    let k: Key<i32> = Key::new(120, 4005).unwrap();
    assert_eq!(k.to_text(), "Key <gen: 4005, index: 120>");
    let special: Key<i32> = Key::new_special(2);
    assert_eq!(special.to_text(), "Key <gen: 2, index: 4294967295>");
}

#[test]
fn added_key_text() {
    let mut x: SlotMap<i32> = SlotMap::new(2, 4).unwrap();
    let _a = x.add(1).unwrap();
    let b = x.add(2).unwrap();
    assert_eq!(b.to_text(), "Key <gen: 2, index: 1>");
}

#[test]
fn error_text_is_its_name() {
    assert_eq!(Error::IndexOutOfBounds.to_text(), "IndexOutOfBounds");
    assert_eq!(Error::MaxGenerationReached.to_text(), "MaxGenerationReached");
    assert_eq!(Error::SlotNotEmpty.to_text(), "SlotNotEmpty");
    assert_eq!(Error::NoFreeSlots.to_text(), "NoFreeSlots");
    assert_eq!(Error::InvalidArgument.to_text(), "InvalidArgument");
    assert_eq!(format!("{:?}", Error::NoFreeSlots), "NoFreeSlots");
}
