use slotmap::{Error, Key, KeyInner, Slot};

#[test]
fn key_new_keeps_both_halves() {
    let k: Key<i32> = Key::new(5, 7).unwrap();
    assert_eq!(k.index(), 5);
    assert_eq!(k.generation(), 7);
}

#[test]
fn key_new_refuses_the_sentinel() {
    let r: Result<Key<i32>, Error> = Key::new(u32::MAX as usize, 1);
    assert!(matches!(r, Err(Error::IndexOutOfBounds)));
    let r: Result<Key<i32>, Error> = Key::new(u32::MAX as usize - 1, 1);
    assert!(matches!(r, Ok(k) if k.index() == 0xffff_fffe));
}

#[test]
fn key_new_keeps_the_low_half_of_a_wide_index() {
    if usize::BITS > 32 {
        let wide: usize = (1usize << 32) + 3;
        let k: Key<i32> = Key::new(wide, 9).unwrap();
        assert_eq!(k.index(), 3);
        assert_eq!(k.generation(), 9);
        let r: Result<Key<i32>, Error> = Key::new(wide + 0xffff_fffc, 9);
        assert!(matches!(r, Err(Error::IndexOutOfBounds)));
    }
}

#[test]
fn key_new_special_has_the_sentinel_index() {
    let k: Key<i32> = Key::new_special(12);
    assert_eq!(k.index(), u32::MAX as usize);
    assert_eq!(k.generation(), 12);
}

#[test]
fn key_packs_index_low_and_generation_high() {
    let k: Key<i32> = Key::new(5, 7).unwrap();
    let bits: u64 = u64::from(k);
    assert_eq!(bits, 30064771077);
    assert_eq!(bits, (7u64 << 32) | 5);
    let special: Key<i32> = Key::new_special(1);
    assert_eq!(u64::from(special), 0x0000_0001_ffff_ffff);
}

#[test]
fn key_unpacks_what_was_packed() {
    let k: Key<i32> = Key::from(0x0000_0003_0000_0002u64);
    assert_eq!(k.index(), 2);
    assert_eq!(k.generation(), 3);
    assert_eq!(u64::from(k), 0x0000_0003_0000_0002u64);
    let all: Key<i32> = Key::from(u64::MAX);
    assert_eq!(all.index(), u32::MAX as usize);
    assert_eq!(all.generation(), u32::MAX);
    let back: Key<i32> = Key::from(u64::from(Key::<i32>::new(77, 88).unwrap()));
    assert!(back == Key::new(77, 88).unwrap());
}

#[test]
fn keys_compare_by_both_halves() {
    let a: Key<i32> = Key::new(1, 2).unwrap();
    let b: Key<i32> = Key::new(1, 2).unwrap();
    let c: Key<i32> = Key::new(1, 3).unwrap();
    let d: Key<i32> = Key::new(2, 2).unwrap();
    assert!(a == b);
    assert!(a != c);
    assert!(a != d);
}

#[test]
fn key_inner_is_plain_data() {
    let a = KeyInner { index: 1, generation: 2 };
    let b = a;
    assert_eq!(a, b);
    assert_ne!(a, KeyInner { index: 2, generation: 1 });
}

#[test]
fn slot_state_machine() {
    let mut s: Slot<i32> = Slot::new(4, 10);
    assert!(!s.is_empty());
    let right: Key<i32> = Key::new(0, 4).unwrap();
    let wrong: Key<i32> = Key::new(0, 5).unwrap();
    assert_eq!(s.get(right), Some(&10));
    assert_eq!(s.get(wrong), None);
    assert!(s.get_mut(wrong).is_none());
    match s.get_mut(right) {
        Some(v) => *v = 12,
        None => panic!("the generations agree"),
    }
    assert_eq!(s.remove(wrong), None);
    assert!(!s.is_empty());
    assert_eq!(s.remove(right), Some(12));
    assert!(s.is_empty());
    assert_eq!(s.generation, 0);
    assert_eq!(s.get(right), None);
    assert_eq!(s.remove(right), None);
}

#[test]
fn empty_slot_admits_no_key() {
    let mut s: Slot<i32> = Slot { generation: 0, value: None };
    let zero: Key<i32> = Key::new(0, 0).unwrap();
    assert!(s.is_empty());
    assert_eq!(s.get(zero), None);
    assert!(s.get_mut(zero).is_none());
    assert_eq!(s.remove(zero), None);
}
