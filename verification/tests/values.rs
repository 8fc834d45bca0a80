use integer_unpack::{unpack, Unpack};

#[test]
fn test_values_01() {
    let mut it = 0b11_00_01_10_11_00u16.unpack(4, 7);
    assert_eq!(it.next(), Some(0));
    assert_eq!(it.next(), Some(3));
    assert_eq!(it.next(), Some(2));
    assert_eq!(it.next(), Some(1));
    assert_eq!(it.next(), Some(0));
    assert_eq!(it.next(), Some(3));
    assert_eq!(it.next(), Some(0));
    assert_eq!(it.next(), None);
    assert_eq!(it.next(), None);
}

#[test]
fn test_values_02() {
    let mut it = 0x89ABCDEFu32.unpack(16, 9);
    assert_eq!(it.next(), Some(0xF));
    assert_eq!(it.next(), Some(0xE));
    assert_eq!(it.next(), Some(0xD));
    assert_eq!(it.next(), Some(0xC));
    assert_eq!(it.next(), Some(0xB));
    assert_eq!(it.next(), Some(0xA));
    assert_eq!(it.next(), Some(0x9));
    assert_eq!(it.next(), Some(0x8));
    assert_eq!(it.next(), Some(0x0));
    assert_eq!(it.next(), None);
    assert_eq!(it.next(), None);
}

#[test]
fn test_values_03() {
    let v = (1 * 1 + 2 * 3 + 0 * 9 + 2 * 27 + 1 * 81) as u32;
    let mut it = v.unpack(3, 6);
    assert_eq!(it.next(), Some(1));
    assert_eq!(it.next(), Some(2));
    assert_eq!(it.next(), Some(0));
    assert_eq!(it.next(), Some(2));
    assert_eq!(it.next(), Some(1));
    assert_eq!(it.next(), Some(0));
    assert_eq!(it.next(), None);
    assert_eq!(it.next(), None);
}

#[test]
fn test_meta_01() {
    let ref mut it = unpack(0x89ABCDEFu32, 16, 9);
    assert_eq!(it.count(), 9);
    assert_eq!(it.next(), None);
}

#[test]
fn test_meta_02() {
    let ref mut it = 0x89ABCDEFu32.unpack(16, 9);

    assert_eq!(it.size_hint(), (9, Some(9)));

    it.next();
    assert_eq!(it.size_hint(), (8, Some(8)));

    it.next();
    assert_eq!(it.size_hint(), (7, Some(7)));

    it.next();
    it.next();
    it.next();
    assert_eq!(it.size_hint(), (4, Some(4)));

    it.next();
    it.next();
    it.next();
    assert_eq!(it.size_hint(), (1, Some(1)));

    it.next();
    assert_eq!(it.size_hint(), (0, Some(0)));
}
