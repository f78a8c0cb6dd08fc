use osciemu::loader::LoadError;
use osciemu::utils::{format_of, Format, RangeIterator};

#[test]
fn formats_by_extension() {
    assert_eq!(format_of(None).unwrap(), Format::Raw);
    assert_eq!(format_of(Some("img")).unwrap(), Format::Raw);
    assert_eq!(format_of(Some("bin")).unwrap(), Format::Raw);
    assert_eq!(format_of(Some("raw")).unwrap(), Format::Raw);
    assert_eq!(format_of(Some("hex")).unwrap(), Format::Hex);
}

#[test]
fn unknown_extension() {
    for ext in ["txt", "HEX", "", "hexx", "he"] {
        match format_of(Some(ext)) {
            Err(LoadError::Message(text)) => {
                assert_eq!(text, format!("Unknown file extension: {}", ext))
            }
            other => panic!("unexpected: {:?}", other),
        }
    }
}

#[test]
fn range_with_maximum() {
    let mut range = RangeIterator::new(1, 4);
    assert_eq!(range.next(), Some(1));
    assert_eq!(range.next(), Some(2));
    assert_eq!(range.next(), Some(3));
    assert_eq!(range.next(), None);
    assert_eq!(range.next(), None);
    assert_eq!(range.count, 4);
}

#[test]
fn range_without_end() {
    let mut range = RangeIterator::new(1, 0);
    for expected in 1..100 {
        assert_eq!(range.next(), Some(expected));
    }
    let mut range = RangeIterator::new(usize::MAX - 1, 0);
    assert_eq!(range.next(), Some(usize::MAX - 1));
    assert_eq!(range.next(), Some(usize::MAX));
    assert_eq!(range.next(), Some(usize::MAX));
}

#[test]
fn range_that_starts_behind_its_maximum() {
    let mut range = RangeIterator::new(5, 3);
    assert_eq!(range.next(), Some(5));
    assert_eq!(range.next(), Some(6));
    let mut range = RangeIterator::new(3, 3);
    assert_eq!(range.next(), None);
}
