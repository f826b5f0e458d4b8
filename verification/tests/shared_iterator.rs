//! The shared cursor: every borrow advances the one shared position.

use zipscan::shared_iterator::SharedIterator;

#[test]
fn basic() {
    let mut shared1 = SharedIterator::new(vec![1, 2, 3, 4]);
    assert_eq!(1, *shared1.next().unwrap());
    {
        let shared2 = &mut shared1;
        assert_eq!(2, *shared2.next().unwrap());
        assert_eq!(3, *shared2.next().unwrap());
    }
    assert_eq!(4, *shared1.next().unwrap());
    assert_eq!(None, shared1.next());
    let shared2 = &mut shared1;
    assert_eq!(None, shared2.next());
}

#[test]
fn remaining_counts_down() {
    let mut it = SharedIterator::new(vec!["a".to_string(), "b".to_string()]);
    assert_eq!(2, it.remaining());
    assert_eq!(0, it.position());
    it.next();
    assert_eq!(1, it.remaining());
    assert_eq!(1, it.position());
    it.next();
    it.next();
    assert_eq!(0, it.remaining());
    assert_eq!(2, it.position());
}

#[test]
fn empty_stream_yields_nothing() {
    let mut it: SharedIterator<u8> = SharedIterator::new(Vec::new());
    assert_eq!(None, it.next());
    assert_eq!(0, it.remaining());
}
