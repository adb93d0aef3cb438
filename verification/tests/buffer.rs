use motion_sensor_lifx::FixedBuffer;

#[test]
fn test_fixed_buffer() {
    let mut buf: FixedBuffer<Option<u32>, 5> = FixedBuffer::default();
    buf.push(Some(5));
    buf.push(Some(10));
    buf.push(Some(15));
    let mut items: Vec<Option<u32>> = Vec::new();
    let mut it = buf.into_iter();
    while let Some(x) = it.next() {
        items.push(x);
    }
    assert_eq!(vec![Some(15), Some(10), Some(5), None, None], items);
    buf.push(Some(20));
    buf.push(Some(25));
    buf.push(Some(30));
    buf.push(Some(35));
    let mut items: Vec<Option<u32>> = Vec::new();
    let mut it = buf.into_iter();
    while let Some(x) = it.next() {
        items.push(x);
    }
    assert_eq!(
        vec![Some(35), Some(30), Some(25), Some(20), Some(15)],
        items
    );
}

#[test]
fn test_indexing() {
    let mut buf: FixedBuffer<Option<u32>, 5> = FixedBuffer::default();
    buf.push(Some(5));
    buf.push(Some(10));
    buf.push(Some(15));
    assert_eq!(*buf.index(0), Some(15));
    assert_eq!(*buf.index(1), Some(10));
    assert_eq!(*buf.index(2), Some(5));
    assert_eq!(buf.get(5), None);
}

#[test]
fn test_borrowing_iterator() {
    let mut buf: FixedBuffer<u64, 3> = FixedBuffer::filled(0);
    buf.push(7);
    buf.push(9);
    let mut it = buf.iter();
    assert_eq!(it.next(), Some(&9));
    assert_eq!(it.next(), Some(&7));
    assert_eq!(it.next(), Some(&0));
    assert_eq!(it.next(), None);
    // the buffer is untouched and can be read again
    assert_eq!(buf.get(0), Some(&9));
}

#[test]
fn test_latest_is_first_after_each_push() {
    // the most recent push is always read back at position 0, repeats included
    let mut buf: FixedBuffer<i64, 4> = FixedBuffer::filled(-1);
    for v in [3, 3, 8, 0, 8, 3] {
        buf.push(v);
        assert_eq!(buf.get(0), Some(&v));
    }
}

#[test]
fn test_window_after_overflow() {
    // seven pushes through a three-slot buffer keep exactly the last three,
    // most recent first; earlier values are gone
    let mut buf: FixedBuffer<u32, 3> = FixedBuffer::filled(0);
    for v in [1, 2, 3, 4, 5, 6, 7] {
        buf.push(v);
    }
    assert_eq!(buf.get(0), Some(&7));
    assert_eq!(buf.get(1), Some(&6));
    assert_eq!(buf.get(2), Some(&5));
    assert_eq!(buf.get(3), None);
}

#[test]
fn test_single_slot_buffer() {
    let mut buf: FixedBuffer<u8, 1> = FixedBuffer::filled(0);
    buf.push(42);
    assert_eq!(buf.get(0), Some(&42));
    buf.push(43);
    assert_eq!(buf.get(0), Some(&43));
    assert_eq!(buf.get(1), None);
}
