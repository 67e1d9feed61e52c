use srt::buffer::Buffer;

#[test]
fn new_from_head() {
    let buffer = Buffer::new();
    assert!(buffer.data.is_empty());
    assert_eq!(buffer.ptr, 0);
    let mut buffer = Buffer::from(&[1, 2, 3]);
    assert_eq!(buffer.data, vec![1, 2, 3]);
    assert_eq!(buffer.ptr, 0);
    buffer.advance(2);
    assert_eq!(buffer.unread_bytes(), &[3]);
    buffer.head();
    assert_eq!(buffer.ptr, 0);
    assert_eq!(buffer.unread_bytes(), &[1, 2, 3]);
}

#[test]
fn reads_follow_writes() {
    let mut buffer = Buffer::new();
    buffer.write_bytes(&[10, 11]);
    buffer.write_bytes(&[12, 13, 14]);
    assert_eq!(buffer.unread_bytes(), &[10, 11, 12, 13, 14]);
    buffer.advance(2);
    assert_eq!(buffer.unread_bytes(), &[12, 13, 14]);
    buffer.advance(3);
    assert!(buffer.unread_bytes().is_empty());
    buffer.write_bytes(&[15]);
    assert_eq!(buffer.unread_bytes(), &[15]);
    assert_eq!(buffer.ptr, 5);
}
