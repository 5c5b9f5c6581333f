use socket_selector::ByteBuffer;

#[test]
fn new_buffer_is_empty() {
    let buffer: ByteBuffer<8> = ByteBuffer::new();
    assert_eq!(buffer.pos(), 0);
    assert_eq!(buffer.filled_len(), 0);
    assert_eq!(buffer.remaining(), 0);
    assert_eq!(buffer.capacity(), 8);
    assert!(buffer.filled().is_empty());
}

#[test]
fn default_buffer_is_empty() {
    let buffer: ByteBuffer<8> = ByteBuffer::default();
    assert_eq!(buffer.filled_len(), 0);
    assert_eq!(buffer.pos(), 0);
}

#[test]
fn push_appends_until_full() {
    let mut buffer: ByteBuffer<3> = ByteBuffer::new();
    assert_eq!(buffer.push(10), Ok(()));
    assert_eq!(buffer.push(20), Ok(()));
    assert_eq!(buffer.push(30), Ok(()));
    assert_eq!(buffer.push(40), Err(40));
    assert_eq!(buffer.filled(), &[10, 20, 30]);
    assert_eq!(buffer.filled_len(), 3);
}

#[test]
fn push_on_zero_capacity_is_refused() {
    let mut buffer: ByteBuffer<0> = ByteBuffer::new();
    assert_eq!(buffer.push(1), Err(1));
    assert_eq!(buffer.filled_len(), 0);
}

#[test]
fn push_slice_is_all_or_nothing() {
    let mut buffer: ByteBuffer<4> = ByteBuffer::new();
    assert_eq!(buffer.push_slice(&[1, 2, 3]), Ok(()));
    assert_eq!(buffer.push_slice(&[4, 5]), Err(()));
    assert_eq!(buffer.filled(), &[1, 2, 3]);
    assert_eq!(buffer.push_slice(&[4]), Ok(()));
    assert_eq!(buffer.filled(), &[1, 2, 3, 4]);
    assert_eq!(buffer.push_slice(&[]), Ok(()));
    assert_eq!(buffer.push_slice(&[9]), Err(()));
}

#[test]
fn read_takes_bytes_in_order() {
    let mut buffer: ByteBuffer<4> = ByteBuffer::new();
    buffer.push_slice(&[7, 8]).unwrap();
    assert_eq!(buffer.read(), Some(7));
    assert_eq!(buffer.pos(), 1);
    assert_eq!(buffer.remaining(), 1);
    assert_eq!(buffer.read(), Some(8));
    assert_eq!(buffer.read(), None);
    assert_eq!(buffer.pos(), 2);
    assert_eq!(buffer.filled(), &[7, 8]);
}

#[test]
fn advance_moves_the_read_position() {
    let mut buffer: ByteBuffer<8> = ByteBuffer::new();
    buffer.push_slice(&[1, 2, 3, 4, 5]).unwrap();
    buffer.advance(2);
    assert_eq!(buffer.pos(), 2);
    assert_eq!(buffer.remaining(), 3);
    buffer.advance(0);
    assert_eq!(buffer.pos(), 2);
    buffer.advance(3);
    assert_eq!(buffer.remaining(), 0);
    assert_eq!(buffer.read(), None);
}

#[test]
fn get_and_set_address_written_bytes() {
    let mut buffer: ByteBuffer<8> = ByteBuffer::new();
    buffer.push_slice(&[1, 2, 3]).unwrap();
    assert_eq!(buffer.get(1), 2);
    buffer.set(1, 200);
    assert_eq!(buffer.get(1), 200);
    assert_eq!(buffer.filled(), &[1, 200, 3]);
    assert_eq!(buffer.pos(), 0);
}

#[test]
fn clear_forgets_everything() {
    let mut buffer: ByteBuffer<8> = ByteBuffer::new();
    buffer.push_slice(&[1, 2, 3]).unwrap();
    buffer.advance(2);
    buffer.clear();
    assert_eq!(buffer.pos(), 0);
    assert_eq!(buffer.filled_len(), 0);
    assert_eq!(buffer.push_slice(&[1, 2, 3, 4, 5, 6, 7, 8]), Ok(()));
}

#[test]
fn push_from_moves_the_unread_bytes() {
    let mut source: ByteBuffer<8> = ByteBuffer::new();
    source.push_slice(&[1, 2, 3, 4]).unwrap();
    source.advance(1);
    let mut target: ByteBuffer<5> = ByteBuffer::new();
    target.push_slice(&[9, 9]).unwrap();
    assert_eq!(target.push_from(&mut source), Ok(()));
    assert_eq!(target.filled(), &[9, 9, 2, 3, 4]);
    assert_eq!(target.pos(), 0);
    assert_eq!(source.filled_len(), 0);
    assert_eq!(source.pos(), 0);
}

#[test]
fn push_from_does_nothing_without_room() {
    let mut source: ByteBuffer<8> = ByteBuffer::new();
    source.push_slice(&[1, 2, 3, 4]).unwrap();
    source.advance(1);
    let mut target: ByteBuffer<4> = ByteBuffer::new();
    target.push_slice(&[9, 9]).unwrap();
    assert_eq!(target.push_from(&mut source), Err(()));
    assert_eq!(target.filled(), &[9, 9]);
    assert_eq!(source.filled(), &[1, 2, 3, 4]);
    assert_eq!(source.pos(), 1);
}
