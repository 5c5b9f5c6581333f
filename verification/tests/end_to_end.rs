use std::cell::RefCell;
use std::rc::Rc;

use socket_selector::stream::readable_byte_channel::ReadableByteChannel;
use socket_selector::stream::websocket::WebSocketServer;
use socket_selector::stream::writable_byte_channel::WritableByteChannel;
use socket_selector::{
    Accept, ByteBuffer, Close, Flush, Id, Open, Read, ReadError, Selector, SelectorListener,
    SelectorState, Write,
};

#[derive(Default)]
struct Shared {
    accepted: bool,
    inbound: Vec<Vec<u8>>,
    sent: Vec<u8>,
    closed: bool,
}

struct Wire {
    shared: Rc<RefCell<Shared>>,
}

impl Accept<Rc<RefCell<Shared>>> for Wire {
    fn accept(accept: Rc<RefCell<Shared>>) -> Self {
        accept.borrow_mut().accepted = true;
        Wire { shared: accept }
    }

    fn get_stream(&mut self) -> &mut Rc<RefCell<Shared>> {
        &mut self.shared
    }
}

impl Read for Wire {
    fn read<const N: usize>(&mut self, read_buf: &mut ByteBuffer<N>) -> Result<(), ReadError> {
        let mut shared = self.shared.borrow_mut();
        if shared.closed {
            return Err(ReadError::SocketClosed);
        }
        if shared.inbound.is_empty() {
            return Err(ReadError::NotFullRead);
        }
        let bytes = shared.inbound.remove(0);
        read_buf.push_slice(&bytes).map_err(|_| ReadError::SocketClosed)
    }
}

impl Flush for Wire {
    type Error = ();

    fn flush(&mut self) -> Result<(), ()> {
        Ok(())
    }
}

impl Write for Wire {
    fn write<const N: usize>(&mut self, write: &mut ByteBuffer<N>) -> Result<(), ()> {
        self.shared.borrow_mut().sent.extend_from_slice(&write.filled()[write.pos()..]);
        write.clear();
        Ok(())
    }
}

impl Close for Wire {
    type Error = ();
    type Registry = ();

    fn is_closed(&self) -> bool {
        self.shared.borrow().closed
    }

    fn close(&mut self, _registry: &mut ()) -> Result<(), ()> {
        self.shared.borrow_mut().closed = true;
        Ok(())
    }
}

impl Open for Wire {
    type Error = ();
    type Registry = ();

    fn open(&mut self, _registry: &mut ()) -> Result<(), ()> {
        Ok(())
    }
}

type Layer = WebSocketServer<Wire, WritableByteChannel<Wire, 512>>;

type Connection = ReadableByteChannel<Layer, 512>;

#[derive(Default)]
struct Echo {
    received: Vec<Vec<u8>>,
}

#[derive(Debug)]
struct Marker;

type EchoSelector = Selector<Echo, Connection, Marker, 4>;

impl SelectorListener<Connection, Marker, 4> for Echo {
    fn tick(_server: &mut EchoSelector) -> Result<(), ()> {
        Ok(())
    }

    fn accept(_server: &mut EchoSelector, _id: Id<Marker>) {}

    fn read(server: &mut EchoSelector, id: Id<Marker>) -> Result<(), ReadError> {
        let connection = &mut server.get_mut(&id).stream;
        let start = connection.read_buf.pos();
        let payload = connection.read_buf.filled()[start..].to_vec();
        connection.read_buf.clear();
        let staged = &mut connection.stream_mut().server_mut().write_buf;
        if staged.push_slice(&payload).is_err() {
            return Err(ReadError::SocketClosed);
        }
        server.server_mut().received.push(payload);
        Err(ReadError::FlushRequest)
    }

    fn close(_server: &mut EchoSelector, _id: Id<Marker>) {}
}

const REQUEST: &[u8] =
    b"GET /chat HTTP/1.1\r\nHost: example.com\r\nSec-WebSocket-Key: dGhlIHNhbXBsZSBub25jZQ==\r\n\r\n";

const RESPONSE: &[u8] = b"HTTP/1.1 101 Switching Protocols\nUpgrade: websocket\nConnection: Upgrade\nSec-WebSocket-Accept: s3pPLMBiTxaQ9kYGzzhZRbK+xOo=\r\n   \r\n \r\n\r\n";

#[test]
fn handshake_then_echo() {
    let shared = Rc::new(RefCell::new(Shared::default()));
    let mut selector: EchoSelector = Selector::new(Echo::default());
    let id = selector.accept(shared.clone(), &mut ()).unwrap();

    shared.borrow_mut().inbound.push(REQUEST.to_vec());
    selector.handle_read(id, &mut ());
    assert_eq!(selector.get(&id).state(), SelectorState::FlushRequested);
    assert_eq!(selector.get(&id).read_failure_count(), 0);
    assert!(selector.get(&id).stream.stream().is_established());
    assert!(selector.server().received.is_empty());
    assert!(shared.borrow().sent.is_empty());

    selector.flush_all_sockets(&mut ());
    assert_eq!(selector.get(&id).state(), SelectorState::Idle);
    let mut expected = vec![2, 134, 0];
    expected.extend_from_slice(RESPONSE);
    assert_eq!(shared.borrow().sent, expected);
    shared.borrow_mut().sent.clear();

    let mut frame = vec![0x82, 0x84, 9, 8, 7, 6];
    frame.extend(b"ping".iter().enumerate().map(|(i, byte)| byte ^ [9, 8, 7, 6][i % 4]));
    shared.borrow_mut().inbound.push(frame);
    selector.handle_read(id, &mut ());
    assert_eq!(selector.server().received, vec![b"ping".to_vec()]);
    assert_eq!(selector.get(&id).state(), SelectorState::FlushRequested);
    selector.flush_all_sockets(&mut ());
    assert_eq!(shared.borrow().sent, vec![2, 4, b'p', b'i', b'n', b'g']);
    assert_eq!(selector.get(&id).state(), SelectorState::Idle);
}

#[test]
fn broken_handshake_closes_the_connection() {
    let shared = Rc::new(RefCell::new(Shared::default()));
    let mut selector: EchoSelector = Selector::new(Echo::default());
    let id = selector.accept(shared.clone(), &mut ()).unwrap();
    shared.borrow_mut().inbound.push(b"GET / HTTP/1.1\r\nHost: example.com\r\n\r\n".to_vec());
    selector.handle_read(id, &mut ());
    assert_eq!(selector.get(&id).state(), SelectorState::CloseRequested);
    selector.flush_all_sockets(&mut ());
    assert!(!selector.contains(&id));
    assert!(shared.borrow().closed);
    assert!(shared.borrow().sent.is_empty());
}

#[test]
fn silent_peer_is_closed_after_255_short_reads() {
    let shared = Rc::new(RefCell::new(Shared::default()));
    let mut selector: EchoSelector = Selector::new(Echo::default());
    let id = selector.accept(shared.clone(), &mut ()).unwrap();
    let other = selector.accept(Rc::new(RefCell::new(Shared::default())), &mut ()).unwrap();
    for round in 1..=254u32 {
        selector.handle_read(id, &mut ());
        selector.flush_all_sockets(&mut ());
        assert!(selector.contains(&id));
        assert_eq!(u32::from(selector.get(&id).read_failure_count()), round);
    }
    selector.handle_read(id, &mut ());
    assert_eq!(selector.get(&id).state(), SelectorState::CloseRequested);
    selector.flush_all_sockets(&mut ());
    assert!(!selector.contains(&id));
    assert!(shared.borrow().closed);
    assert!(selector.contains(&other));
    assert_eq!(selector.get(&other).read_failure_count(), 0);
    assert_eq!(selector.len(), 1);
}

#[test]
fn transport_beyond_capacity_is_dropped_unused() {
    let mut selector: EchoSelector = Selector::new(Echo::default());
    for _ in 0..4 {
        let shared = Rc::new(RefCell::new(Shared::default()));
        assert!(selector.accept(shared.clone(), &mut ()).is_ok());
        assert!(shared.borrow().accepted);
        assert_eq!(Rc::strong_count(&shared), 2);
    }
    let late = Rc::new(RefCell::new(Shared::default()));
    assert!(selector.accept(late.clone(), &mut ()).is_err());
    assert!(!late.borrow().accepted);
    assert!(!late.borrow().closed);
    assert_eq!(Rc::strong_count(&late), 1);
    assert_eq!(selector.len(), 4);
}
