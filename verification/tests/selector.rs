use std::cell::Cell;
use std::rc::Rc;

use socket_selector::{
    Accept, CapacityExceeded, Close, Flush, Id, Open, PollRead, ReadError, Selector,
    SelectorListener, SelectorState,
};

struct Mock {
    name: u32,
    flush_count: Rc<Cell<u32>>,
    reads: Vec<Result<(), ReadError>>,
    flushes: Vec<Result<(), ()>>,
    flushed: u32,
    opened: bool,
    closed: bool,
}

impl Accept<u32> for Mock {
    fn accept(accept: u32) -> Self {
        Mock {
            name: accept,
            flush_count: Rc::new(Cell::new(0)),
            reads: Vec::new(),
            flushes: Vec::new(),
            flushed: 0,
            opened: false,
            closed: false,
        }
    }

    fn get_stream(&mut self) -> &mut u32 {
        &mut self.name
    }
}

impl PollRead for Mock {
    fn poll_read(&mut self) -> Result<(), ReadError> {
        if self.reads.is_empty() {
            Ok(())
        } else {
            self.reads.remove(0)
        }
    }
}

impl Flush for Mock {
    type Error = ();

    fn flush(&mut self) -> Result<(), ()> {
        self.flushed += 1;
        self.flush_count.set(self.flush_count.get() + 1);
        if self.flushes.is_empty() {
            Ok(())
        } else {
            self.flushes.remove(0)
        }
    }
}

impl Close for Mock {
    type Error = ();
    type Registry = Vec<String>;

    fn is_closed(&self) -> bool {
        self.closed
    }

    fn close(&mut self, registry: &mut Vec<String>) -> Result<(), ()> {
        self.closed = true;
        registry.push(format!("close {}", self.name));
        Ok(())
    }
}

impl Open for Mock {
    type Error = ();
    type Registry = Vec<String>;

    fn open(&mut self, registry: &mut Vec<String>) -> Result<(), ()> {
        if self.name == 666 {
            return Err(());
        }
        self.opened = true;
        registry.push(format!("open {}", self.name));
        Ok(())
    }
}

#[derive(Default)]
struct App {
    log: Vec<String>,
    answers: Vec<Result<(), ReadError>>,
    close_on_read: Option<usize>,
    close_on_close: Option<usize>,
    flush_on_close: Option<usize>,
}

#[derive(Debug)]
struct Marker;

type TestSelector = Selector<App, Mock, Marker, 3>;

impl SelectorListener<Mock, Marker, 3> for App {
    fn tick(server: &mut TestSelector) -> Result<(), ()> {
        server.server_mut().log.push("tick".to_string());
        Ok(())
    }

    fn accept(server: &mut TestSelector, id: Id<Marker>) {
        server.server_mut().log.push(format!("accept {}", id.get()));
    }

    fn read(server: &mut TestSelector, id: Id<Marker>) -> Result<(), ReadError> {
        server.server_mut().log.push(format!("read {}", id.get()));
        if let Some(other) = server.server_mut().close_on_read.take() {
            server.request_socket_close(Id::from(other));
        }
        if server.server().answers.is_empty() {
            Ok(())
        } else {
            server.server_mut().answers.remove(0)
        }
    }

    fn close(server: &mut TestSelector, id: Id<Marker>) {
        server.server_mut().log.push(format!("close {}", id.get()));
        if let Some(other) = server.server_mut().close_on_close.take() {
            server.request_socket_close(Id::from(other));
        }
        if let Some(other) = server.server_mut().flush_on_close.take() {
            server.request_socket_flush(Id::from(other));
        }
    }
}

fn selector_with(count: u32) -> (TestSelector, Vec<Id<Marker>>, Vec<String>) {
    let mut selector: TestSelector = Selector::new(App::default());
    let mut registry = Vec::new();
    let mut ids = Vec::new();
    for name in 0..count {
        ids.push(selector.accept(name, &mut registry).unwrap());
    }
    (selector, ids, registry)
}

#[test]
fn new_selector_has_no_connections() {
    let selector: TestSelector = Selector::new(App::default());
    assert_eq!(selector.len(), 0);
    assert_eq!(selector.pending_len(), 0);
    assert!(!selector.contains(&Id::from(0)));
    let from: TestSelector = Selector::from(App::default());
    assert_eq!(from.len(), 0);
    let default: TestSelector = Selector::default();
    assert_eq!(default.len(), 0);
    assert_eq!(default.pending_len(), 0);
}

#[test]
fn accept_creates_an_idle_connection() {
    let (selector, ids, registry) = selector_with(1);
    let channel = selector.get(&ids[0]);
    assert_eq!(channel.state(), SelectorState::Idle);
    assert_eq!(channel.read_failure_count(), 0);
    assert!(channel.stream.opened);
    assert_eq!(channel.stream.name, 0);
    assert_eq!(registry, vec!["open 0".to_string()]);
    assert_eq!(selector.server().log, vec!["accept 0".to_string()]);
    assert_eq!(selector.pending_len(), 0);
}

#[test]
fn accept_beyond_capacity_is_rejected() {
    let (mut selector, ids, mut registry) = selector_with(3);
    assert_eq!(selector.len(), 3);
    selector.request_socket_flush(ids[1]);
    let log = selector.server().log.clone();
    assert_eq!(selector.accept(99, &mut registry), Err(CapacityExceeded));
    assert_eq!(selector.len(), 3);
    assert_eq!(selector.pending_len(), 1);
    assert_eq!(selector.server().log, log);
    assert_eq!(registry.len(), 3);
    for (name, id) in ids.iter().enumerate() {
        assert!(selector.contains(id));
        assert_eq!(id.get(), name);
        assert_eq!(selector.get(id).stream.name, name as u32);
        assert!(!selector.get(id).stream.closed);
    }
    assert_eq!(selector.get(&ids[1]).state(), SelectorState::FlushRequested);
    assert_eq!(selector.get(&ids[0]).state(), SelectorState::Idle);
}

#[test]
fn accept_that_cannot_register_asks_for_a_close() {
    let mut selector: TestSelector = Selector::new(App::default());
    let mut registry = Vec::new();
    let id = selector.accept(666, &mut registry).unwrap();
    assert!(selector.contains(&id));
    assert_eq!(selector.get(&id).state(), SelectorState::CloseRequested);
    assert_eq!(selector.pending_len(), 1);
    assert_eq!(selector.server().log, vec!["accept 0".to_string()]);
    selector.flush_all_sockets(&mut registry);
    assert!(!selector.contains(&id));
    assert_eq!(selector.len(), 0);
}

#[test]
fn default_state_is_idle() {
    assert_eq!(SelectorState::default(), SelectorState::Idle);
}

#[test]
fn flush_request_is_taken_once() {
    let (mut selector, ids, _) = selector_with(2);
    selector.request_socket_flush(ids[0]);
    assert_eq!(selector.get(&ids[0]).state(), SelectorState::FlushRequested);
    assert_eq!(selector.pending_len(), 1);
    selector.request_socket_flush(ids[0]);
    assert_eq!(selector.get(&ids[0]).state(), SelectorState::FlushRequested);
    assert_eq!(selector.pending_len(), 1);
    assert_eq!(selector.get(&ids[1]).state(), SelectorState::Idle);
}

#[test]
fn flush_request_after_close_request_is_ignored() {
    let (mut selector, ids, _) = selector_with(1);
    selector.request_socket_close(ids[0]);
    selector.request_socket_flush(ids[0]);
    assert_eq!(selector.get(&ids[0]).state(), SelectorState::CloseRequested);
    assert_eq!(selector.pending_len(), 1);
}

#[test]
fn close_request_overrides_flush_request() {
    let (mut selector, ids, _) = selector_with(1);
    selector.request_socket_flush(ids[0]);
    selector.request_socket_close(ids[0]);
    assert_eq!(selector.get(&ids[0]).state(), SelectorState::CloseRequested);
    assert_eq!(selector.pending_len(), 2);
}

#[test]
fn successful_read_tells_the_application() {
    let (mut selector, ids, mut registry) = selector_with(2);
    selector.handle_read(ids[1], &mut registry);
    assert_eq!(selector.server().log.last().unwrap(), "read 1");
    assert_eq!(selector.get(&ids[1]).read_failure_count(), 0);
    assert_eq!(selector.get(&ids[1]).state(), SelectorState::Idle);
    assert_eq!(selector.pending_len(), 0);
}

#[test]
fn failed_poll_does_not_tell_the_application() {
    let (mut selector, ids, mut registry) = selector_with(1);
    selector.get_mut(&ids[0]).stream.reads.push(Err(ReadError::NotFullRead));
    selector.handle_read(ids[0], &mut registry);
    assert_eq!(selector.server().log, vec!["accept 0".to_string()]);
    assert_eq!(selector.get(&ids[0]).read_failure_count(), 1);
    assert_eq!(selector.get(&ids[0]).state(), SelectorState::Idle);
}

#[test]
fn short_reads_are_counted_and_reset_by_success() {
    let (mut selector, ids, mut registry) = selector_with(1);
    for _ in 0..10 {
        selector.get_mut(&ids[0]).stream.reads.push(Err(ReadError::NotFullRead));
    }
    for expected in 1..=10u8 {
        selector.handle_read(ids[0], &mut registry);
        assert_eq!(selector.get(&ids[0]).read_failure_count(), expected);
    }
    selector.handle_read(ids[0], &mut registry);
    assert_eq!(selector.get(&ids[0]).read_failure_count(), 0);
    assert_eq!(selector.get(&ids[0]).state(), SelectorState::Idle);
    assert_eq!(selector.pending_len(), 0);
}

#[test]
fn short_read_from_the_application_is_counted() {
    let (mut selector, ids, mut registry) = selector_with(1);
    selector.server_mut().answers.push(Err(ReadError::NotFullRead));
    selector.handle_read(ids[0], &mut registry);
    assert_eq!(selector.get(&ids[0]).read_failure_count(), 1);
}

#[test]
fn backpressure_closes_after_255_short_reads() {
    let (mut selector, ids, mut registry) = selector_with(1);
    for _ in 0..255 {
        selector.get_mut(&ids[0]).stream.reads.push(Err(ReadError::NotFullRead));
    }
    for _ in 0..254 {
        selector.handle_read(ids[0], &mut registry);
    }
    assert_eq!(selector.get(&ids[0]).read_failure_count(), 254);
    assert_eq!(selector.get(&ids[0]).state(), SelectorState::Idle);
    assert_eq!(selector.pending_len(), 0);
    selector.handle_read(ids[0], &mut registry);
    assert_eq!(selector.get(&ids[0]).read_failure_count(), 0);
    assert_eq!(selector.get(&ids[0]).state(), SelectorState::CloseRequested);
    assert_eq!(selector.pending_len(), 1);
}

#[test]
fn interleaved_success_restarts_the_count() {
    let (mut selector, ids, mut registry) = selector_with(1);
    for _ in 0..200 {
        selector.get_mut(&ids[0]).stream.reads.push(Err(ReadError::NotFullRead));
    }
    selector.get_mut(&ids[0]).stream.reads.push(Ok(()));
    for _ in 0..200 {
        selector.get_mut(&ids[0]).stream.reads.push(Err(ReadError::NotFullRead));
    }
    for _ in 0..401 {
        selector.handle_read(ids[0], &mut registry);
    }
    assert_eq!(selector.get(&ids[0]).read_failure_count(), 200);
    assert_eq!(selector.get(&ids[0]).state(), SelectorState::Idle);
    assert_eq!(selector.pending_len(), 0);
}

#[test]
fn closed_socket_asks_for_a_close_at_once() {
    let (mut selector, ids, mut registry) = selector_with(1);
    selector.get_mut(&ids[0]).stream.reads.push(Err(ReadError::NotFullRead));
    selector.get_mut(&ids[0]).stream.reads.push(Err(ReadError::SocketClosed));
    selector.handle_read(ids[0], &mut registry);
    selector.handle_read(ids[0], &mut registry);
    assert_eq!(selector.get(&ids[0]).state(), SelectorState::CloseRequested);
    assert_eq!(selector.get(&ids[0]).read_failure_count(), 1);
    assert_eq!(selector.pending_len(), 1);
}

#[test]
fn flush_request_from_a_read_asks_for_a_flush() {
    let (mut selector, ids, mut registry) = selector_with(1);
    selector.server_mut().answers.push(Err(ReadError::FlushRequest));
    selector.handle_read(ids[0], &mut registry);
    assert_eq!(selector.get(&ids[0]).state(), SelectorState::FlushRequested);
    assert_eq!(selector.get(&ids[0]).read_failure_count(), 0);
    assert_eq!(selector.pending_len(), 1);
}

#[test]
fn note_read_result_books_each_result() {
    let (mut selector, ids, _) = selector_with(1);
    selector.note_read_result(ids[0], Err(ReadError::NotFullRead));
    selector.note_read_result(ids[0], Err(ReadError::NotFullRead));
    assert_eq!(selector.get(&ids[0]).read_failure_count(), 2);
    selector.note_read_result(ids[0], Err(ReadError::FlushRequest));
    assert_eq!(selector.get(&ids[0]).read_failure_count(), 2);
    assert_eq!(selector.get(&ids[0]).state(), SelectorState::FlushRequested);
    selector.note_read_result(ids[0], Ok(()));
    assert_eq!(selector.get(&ids[0]).read_failure_count(), 0);
    assert_eq!(selector.get(&ids[0]).state(), SelectorState::FlushRequested);
    selector.note_read_result(ids[0], Err(ReadError::SocketClosed));
    assert_eq!(selector.get(&ids[0]).state(), SelectorState::CloseRequested);
    assert_eq!(selector.pending_len(), 2);
}

#[test]
fn note_flush_result_books_each_result() {
    let (mut selector, ids, _) = selector_with(2);
    selector.request_socket_flush(ids[0]);
    selector.request_socket_flush(ids[1]);
    selector.note_flush_result(ids[0], false);
    assert_eq!(selector.get(&ids[0]).state(), SelectorState::Idle);
    assert_eq!(selector.pending_len(), 2);
    selector.note_flush_result(ids[1], true);
    assert_eq!(selector.get(&ids[1]).state(), SelectorState::CloseRequested);
    assert_eq!(selector.pending_len(), 3);
}

#[test]
fn note_flush_result_passes_over_other_states() {
    let (mut selector, ids, _) = selector_with(2);
    selector.note_flush_result(ids[0], true);
    assert_eq!(selector.get(&ids[0]).state(), SelectorState::Idle);
    selector.request_socket_close(ids[1]);
    selector.note_flush_result(ids[1], false);
    assert_eq!(selector.get(&ids[1]).state(), SelectorState::CloseRequested);
    assert_eq!(selector.pending_len(), 1);
}

#[test]
fn queue_is_worked_off_in_order() {
    let (mut selector, ids, mut registry) = selector_with(3);
    selector.request_socket_flush(ids[2]);
    selector.request_socket_close(ids[0]);
    selector.request_socket_flush(ids[1]);
    registry.clear();
    selector.flush_all_sockets(&mut registry);
    assert_eq!(selector.pending_len(), 0);
    assert!(!selector.contains(&ids[0]));
    assert_eq!(selector.len(), 2);
    assert_eq!(selector.get(&ids[1]).state(), SelectorState::Idle);
    assert_eq!(selector.get(&ids[1]).stream.flushed, 1);
    assert_eq!(selector.get(&ids[2]).state(), SelectorState::Idle);
    assert_eq!(selector.get(&ids[2]).stream.flushed, 1);
    assert_eq!(registry, vec!["close 0".to_string()]);
    assert_eq!(selector.server().log.last().unwrap(), "close 0");
}

#[test]
fn failed_flush_asks_for_a_close() {
    let (mut selector, ids, mut registry) = selector_with(1);
    selector.get_mut(&ids[0]).stream.flushes.push(Err(()));
    selector.request_socket_flush(ids[0]);
    selector.flush_all_sockets(&mut registry);
    assert!(selector.contains(&ids[0]));
    assert_eq!(selector.get(&ids[0]).state(), SelectorState::CloseRequested);
    assert_eq!(selector.get(&ids[0]).stream.flushed, 1);
    assert_eq!(selector.pending_len(), 1);
    assert!(!selector.get(&ids[0]).stream.closed);
}

#[test]
fn close_after_a_failed_flush_is_carried_out_by_the_next_run() {
    let (mut selector, ids, mut registry) = selector_with(2);
    selector.get_mut(&ids[0]).stream.flushes.push(Err(()));
    selector.request_socket_flush(ids[0]);
    selector.request_socket_flush(ids[1]);
    registry.clear();
    selector.flush_all_sockets(&mut registry);
    assert_eq!(selector.get(&ids[0]).state(), SelectorState::CloseRequested);
    assert_eq!(selector.get(&ids[1]).state(), SelectorState::Idle);
    assert_eq!(selector.pending_len(), 1);
    assert!(registry.is_empty());
    selector.flush_all_sockets(&mut registry);
    assert!(!selector.contains(&ids[0]));
    assert!(selector.contains(&ids[1]));
    assert_eq!(registry, vec!["close 0".to_string()]);
    assert_eq!(selector.pending_len(), 0);
    assert_eq!(selector.get(&ids[1]).stream.flushed, 1);
    selector.flush_all_sockets(&mut registry);
    assert_eq!(registry.len(), 1);
    assert_eq!(selector.len(), 1);
}

#[test]
fn request_during_the_run_waits_for_the_next_run() {
    let (mut selector, ids, mut registry) = selector_with(3);
    selector.server_mut().close_on_close = Some(ids[1].get());
    selector.server_mut().flush_on_close = Some(ids[2].get());
    selector.request_socket_close(ids[0]);
    registry.clear();
    selector.flush_all_sockets(&mut registry);
    assert!(!selector.contains(&ids[0]));
    assert_eq!(selector.get(&ids[1]).state(), SelectorState::CloseRequested);
    assert_eq!(selector.get(&ids[2]).state(), SelectorState::FlushRequested);
    assert_eq!(selector.get(&ids[2]).stream.flushed, 0);
    assert_eq!(selector.pending_len(), 2);
    assert_eq!(registry, vec!["close 0".to_string()]);
    selector.flush_all_sockets(&mut registry);
    assert!(!selector.contains(&ids[1]));
    assert_eq!(selector.get(&ids[2]).state(), SelectorState::Idle);
    assert_eq!(selector.get(&ids[2]).stream.flushed, 1);
    assert_eq!(selector.pending_len(), 0);
    assert_eq!(registry, vec!["close 0".to_string(), "close 1".to_string()]);
}

#[test]
fn unqueued_connection_is_untouched_by_the_run() {
    let (mut selector, ids, mut registry) = selector_with(3);
    selector.get_mut(&ids[2]).stream.reads.push(Err(ReadError::NotFullRead));
    selector.handle_read(ids[2], &mut registry);
    selector.get_mut(&ids[0]).stream.flushes.push(Err(()));
    selector.request_socket_flush(ids[0]);
    selector.request_socket_close(ids[1]);
    selector.flush_all_sockets(&mut registry);
    assert!(selector.contains(&ids[2]));
    assert_eq!(ids[2].get(), 2);
    assert_eq!(selector.get(&ids[2]).state(), SelectorState::Idle);
    assert_eq!(selector.get(&ids[2]).read_failure_count(), 1);
    assert_eq!(selector.get(&ids[2]).stream.flushed, 0);
    assert!(!selector.get(&ids[2]).stream.closed);
    assert_eq!(selector.get(&ids[2]).stream.name, 2);
}

#[test]
fn full_selector_reports_it() {
    let (selector, _, _) = selector_with(3);
    assert!(selector.is_full());
    let (selector, _, _) = selector_with(2);
    assert!(!selector.is_full());
}

#[test]
fn close_requested_twice_is_closed_once() {
    let (mut selector, ids, mut registry) = selector_with(2);
    selector.request_socket_close(ids[0]);
    selector.request_socket_close(ids[0]);
    assert_eq!(selector.pending_len(), 2);
    registry.clear();
    selector.flush_all_sockets(&mut registry);
    assert_eq!(registry, vec!["close 0".to_string()]);
    assert!(!selector.contains(&ids[0]));
    assert!(selector.contains(&ids[1]));
    assert_eq!(selector.pending_len(), 0);
    let closes = selector.server().log.iter().filter(|line| line.starts_with("close")).count();
    assert_eq!(closes, 1);
}

#[test]
fn empty_queue_changes_nothing() {
    let (mut selector, ids, mut registry) = selector_with(2);
    registry.clear();
    selector.flush_all_sockets(&mut registry);
    assert_eq!(selector.len(), 2);
    assert!(registry.is_empty());
    assert_eq!(selector.get(&ids[0]).stream.flushed, 0);
}

#[test]
fn close_wins_over_flush_within_one_batch() {
    let (mut selector, ids, mut registry) = selector_with(2);
    let (a, b) = (ids[0], ids[1]);
    selector.get_mut(&a).stream.reads.push(Err(ReadError::SocketClosed));
    selector.handle_read(a, &mut registry);
    selector.server_mut().answers.push(Err(ReadError::FlushRequest));
    selector.handle_read(b, &mut registry);
    assert_eq!(selector.get(&a).state(), SelectorState::CloseRequested);
    assert_eq!(selector.get(&b).state(), SelectorState::FlushRequested);
    selector.request_socket_close(b);
    assert_eq!(selector.get(&b).state(), SelectorState::CloseRequested);
    assert_eq!(selector.pending_len(), 3);
    let flushes_of_b = selector.get(&b).stream.flush_count.clone();
    registry.clear();
    selector.flush_all_sockets(&mut registry);
    assert_eq!(flushes_of_b.get(), 0);
    assert!(!selector.contains(&a));
    assert!(!selector.contains(&b));
    assert_eq!(selector.len(), 0);
    assert_eq!(registry, vec!["close 0".to_string(), "close 1".to_string()]);
    assert_eq!(selector.pending_len(), 0);
}

#[test]
fn application_can_close_another_connection() {
    let (mut selector, ids, mut registry) = selector_with(2);
    selector.server_mut().close_on_read = Some(ids[1].get());
    selector.handle_read(ids[0], &mut registry);
    assert_eq!(selector.get(&ids[0]).state(), SelectorState::Idle);
    assert_eq!(selector.get(&ids[1]).state(), SelectorState::CloseRequested);
    selector.flush_all_sockets(&mut registry);
    assert!(selector.contains(&ids[0]));
    assert!(!selector.contains(&ids[1]));
}

#[test]
fn closed_id_is_handed_out_again() {
    let (mut selector, ids, mut registry) = selector_with(3);
    selector.request_socket_close(ids[1]);
    selector.flush_all_sockets(&mut registry);
    assert!(!selector.contains(&ids[1]));
    let again = selector.accept(7, &mut registry).unwrap();
    assert_eq!(again.get(), ids[1].get());
    assert_eq!(selector.get(&again).stream.name, 7);
    assert_eq!(selector.get(&again).state(), SelectorState::Idle);
    assert_eq!(selector.get(&again).read_failure_count(), 0);
    assert_eq!(selector.get(&ids[0]).stream.name, 0);
    assert_eq!(selector.get(&ids[2]).stream.name, 2);
    assert_eq!(selector.accept(8, &mut registry), Err(CapacityExceeded));
}

#[test]
fn flush_socket_handles_one_id() {
    let (mut selector, ids, mut registry) = selector_with(3);
    selector.request_socket_flush(ids[0]);
    selector.request_socket_close(ids[1]);
    registry.clear();
    selector.flush_socket(ids[2], &mut registry);
    assert_eq!(selector.get(&ids[2]).stream.flushed, 0);
    assert_eq!(selector.len(), 3);
    selector.flush_socket(ids[0], &mut registry);
    assert_eq!(selector.get(&ids[0]).stream.flushed, 1);
    assert_eq!(selector.get(&ids[0]).state(), SelectorState::Idle);
    selector.flush_socket(ids[1], &mut registry);
    assert!(!selector.contains(&ids[1]));
    assert_eq!(registry, vec!["close 1".to_string()]);
    selector.flush_socket(ids[1], &mut registry);
    assert_eq!(registry.len(), 1);
    assert_eq!(selector.len(), 2);
    assert_eq!(selector.pending_len(), 2);
}

#[test]
fn try_get_finds_live_connections_only() {
    let (mut selector, ids, mut registry) = selector_with(2);
    assert_eq!(selector.try_get(&ids[1]).map(|channel| channel.stream.name), Some(1));
    assert!(selector.try_get(&Id::from(2)).is_none());
    assert!(selector.try_get(&Id::from(usize::MAX - 1)).is_none());
    selector.request_socket_close(ids[1]);
    selector.flush_all_sockets(&mut registry);
    assert!(selector.try_get(&ids[1]).is_none());
    assert!(selector.try_get(&ids[0]).is_some());
}

#[test]
fn remove_takes_a_connection_out() {
    let (mut selector, ids, _) = selector_with(2);
    let channel = selector.remove(&ids[0]);
    assert_eq!(channel.stream.name, 0);
    assert!(!selector.contains(&ids[0]));
    assert_eq!(selector.len(), 1);
}

#[test]
fn tick_reaches_the_application() {
    let (mut selector, _, _) = selector_with(0);
    assert_eq!(App::tick(&mut selector), Ok(()));
    assert_eq!(selector.server().log, vec!["tick".to_string()]);
}
