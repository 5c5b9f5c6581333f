use crate::connection_table::ConnectionTable;
use crate::stream::byte_buffer::{BufferView, ByteBuffer};
use crate::stream::packet::WritePacket;
use crate::stream::readable_byte_channel::PollRead;
use crate::stream::{Accept, Close, Flush, Id, Open, Read, ReadError, Write};
use vstd::prelude::*;

verus! {

/// What the selector has been asked to do with a connection at the end of
/// the current batch of events.
#[derive(Debug, Clone, Copy, PartialEq, Eq, Structural)]
pub enum SelectorState {
    /// Nothing is asked for.
    Idle,
    /// The connection is to be closed and removed.
    CloseRequested,
    /// The staged outbound bytes are to be flushed.
    FlushRequested,
}

impl Default for SelectorState {
    fn default() -> (state: Self)
        ensures
            state == SelectorState::Idle,
    {
        SelectorState::Idle
    }
}

/// What a [`SelectableChannel`] holds, as mathematics.
pub struct ChannelView<T> {
    /// The wrapped stream.
    pub stream: T,
    /// How many reads in a row found less than one message.
    pub read_failures: u8,
    /// What has been asked for.
    pub state: SelectorState,
}

/// A stream with the bookkeeping that the selector needs: what has been
/// asked for, and how many reads in a row came up short.
///
/// Every capability of the wrapped stream is handed through unchanged, and
/// none of them touches the bookkeeping.
pub struct SelectableChannel<T> {
    pub stream: T,
    read_failure_accumulator: u8,
    state: SelectorState,
}

impl<T> View for SelectableChannel<T> {
    type V = ChannelView<T>;

    closed spec fn view(&self) -> ChannelView<T> {
        ChannelView {
            stream: self.stream,
            read_failures: self.read_failure_accumulator,
            state: self.state,
        }
    }
}

impl<T> SelectableChannel<T> {
    /// The two channels differ in their streams at most.
    pub open spec fn same_bookkeeping(pre: Self, post: Self) -> bool {
        post@.read_failures == pre@.read_failures && post@.state == pre@.state
    }

    /// What has been asked for.
    pub fn state(&self) -> (state: SelectorState)
        ensures
            state == self@.state,
    {
        self.state
    }

    /// How many reads in a row found less than one message.
    pub fn read_failure_count(&self) -> (count: u8)
        ensures
            count == self@.read_failures,
    {
        self.read_failure_accumulator
    }

    /// The wrapped stream, to be changed in place.
    pub fn stream_mut(&mut self) -> (stream: &mut T)
        ensures
            *stream == old(self)@.stream,
            final(self)@ == (ChannelView { stream: *final(stream), ..old(self)@ }),
    {
        &mut self.stream
    }
}

impl<T: Accept<A>, A> Accept<A> for SelectableChannel<T> {
    open spec fn accept_spec(accept: A, made: Self) -> bool {
        &&& T::accept_spec(accept, made@.stream)
        &&& made@.read_failures == 0
        &&& made@.state == SelectorState::Idle
    }

    open spec fn get_stream_spec(pre: Self, post: Self, stream_pre: A, stream_post: A) -> bool {
        &&& T::get_stream_spec(pre@.stream, post@.stream, stream_pre, stream_post)
        &&& Self::same_bookkeeping(pre, post)
    }

    fn accept(accept: A) -> (made: Self) {
        SelectableChannel {
            read_failure_accumulator: 0,
            stream: T::accept(accept),
            state: SelectorState::default(),
        }
    }

    fn get_stream(&mut self) -> (stream: &mut A) {
        self.stream.get_stream()
    }
}

impl<T: Open> Open for SelectableChannel<T> {
    type Error = T::Error;

    type Registry = T::Registry;

    open spec fn open_spec(
        pre: Self,
        registry_pre: Self::Registry,
        post: Self,
        registry_post: Self::Registry,
        result: Result<(), Self::Error>,
    ) -> bool {
        &&& T::open_spec(pre@.stream, registry_pre, post@.stream, registry_post, result)
        &&& Self::same_bookkeeping(pre, post)
    }

    fn open(&mut self, registry: &mut Self::Registry) -> (result: Result<(), Self::Error>) {
        self.stream.open(registry)
    }
}

impl<T: Close> Close for SelectableChannel<T> {
    type Error = T::Error;

    type Registry = T::Registry;

    open spec fn is_closed_spec(&self, closed: bool) -> bool {
        self@.stream.is_closed_spec(closed)
    }

    open spec fn close_spec(
        pre: Self,
        registry_pre: Self::Registry,
        post: Self,
        registry_post: Self::Registry,
        result: Result<(), Self::Error>,
    ) -> bool {
        &&& T::close_spec(pre@.stream, registry_pre, post@.stream, registry_post, result)
        &&& Self::same_bookkeeping(pre, post)
    }

    fn is_closed(&self) -> (closed: bool) {
        self.stream.is_closed()
    }

    fn close(&mut self, registry: &mut Self::Registry) -> (result: Result<(), Self::Error>) {
        self.stream.close(registry)
    }
}

impl<T: Write> Write for SelectableChannel<T> {
    open spec fn write_spec(
        pre: Self,
        buffer_pre: BufferView,
        post: Self,
        buffer_post: BufferView,
        result: Result<(), Self::Error>,
    ) -> bool {
        &&& T::write_spec(pre@.stream, buffer_pre, post@.stream, buffer_post, result)
        &&& Self::same_bookkeeping(pre, post)
    }

    fn write<const N: usize>(&mut self, write: &mut ByteBuffer<N>) -> (result: Result<
        (),
        Self::Error,
    >) {
        self.stream.write(write)
    }
}

impl<T: Flush> Flush for SelectableChannel<T> {
    type Error = T::Error;

    open spec fn flush_spec(pre: Self, post: Self, result: Result<(), Self::Error>) -> bool {
        &&& T::flush_spec(pre@.stream, post@.stream, result)
        &&& Self::same_bookkeeping(pre, post)
    }

    fn flush(&mut self) -> (result: Result<(), Self::Error>) {
        self.stream.flush()
    }
}

impl<T: Read> Read for SelectableChannel<T> {
    open spec fn read_spec(
        pre: Self,
        buffer_pre: BufferView,
        post: Self,
        buffer_post: BufferView,
        result: Result<(), ReadError>,
    ) -> bool {
        &&& T::read_spec(pre@.stream, buffer_pre, post@.stream, buffer_post, result)
        &&& Self::same_bookkeeping(pre, post)
    }

    fn read<const N: usize>(&mut self, read_buf: &mut ByteBuffer<N>) -> (result: Result<
        (),
        ReadError,
    >) {
        self.stream.read(read_buf)
    }
}

impl<P, T: WritePacket<P>> WritePacket<P> for SelectableChannel<T> {
    open spec fn send_spec(pre: Self, packet: P, post: Self, result: Result<(), ReadError>) -> bool {
        &&& T::send_spec(pre@.stream, packet, post@.stream, result)
        &&& Self::same_bookkeeping(pre, post)
    }

    fn send(&mut self, packet: P) -> (result: Result<(), ReadError>) {
        self.stream.send(packet)
    }
}

impl<T: PollRead> PollRead for SelectableChannel<T> {
    open spec fn poll_read_spec(pre: Self, post: Self, result: Result<(), ReadError>) -> bool {
        &&& T::poll_read_spec(pre@.stream, post@.stream, result)
        &&& Self::same_bookkeeping(pre, post)
    }

    fn poll_read(&mut self) -> (result: Result<(), ReadError>) {
        self.stream.poll_read()
    }
}

/// A sequence is a prefix of itself, and a prefix of a prefix is a prefix.
proof fn lemma_prefix_chain<A>(first: Seq<A>, second: Seq<A>, third: Seq<A>)
    requires
        first.is_prefix_of(second),
        second.is_prefix_of(third),
    ensures
        first.is_prefix_of(first),
        first.is_prefix_of(third),
{
    assert(first =~= second.subrange(0, first.len() as int));
    assert(second =~= third.subrange(0, second.len() as int));
    assert(first =~= third.subrange(0, first.len() as int));
    assert(first =~= first.subrange(0, first.len() as int));
}

/// A sequence is a prefix of itself.
proof fn lemma_prefix_of_itself<A>(sequence: Seq<A>)
    ensures
        sequence.is_prefix_of(sequence),
{
    assert(sequence =~= sequence.subrange(0, sequence.len() as int));
}

/// The error of an accept that found the table full.
#[derive(Debug, Clone, Copy, PartialEq, Eq, Structural)]
pub struct CapacityExceeded;

/// What a [`Selector`] holds, as mathematics.
pub struct SelectorView<T, S> {
    /// The application object.
    pub server: T,
    /// The live connections, each under its id.
    pub channels: Map<usize, ChannelView<S>>,
    /// The ids that wait for a flush or a close, oldest first.
    pub pending: Seq<usize>,
}

impl<T, S> SelectorView<T, S> {
    /// The connection `id` with another state.
    pub open spec fn with_state(self, id: usize, state: SelectorState) -> Self {
        SelectorView {
            channels: self.channels.insert(id, ChannelView { state, ..self.channels[id] }),
            ..self
        }
    }

    /// The connection `id` with another stream.
    pub open spec fn with_stream(self, id: usize, stream: S) -> Self {
        SelectorView {
            channels: self.channels.insert(id, ChannelView { stream, ..self.channels[id] }),
            ..self
        }
    }

    /// The connection `id` with another count of short reads.
    pub open spec fn with_read_failures(self, id: usize, read_failures: u8) -> Self {
        SelectorView {
            channels: self.channels.insert(id, ChannelView { read_failures, ..self.channels[id] }),
            ..self
        }
    }

    /// A close of `id` is asked for: whatever its state was, it is now
    /// `CloseRequested`, and the id joins the queue.
    pub open spec fn close_requested(self, id: usize) -> Self {
        SelectorView {
            pending: self.pending.push(id),
            ..self.with_state(id, SelectorState::CloseRequested)
        }
    }

    /// A flush of `id` is asked for: an idle connection becomes
    /// `FlushRequested` and its id joins the queue; for any other
    /// connection nothing happens.
    pub open spec fn flush_requested(self, id: usize) -> Self {
        if self.channels[id].state == SelectorState::Idle {
            SelectorView {
                pending: self.pending.push(id),
                ..self.with_state(id, SelectorState::FlushRequested)
            }
        } else {
            self
        }
    }

    /// A read on `id` ended with `result`.
    ///
    /// A success clears the count of short reads. A short read adds one to
    /// it; when that makes it reach the largest count, the count is cleared
    /// and a close is asked for. A closed socket asks for a close and a
    /// flush request for a flush; neither touches the count.
    pub open spec fn after_read(self, id: usize, result: Result<(), ReadError>) -> Self {
        match result {
            Ok(()) => self.with_read_failures(id, 0),
            Err(ReadError::NotFullRead) => if self.channels[id].read_failures + 1 >= u8::MAX {
                self.with_read_failures(id, 0).close_requested(id)
            } else {
                self.with_read_failures(id, (self.channels[id].read_failures + 1) as u8)
            },
            Err(ReadError::SocketClosed) => self.close_requested(id),
            Err(ReadError::FlushRequest) => self.flush_requested(id),
        }
    }

    /// The flush that was asked for `id` has been tried: the connection is
    /// idle again if it went well, and a close is asked for if not. For a
    /// connection that was not to be flushed nothing happens.
    pub open spec fn after_flush(self, id: usize, failed: bool) -> Self {
        if self.channels[id].state != SelectorState::FlushRequested {
            self
        } else if failed {
            self.close_requested(id)
        } else {
            self.with_state(id, SelectorState::Idle)
        }
    }

    /// The connection `id` is gone.
    pub open spec fn removed(self, id: usize) -> Self {
        SelectorView { channels: self.channels.remove(id), ..self }
    }

    /// Whether `id` stands in the queue at the place `from` or behind it.
    pub open spec fn queued_from(self, id: usize, from: int) -> bool {
        exists|place: int|
            0 <= place && from <= place < self.pending.len() && #[trigger] self.pending[place] == id
    }

    /// Every connection that is to be closed stands in the queue at the
    /// place `from` or behind it.
    pub open spec fn closes_queued_from(self, from: int) -> bool {
        forall|id: usize|
            self.channels.contains_key(id) && self.channels[id].state
                == SelectorState::CloseRequested ==> #[trigger] self.queued_from(id, from)
    }

    /// Every connection that is to be closed stands in the queue: no close
    /// that was asked for can be forgotten. A selector without connections
    /// has this, and whatever the selector does keeps it.
    pub open spec fn closes_queued(self) -> bool {
        self.closes_queued_from(0)
    }

    /// What holds of a selector `post` that application code was handed as
    /// `pre`: the same connections are live, those that were to be closed
    /// still are, the queue has only grown, and every connection that is
    /// newly to be closed has joined the queue.
    pub open spec fn kept(pre: Self, post: Self) -> bool {
        &&& post.channels.dom() == pre.channels.dom()
        &&& forall|id: usize|
            pre.channels.contains_key(id) && pre.channels[id].state
                == SelectorState::CloseRequested ==> (#[trigger] post.channels[id]).state
                == SelectorState::CloseRequested
        &&& pre.pending.is_prefix_of(post.pending)
        &&& forall|id: usize|
            post.channels.contains_key(id) && post.channels[id].state
                == SelectorState::CloseRequested && pre.channels[id].state
                != SelectorState::CloseRequested ==> #[trigger] post.queued_from(
                id,
                pre.pending.len() as int,
            )
    }

    /// `kept` holds of a selector and itself.
    pub proof fn lemma_kept_reflexive(self)
        ensures
            Self::kept(self, self),
    {
        lemma_prefix_of_itself(self.pending);
    }

    /// `kept` holds of the first and the last of three selectors of which
    /// it holds pairwise.
    pub proof fn lemma_kept_transitive(first: Self, second: Self, third: Self)
        requires
            Self::kept(first, second),
            Self::kept(second, third),
        ensures
            Self::kept(first, third),
    {
        assert forall|id: usize|
            first.channels.contains_key(id) && first.channels[id].state
                == SelectorState::CloseRequested implies (#[trigger] third.channels[id]).state
            == SelectorState::CloseRequested by {
            assert(second.channels.dom().contains(id));
            assert(second.channels[id].state == SelectorState::CloseRequested);
        }
        lemma_prefix_chain(first.pending, second.pending, third.pending);
        assert(first.pending =~= second.pending.subrange(0, first.pending.len() as int));
        assert(second.pending =~= third.pending.subrange(0, second.pending.len() as int));
        assert forall|id: usize|
            third.channels.contains_key(id) && third.channels[id].state
                == SelectorState::CloseRequested && first.channels[id].state
                != SelectorState::CloseRequested implies #[trigger] third.queued_from(
            id,
            first.pending.len() as int,
        ) by {
            assert(second.channels.dom().contains(id));
            if second.channels[id].state == SelectorState::CloseRequested {
                assert(second.queued_from(id, first.pending.len() as int));
                let place = choose|place: int|
                    0 <= place && first.pending.len() <= place < second.pending.len()
                        && #[trigger] second.pending[place] == id;
                assert(third.pending[place] == id);
            } else {
                assert(third.queued_from(id, second.pending.len() as int));
                let place = choose|place: int|
                    0 <= place && second.pending.len() <= place < third.pending.len()
                        && #[trigger] third.pending[place] == id;
                assert(third.pending[place] == id);
            }
        }
    }

    /// Every request and every result that the selector books for a live
    /// connection leaves it as `kept` asks.
    pub proof fn lemma_steps_kept(
        self,
        id: usize,
        result: Result<(), ReadError>,
        failed: bool,
        stream: S,
    )
        requires
            self.channels.contains_key(id),
        ensures
            Self::kept(self, self.close_requested(id)),
            Self::kept(self, self.flush_requested(id)),
            Self::kept(self, self.after_read(id, result)),
            Self::kept(self, self.after_flush(id, failed)),
            Self::kept(self, self.with_stream(id, stream)),
    {
        lemma_prefix_of_itself(self.pending);
        let pushed = self.pending.push(id);
        assert(self.pending =~= pushed.subrange(0, self.pending.len() as int));
        assert(pushed[self.pending.len() as int] == id);
        let closed = self.close_requested(id);
        assert(closed.channels.dom() =~= self.channels.dom());
        assert(closed.pending[self.pending.len() as int] == id);
        assert(closed.queued_from(id, self.pending.len() as int));
        assert(Self::kept(self, closed));
        let flushed = self.flush_requested(id);
        assert(flushed.channels.dom() =~= self.channels.dom());
        assert(Self::kept(self, flushed));
        let streamed = self.with_stream(id, stream);
        assert(streamed.channels.dom() =~= self.channels.dom());
        assert(Self::kept(self, streamed));
        let read = self.after_read(id, result);
        assert(read.channels.dom() =~= self.channels.dom());
        assert(read.pending == self.pending || read.pending == pushed);
        assert(read.pending == pushed ==> read.pending[self.pending.len() as int] == id);
        assert(read.channels[id].state == SelectorState::CloseRequested && self.channels[id].state
            != SelectorState::CloseRequested ==> read.queued_from(id, self.pending.len() as int));
        assert(Self::kept(self, read));
        let tried = self.after_flush(id, failed);
        assert(tried.channels.dom() =~= self.channels.dom());
        assert(tried.pending == pushed ==> tried.pending[self.pending.len() as int] == id);
        assert(tried.channels[id].state == SelectorState::CloseRequested && self.channels[id].state
            != SelectorState::CloseRequested ==> tried.queued_from(id, self.pending.len() as int));
        assert(Self::kept(self, tried));
    }

    /// Where no close that was asked for is forgotten from the place `from`
    /// on, none is after the application had its turn.
    pub proof fn lemma_kept_keeps_closes_queued(pre: Self, post: Self, from: int)
        requires
            Self::kept(pre, post),
            pre.closes_queued_from(from),
            from <= pre.pending.len(),
        ensures
            post.closes_queued_from(from),
    {
        assert(pre.pending =~= post.pending.subrange(0, pre.pending.len() as int));
        assert forall|id: usize|
            post.channels.contains_key(id) && post.channels[id].state
                == SelectorState::CloseRequested implies #[trigger] post.queued_from(id, from) by {
            assert(pre.channels.dom().contains(id));
            if pre.channels[id].state == SelectorState::CloseRequested {
                assert(pre.queued_from(id, from));
                let place = choose|place: int|
                    0 <= place && from <= place < pre.pending.len() && #[trigger] pre.pending[place]
                        == id;
                assert(post.pending[place] == id);
            } else {
                assert(post.queued_from(id, pre.pending.len() as int));
                let place = choose|place: int|
                    0 <= place && pre.pending.len() <= place < post.pending.len()
                        && #[trigger] post.pending[place] == id;
                assert(post.pending[place] == id);
            }
        }
    }
}

impl<T, S> SelectorView<T, S> {
    /// The selector after `count` reads in a row on `id` that each found
    /// less than one message.
    pub open spec fn after_short_reads(self, id: usize, count: nat) -> Self
        decreases count,
    {
        if count == 0 {
            self
        } else {
            self.after_short_reads(id, (count - 1) as nat).after_read(
                id,
                Err(ReadError::NotFullRead),
            )
        }
    }

    /// A read that went well clears the count of short reads, whatever it
    /// was, and asks for nothing.
    pub proof fn lemma_success_resets(self, id: usize)
        requires
            self.channels.contains_key(id),
        ensures
            self.after_read(id, Ok(())).channels[id].read_failures == 0,
            self.after_read(id, Ok(())).channels[id].state == self.channels[id].state,
            self.after_read(id, Ok(())).pending == self.pending,
    {
    }

    /// Up to 254 short reads in a row on a connection whose count was
    /// clear are counted and ask for nothing.
    pub proof fn lemma_short_reads_counted(self, id: usize, count: nat)
        requires
            self.channels.contains_key(id),
            self.channels[id].read_failures == 0,
            count <= 254,
        ensures
            self.after_short_reads(id, count).channels.dom() == self.channels.dom(),
            self.after_short_reads(id, count).channels[id].read_failures == count,
            self.after_short_reads(id, count).channels[id].state == self.channels[id].state,
            self.after_short_reads(id, count).pending == self.pending,
        decreases count,
    {
        if count > 0 {
            self.lemma_short_reads_counted(id, (count - 1) as nat);
            let before = self.after_short_reads(id, (count - 1) as nat);
            assert(before.after_read(id, Err(ReadError::NotFullRead)).channels.dom()
                =~= before.channels.dom());
        }
    }

    /// The 255th short read in a row on a connection whose count was clear
    /// clears the count again and asks for a close.
    pub proof fn lemma_backpressure_closes(self, id: usize)
        requires
            self.channels.contains_key(id),
            self.channels[id].read_failures == 0,
        ensures
            self.after_short_reads(id, 255).channels[id].read_failures == 0,
            self.after_short_reads(id, 255).channels[id].state == SelectorState::CloseRequested,
            self.after_short_reads(id, 255).pending == self.pending.push(id),
    {
        self.lemma_short_reads_counted(id, 254);
        assert(self.after_short_reads(id, 255) == self.after_short_reads(id, 254).after_read(
            id,
            Err(ReadError::NotFullRead),
        )) by {
            reveal_with_fuel(SelectorView::after_short_reads, 2);
        }
    }

    /// Once a close of a connection is asked for, no request and no result
    /// that is booked for any connection takes it back.
    pub proof fn lemma_close_is_final(
        self,
        id: usize,
        other: usize,
        result: Result<(), ReadError>,
        failed: bool,
        stream: S,
    )
        requires
            self.channels.contains_key(id),
            self.channels.contains_key(other),
            self.channels[id].state == SelectorState::CloseRequested,
        ensures
            self.close_requested(other).channels[id].state == SelectorState::CloseRequested,
            self.flush_requested(other).channels[id].state == SelectorState::CloseRequested,
            self.after_read(other, result).channels[id].state == SelectorState::CloseRequested,
            self.after_flush(other, failed).channels[id].state == SelectorState::CloseRequested,
            self.with_stream(other, stream).channels[id].state == SelectorState::CloseRequested,
            other != id ==> self.removed(other).channels[id].state == SelectorState::CloseRequested,
    {
    }

    /// Asking twice for a flush of an idle connection queues its id once:
    /// the second request changes nothing. On a connection that is not
    /// idle a request for a flush changes nothing at all.
    pub proof fn lemma_flush_coalesces(self, id: usize)
        requires
            self.channels.contains_key(id),
        ensures
            self.flush_requested(id).flush_requested(id) == self.flush_requested(id),
            self.channels[id].state == SelectorState::Idle ==> self.flush_requested(id).pending
                == self.pending.push(id) && self.flush_requested(id).channels[id].state
                == SelectorState::FlushRequested,
            self.channels[id].state != SelectorState::Idle ==> self.flush_requested(id) == self,
    {
    }

    /// A close that is asked for after a flush wins: the connection is to
    /// be closed, and its id is in the queue, so that the next run through
    /// the queue removes it.
    pub proof fn lemma_close_overrides_flush(self, id: usize)
        requires
            self.channels.contains_key(id),
        ensures
            self.flush_requested(id).close_requested(id).channels[id].state
                == SelectorState::CloseRequested,
            self.flush_requested(id).close_requested(id).pending.contains(id),
            self.flush_requested(id).close_requested(id).channels.dom() == self.channels.dom(),
    {
        let asked = self.flush_requested(id).close_requested(id);
        assert(asked.pending.last() == id);
        assert(asked.channels.dom() =~= self.channels.dom());
    }
}

/// The reactor: the table of live connections, the queue of the ids that
/// wait for a flush or a close, and the application object `T` that is told
/// of what happens.
///
/// `S` is the stream of one connection, `C` marks the ids of this
/// selector, and `N` is the most connections that can be live at once.
pub struct Selector<T, S, C, const N: usize> {
    server: T,
    connections: ConnectionTable<C, SelectableChannel<S>, N>,
    write_or_close_events: Vec<Id<C>>,
}

impl<T, S, C, const N: usize> View for Selector<T, S, C, N> {
    type V = SelectorView<T, S>;

    closed spec fn view(&self) -> SelectorView<T, S> {
        SelectorView {
            server: self.server,
            channels: Map::new(
                |id: usize| self.connections@.contains_key(id),
                |id: usize| self.connections@[id]@,
            ),
            pending: self.write_or_close_events@.map_values(|id: Id<C>| id@),
        }
    }
}

impl<T, S, C, const N: usize> Selector<T, S, C, N> {
    /// The invariant of the selector: its table of connections is valid.
    pub closed spec fn wf(&self) -> bool {
        self.connections.wf()
    }

    /// The index that the next connection will get, if there is room: that
    /// of the connection that was removed last, if its place is still free.
    pub closed spec fn next_index(&self) -> usize {
        self.connections.next_index()
    }

    /// While there is room, the index that the next connection will get
    /// names no live connection and is not the reserved value.
    pub proof fn lemma_next_index_is_free(&self)
        requires
            self.wf(),
            self@.channels.dom().len() < N,
        ensures
            !self@.channels.contains_key(self.next_index()),
            self.next_index() != usize::MAX,
    {
        assert(self@.channels.dom() =~= self.connections@.dom());
        self.connections.lemma_next_index_is_free();
    }

    /// In a valid selector the live connections are finitely many, and at
    /// most `N`.
    pub proof fn lemma_bounds(&self)
        requires
            self.wf(),
        ensures
            self@.channels.dom().finite(),
            self@.channels.dom().len() <= N,
    {
        self.connections.lemma_bounds();
        assert(self@.channels.dom() =~= self.connections@.dom());
    }

    /// A selector without connections around `server`.
    pub fn new(server: T) -> (selector: Self)
        ensures
            selector.wf(),
            selector@ == (SelectorView::<T, S> {
                server,
                channels: Map::empty(),
                pending: Seq::empty(),
            }),
    {
        let selector = Selector {
            server,
            connections: ConnectionTable::new(),
            write_or_close_events: Vec::new(),
        };
        assert(selector@.channels =~= Map::<usize, ChannelView<S>>::empty());
        assert(selector@.pending =~= Seq::<usize>::empty());
        selector
    }

    /// The application object.
    pub fn server(&self) -> (server: &T)
        ensures
            *server == self@.server,
    {
        &self.server
    }

    /// The application object, to be changed in place.
    pub fn server_mut(&mut self) -> (server: &mut T)
        ensures
            *server == old(self)@.server,
            final(self)@ == (SelectorView { server: *final(server), ..old(self)@ }),
            old(self).wf() ==> final(self).wf(),
    {
        &mut self.server
    }

    /// The number of live connections.
    pub fn len(&self) -> (len: usize)
        requires
            self.wf(),
        ensures
            len == self@.channels.dom().len(),
    {
        assert(self@.channels.dom() =~= self.connections@.dom());
        self.connections.len()
    }

    /// Whether `N` connections are live, so that no further one fits.
    pub fn is_full(&self) -> (full: bool)
        requires
            self.wf(),
        ensures
            full == (self@.channels.dom().len() == N),
    {
        assert(self@.channels.dom() =~= self.connections@.dom());
        self.connections.is_full()
    }

    /// The number of ids that wait for a flush or a close.
    pub fn pending_len(&self) -> (len: usize)
        ensures
            len == self@.pending.len(),
    {
        self.write_or_close_events.len()
    }

    /// Whether `id` names a live connection.
    pub fn contains(&self, id: &Id<C>) -> (live: bool)
        ensures
            live == self@.channels.contains_key(id@),
    {
        self.connections.contains(id)
    }

    /// The connection `id`, if it is live.
    pub fn try_get(&self, id: &Id<C>) -> (channel: Option<&SelectableChannel<S>>)
        ensures
            match channel {
                Some(channel) => self@.channels.contains_key(id@) && channel@
                    == self@.channels[id@],
                None => !self@.channels.contains_key(id@),
            },
    {
        self.connections.try_get(id)
    }

    /// The connection `id`, which must be live.
    pub fn get(&self, id: &Id<C>) -> (channel: &SelectableChannel<S>)
        requires
            self@.channels.contains_key(id@),
        ensures
            channel@ == self@.channels[id@],
    {
        self.connections.get(id)
    }

    /// The connection `id`, which must be live, to be changed in place.
    pub fn get_mut(&mut self, id: &Id<C>) -> (channel: &mut SelectableChannel<S>)
        requires
            old(self).wf(),
            old(self)@.channels.contains_key(id@),
        ensures
            channel@ == old(self)@.channels[id@],
            final(self).wf(),
            final(self)@ == (SelectorView {
                channels: old(self)@.channels.insert(id@, final(channel)@),
                ..old(self)@
            }),
    {
        let ghost before = self@;
        let ghost table = self.connections@;
        let channel = self.connections.get_mut(id);
        proof {
            let after = table.insert(id@, *final(channel));
            assert(Map::new(|i: usize| after.contains_key(i), |i: usize| after[i]@)
                =~= before.channels.insert(id@, final(channel)@));
        }
        channel
    }

    /// Asks for the connection `id`, which must be live, to be closed when
    /// the queue is worked off. This overrides a flush that was asked for.
    pub fn request_socket_close(&mut self, id: Id<C>)
        requires
            old(self).wf(),
            old(self)@.channels.contains_key(id@),
        ensures
            final(self).wf(),
            final(self)@ == old(self)@.close_requested(id@),
    {
        let socket = self.get_mut(&id);
        socket.state = SelectorState::CloseRequested;
        self.write_or_close_events.push(id);
        assert(self@.pending =~= old(self)@.pending.push(id@));
    }

    /// Asks for the connection `id`, which must be live, to be flushed when
    /// the queue is worked off. Only an idle connection takes the request.
    pub fn request_socket_flush(&mut self, id: Id<C>)
        requires
            old(self).wf(),
            old(self)@.channels.contains_key(id@),
        ensures
            final(self).wf(),
            final(self)@ == old(self)@.flush_requested(id@),
    {
        let socket = self.get_mut(&id);
        if socket.state == SelectorState::Idle {
            socket.state = SelectorState::FlushRequested;
            self.write_or_close_events.push(id);
            assert(self@.pending =~= old(self)@.pending.push(id@));
        } else {
            assert(self@.channels =~= old(self)@.channels);
        }
    }

    /// Books the result of a read on the connection `id`, which must be
    /// live.
    pub fn note_read_result(&mut self, id: Id<C>, result: Result<(), ReadError>)
        requires
            old(self).wf(),
            old(self)@.channels.contains_key(id@),
        ensures
            final(self).wf(),
            final(self)@ == old(self)@.after_read(id@, result),
    {
        match result {
            Ok(()) => {
                let socket = self.get_mut(&id);
                socket.read_failure_accumulator = 0;
            },
            Err(ReadError::NotFullRead) => {
                let socket = self.get_mut(&id);
                if socket.read_failure_accumulator >= u8::MAX - 1 {
                    socket.read_failure_accumulator = 0;
                    self.request_socket_close(id);
                } else {
                    socket.read_failure_accumulator += 1;
                }
            },
            Err(ReadError::SocketClosed) => self.request_socket_close(id),
            Err(ReadError::FlushRequest) => self.request_socket_flush(id),
        }
    }

    /// Books the result of the flush that was asked for the connection
    /// `id`, which must be live.
    pub fn note_flush_result(&mut self, id: Id<C>, failed: bool)
        requires
            old(self).wf(),
            old(self)@.channels.contains_key(id@),
        ensures
            final(self).wf(),
            final(self)@ == old(self)@.after_flush(id@, failed),
    {
        if self.get(&id).state != SelectorState::FlushRequested {
            return ;
        }
        if failed {
            self.request_socket_close(id);
        } else {
            let socket = self.get_mut(&id);
            socket.state = SelectorState::Idle;
        }
    }

    /// Puts a connection into the table and returns its id, or hands the
    /// connection back when `N` connections are live already.
    ///
    /// The id is one that no live connection has; an id that was handed out
    /// before is used again only after its connection was removed. The
    /// other connections keep their ids and are not touched.
    pub fn add_channel(&mut self, channel: SelectableChannel<S>) -> (result: Result<
        Id<C>,
        SelectableChannel<S>,
    >)
        requires
            old(self).wf(),
        ensures
            final(self).wf(),
            match result {
                Ok(id) => {
                    &&& old(self)@.channels.dom().len() < N
                    &&& id@ == old(self).next_index()
                    &&& id.wf()
                    &&& !old(self)@.channels.contains_key(id@)
                    &&& final(self)@ == (SelectorView {
                        channels: old(self)@.channels.insert(id@, channel@),
                        ..old(self)@
                    })
                },
                Err(back) => {
                    &&& old(self)@.channels.dom().len() == N
                    &&& back == channel
                    &&& final(self)@ == old(self)@
                },
            },
    {
        assert(self@.channels.dom() =~= self.connections@.dom());
        match self.connections.add(channel) {
            Ok(id) => {
                assert(self@.channels =~= old(self)@.channels.insert(id@, channel@));
                Ok(id)
            },
            Err(back) => {
                assert(self@.channels =~= old(self)@.channels);
                Err(back)
            },
        }
    }

    /// Takes the connection `id`, which must be live, out of the table.
    /// From now on `id` names no connection, until an accept hands it out
    /// again.
    pub fn remove(&mut self, id: &Id<C>) -> (channel: SelectableChannel<S>)
        requires
            old(self).wf(),
            old(self)@.channels.contains_key(id@),
        ensures
            final(self).wf(),
            channel@ == old(self)@.channels[id@],
            final(self)@ == old(self)@.removed(id@),
            final(self).next_index() == id@,
    {
        let channel = self.connections.remove(id);
        assert(self@.channels =~= old(self)@.channels.remove(id@));
        channel
    }
}

impl<T, S, C, const N: usize> From<T> for Selector<T, S, C, N> {
    fn from(value: T) -> (selector: Self)
        ensures
            selector.wf(),
            selector@ == (SelectorView::<T, S> {
                server: value,
                channels: Map::empty(),
                pending: Seq::empty(),
            }),
    {
        Selector::new(value)
    }
}

impl<T, S, C, const N: usize> vstd::std_specs::convert::FromSpecImpl<T> for Selector<T, S, C, N> {
    open spec fn obeys_from_spec() -> bool {
        false
    }

    open spec fn from_spec(value: T) -> Self {
        arbitrary()
    }
}

impl<T: Default, S, C, const N: usize> Default for Selector<T, S, C, N> {
    fn default() -> (selector: Self)
        ensures
            selector.wf(),
            selector@.channels == Map::<usize, ChannelView<S>>::empty(),
            selector@.pending == Seq::<usize>::empty(),
    {
        Selector::new(T::default())
    }
}

/// The application behind a selector: it is told when a batch of events
/// begins, when a connection was accepted, when bytes arrived on one, and
/// when one is about to be closed.
///
/// Each of these is handed the selector itself, and may ask for flushes
/// and closes and change the streams of the connections. It must leave the
/// selector valid, must not add or remove connections, and must not take
/// back a close that was asked for (see [`SelectorView::kept`]).
///
/// The `_spec` functions say what else a call may do. An application that
/// promises nothing more keeps the defaults, which admit every outcome.
pub trait SelectorListener<S, C, const N: usize>: Sized {
    /// What a call of `tick` may make of the selector.
    open spec fn tick_spec(
        pre: SelectorView<Self, S>,
        post: SelectorView<Self, S>,
        result: Result<(), ()>,
    ) -> bool {
        true
    }

    /// What a call of `accept` for the connection `id` may make of the
    /// selector.
    open spec fn accept_spec(
        pre: SelectorView<Self, S>,
        id: usize,
        post: SelectorView<Self, S>,
    ) -> bool {
        true
    }

    /// What a call of `read` for the connection `id` may make of the
    /// selector, and what it may answer.
    open spec fn read_spec(
        pre: SelectorView<Self, S>,
        id: usize,
        post: SelectorView<Self, S>,
        result: Result<(), ReadError>,
    ) -> bool {
        true
    }

    /// What a call of `close` for the connection `id` may make of the
    /// selector.
    open spec fn close_spec(
        pre: SelectorView<Self, S>,
        id: usize,
        post: SelectorView<Self, S>,
    ) -> bool {
        true
    }

    fn tick(server: &mut Selector<Self, S, C, N>) -> (result: Result<(), ()>)
        requires
            old(server).wf(),
        ensures
            final(server).wf(),
            SelectorView::kept(old(server)@, final(server)@),
            Self::tick_spec(old(server)@, final(server)@, result),
    ;

    fn accept(server: &mut Selector<Self, S, C, N>, id: Id<C>)
        requires
            old(server).wf(),
            old(server)@.channels.contains_key(id@),
        ensures
            final(server).wf(),
            SelectorView::kept(old(server)@, final(server)@),
            Self::accept_spec(old(server)@, id@, final(server)@),
    ;

    fn read(server: &mut Selector<Self, S, C, N>, id: Id<C>) -> (result: Result<(), ReadError>)
        requires
            old(server).wf(),
            old(server)@.channels.contains_key(id@),
        ensures
            final(server).wf(),
            SelectorView::kept(old(server)@, final(server)@),
            Self::read_spec(old(server)@, id@, final(server)@, result),
    ;

    fn close(server: &mut Selector<Self, S, C, N>, id: Id<C>)
        requires
            old(server).wf(),
            old(server)@.channels.contains_key(id@),
        ensures
            final(server).wf(),
            SelectorView::kept(old(server)@, final(server)@),
            Self::close_spec(old(server)@, id@, final(server)@),
    ;
}

impl<T: SelectorListener<S, C, N>, S: Close + Flush + PollRead, C, const N: usize> Selector<
    T,
    S,
    C,
    N,
> {
    /// What [`Selector::handle_read`] does for the connection `id`.
    ///
    /// The connection reads. If that fails, the failure is booked and the
    /// application is not told. If it goes well, the application's `read`
    /// is called, and what it answers is booked, in the selector as the
    /// application left it.
    pub open spec fn read_spec(pre: SelectorView<T, S>, id: usize, post: SelectorView<T, S>) -> bool {
        exists|polled: S, poll: Result<(), ReadError>|
            {
                &&& #[trigger] S::poll_read_spec(pre.channels[id].stream, polled, poll)
                &&& match poll {
                    Err(error) => post == pre.with_stream(id, polled).after_read(id, Err(error)),
                    Ok(()) => exists|told: SelectorView<T, S>, result: Result<(), ReadError>|
                        {
                            &&& SelectorView::kept(pre.with_stream(id, polled), told)
                            &&& #[trigger] T::read_spec(
                                pre.with_stream(id, polled),
                                id,
                                told,
                                result,
                            )
                            &&& post == told.after_read(id, result)
                        },
                }
            }
    }

    /// Handles the arrival of bytes on the connection `id`, which must be
    /// live: the connection reads, the application is told if that went
    /// well, and the result is booked as [`Selector::note_read_result`]
    /// says.
    pub fn handle_read(&mut self, id: Id<C>, _registry: &mut <S as Close>::Registry)
        requires
            old(self).wf(),
            old(self)@.channels.contains_key(id@),
        ensures
            final(self).wf(),
            Self::read_spec(old(self)@, id@, final(self)@),
            SelectorView::kept(old(self)@, final(self)@),
            old(self)@.closes_queued() ==> final(self)@.closes_queued(),
            *final(_registry) == *old(_registry),
    {
        let ghost before = self@;
        let socket = self.get_mut(&id);
        let ghost stream = socket@.stream;
        let polled = socket.poll_read();
        let ghost read = self@;
        proof {
            assert(S::poll_read_spec(stream, read.channels[id@].stream, polled));
            assert(read.channels =~= before.with_stream(id@, read.channels[id@].stream).channels);
            before.lemma_steps_kept(id@, Ok(()), false, read.channels[id@].stream);
        }
        let result = match polled {
            Ok(()) => T::read(self, id),
            Err(error) => Err(error),
        };
        let ghost told = self@;
        self.note_read_result(id, result);
        proof {
            SelectorView::lemma_kept_transitive(before, read, told);
            told.lemma_steps_kept(id@, result, false, told.channels[id@].stream);
            SelectorView::lemma_kept_transitive(before, told, self@);
            assert(self@ == told.after_read(id@, result));
            assert(read == before.with_stream(id@, read.channels[id@].stream));
            if polled is Ok {
                assert(T::read_spec(read, id@, told, result));
            }
            if before.closes_queued() {
                SelectorView::lemma_kept_keeps_closes_queued(before, self@, 0);
            }
        }
    }

    /// What [`Selector::flush_socket`] does for the id `id`.
    ///
    /// If the id names no connection, or an idle one, nothing happens. A
    /// connection that is to be flushed is flushed, and the result is
    /// booked as [`Selector::note_flush_result`] says. For a connection that
    /// is to be closed the application's `close` is called first; then the
    /// stream is closed, whatever that gives, and the connection is removed.
    pub open spec fn flush_socket_spec(
        pre: SelectorView<T, S>,
        registry_pre: <S as Close>::Registry,
        id: usize,
        post: SelectorView<T, S>,
        registry_post: <S as Close>::Registry,
    ) -> bool {
        if !pre.channels.contains_key(id) {
            post == pre && registry_post == registry_pre
        } else {
            match pre.channels[id].state {
                SelectorState::Idle => post == pre && registry_post == registry_pre,
                SelectorState::FlushRequested => exists|
                    flushed: S,
                    result: Result<(), <S as Flush>::Error>,
                |
                    {
                        &&& #[trigger] S::flush_spec(pre.channels[id].stream, flushed, result)
                        &&& post == pre.with_stream(id, flushed).after_flush(id, result is Err)
                        &&& registry_post == registry_pre
                    },
                SelectorState::CloseRequested => exists|
                    told: SelectorView<T, S>,
                    closed: S,
                    result: Result<(), <S as Close>::Error>,
                |
                    {
                        &&& SelectorView::kept(pre, told)
                        &&& T::close_spec(pre, id, told)
                        &&& #[trigger] S::close_spec(
                            told.channels[id].stream,
                            registry_pre,
                            closed,
                            registry_post,
                            result,
                        )
                        &&& post == told.removed(id)
                    },
            }
        }
    }

    /// Handling an id keeps every close that was asked for in the queue.
    /// Where the id is handled because it stands at the place `from`, the
    /// closes that are still owed stand behind that place afterwards.
    pub proof fn lemma_flush_socket_keeps_closes_queued(
        pre: SelectorView<T, S>,
        registry_pre: <S as Close>::Registry,
        id: usize,
        post: SelectorView<T, S>,
        registry_post: <S as Close>::Registry,
        from: int,
        at_place: bool,
    )
        requires
            Self::flush_socket_spec(pre, registry_pre, id, post, registry_post),
            0 <= from <= pre.pending.len(),
            pre.closes_queued_from(from),
            at_place ==> from < pre.pending.len() && pre.pending[from] == id,
        ensures
            post.closes_queued_from(
                if at_place {
                    from + 1
                } else {
                    from
                },
            ),
    {
        let next = if at_place {
            from + 1
        } else {
            from
        };
        if !pre.channels.contains_key(id) || pre.channels[id].state == SelectorState::Idle {
            assert forall|other: usize|
                post.channels.contains_key(other) && post.channels[other].state
                    == SelectorState::CloseRequested implies #[trigger] post.queued_from(
                other,
                next,
            ) by {
                assert(pre.queued_from(other, from));
                let place = choose|place: int|
                    0 <= place && from <= place < pre.pending.len() && #[trigger] pre.pending[place]
                        == other;
                assert(post.pending[place] == other);
            }
        } else if pre.channels[id].state == SelectorState::FlushRequested {
            let (flushed, result) = choose|flushed: S, result: Result<(), <S as Flush>::Error>|
                {
                    &&& #[trigger] S::flush_spec(pre.channels[id].stream, flushed, result)
                    &&& post == pre.with_stream(id, flushed).after_flush(id, result is Err)
                    &&& registry_post == registry_pre
                };
            assert forall|other: usize|
                post.channels.contains_key(other) && post.channels[other].state
                    == SelectorState::CloseRequested implies #[trigger] post.queued_from(
                other,
                next,
            ) by {
                if other == id {
                    assert(post.pending[pre.pending.len() as int] == id);
                } else {
                    assert(pre.channels.contains_key(other));
                    assert(pre.queued_from(other, from));
                    let place = choose|place: int|
                        0 <= place && from <= place < pre.pending.len()
                            && #[trigger] pre.pending[place] == other;
                    assert(post.pending[place] == other);
                }
            }
        } else {
            let (told, closed, result) = choose|
                told: SelectorView<T, S>,
                closed: S,
                result: Result<(), <S as Close>::Error>,
            |
                {
                    &&& SelectorView::kept(pre, told)
                    &&& T::close_spec(pre, id, told)
                    &&& #[trigger] S::close_spec(
                        told.channels[id].stream,
                        registry_pre,
                        closed,
                        registry_post,
                        result,
                    )
                    &&& post == told.removed(id)
                };
            SelectorView::lemma_kept_keeps_closes_queued(pre, told, from);
            assert(pre.pending =~= told.pending.subrange(0, pre.pending.len() as int));
            assert forall|other: usize|
                post.channels.contains_key(other) && post.channels[other].state
                    == SelectorState::CloseRequested implies #[trigger] post.queued_from(
                other,
                next,
            ) by {
                assert(told.channels.contains_key(other));
                assert(told.queued_from(other, from));
                let place = choose|place: int|
                    0 <= place && from <= place < told.pending.len()
                        && #[trigger] told.pending[place] == other;
                assert(post.pending[place] == other);
            }
        }
    }

    /// Does for `socket_id` what its place in the queue asks for: a
    /// connection that is to be flushed is flushed, and one that is to be
    /// closed is closed and removed, after the application was told. An id
    /// that names no connection, or an idle one, is passed over.
    pub fn flush_socket(&mut self, socket_id: Id<C>, registry: &mut <S as Close>::Registry)
        requires
            old(self).wf(),
        ensures
            final(self).wf(),
            Self::flush_socket_spec(
                old(self)@,
                *old(registry),
                socket_id@,
                final(self)@,
                *final(registry),
            ),
            old(self)@.pending.is_prefix_of(final(self)@.pending),
            old(self)@.closes_queued() ==> final(self)@.closes_queued(),
            final(self)@.channels.dom().subset_of(old(self)@.channels.dom()),
            old(self)@.channels.contains_key(socket_id@) && old(self)@.channels[socket_id@].state
                == SelectorState::CloseRequested ==> !final(self)@.channels.contains_key(
                socket_id@,
            ),
            forall|id: usize|
                final(self)@.channels.contains_key(id) && old(self)@.channels[id].state
                    == SelectorState::CloseRequested ==> (#[trigger] final(self)@.channels[id]).state
                    == SelectorState::CloseRequested,
    {
        let ghost before = self@;
        proof {
            lemma_prefix_of_itself(before.pending);
        }
        if self.contains(&socket_id) {
            match self.get(&socket_id).state() {
                SelectorState::Idle => {},
                SelectorState::CloseRequested => {
                    T::close(self, socket_id);
                    let ghost told = self@;
                    let socket = self.get_mut(&socket_id);
                    let result = socket.stream.close(registry);
                    let ghost closed = self@.channels[socket_id@].stream;
                    self.remove(&socket_id);
                    proof {
                        assert(S::close_spec(
                            told.channels[socket_id@].stream,
                            *old(registry),
                            closed,
                            *registry,
                            result,
                        ));
                        assert(self@.channels =~= told.removed(socket_id@).channels);
                        assert(Self::flush_socket_spec(
                            before,
                            *old(registry),
                            socket_id@,
                            self@,
                            *registry,
                        ));
                    }
                },
                SelectorState::FlushRequested => {
                    let socket = self.get_mut(&socket_id);
                    let ghost stream = socket@.stream;
                    let result = socket.stream.flush();
                    let ghost flushed = self@;
                    proof {
                        assert(S::flush_spec(stream, flushed.channels[socket_id@].stream, result));
                        assert(flushed.channels =~= before.with_stream(
                            socket_id@,
                            flushed.channels[socket_id@].stream,
                        ).channels);
                    }
                    self.note_flush_result(socket_id, result.is_err());
                    proof {
                        assert(self@.channels.dom() =~= before.channels.dom());
                        assert(Self::flush_socket_spec(
                            before,
                            *old(registry),
                            socket_id@,
                            self@,
                            *registry,
                        ));
                    }
                },
            }
        }
        proof {
            if before.closes_queued() {
                Self::lemma_flush_socket_keeps_closes_queued(
                    before,
                    *old(registry),
                    socket_id@,
                    self@,
                    *registry,
                    0,
                    false,
                );
            }
        }
    }

    /// What handling the ids `ids` one after the other, first to last, each
    /// as [`Selector::flush_socket`] says, makes of a selector.
    pub open spec fn flush_all_spec(
        pre: SelectorView<T, S>,
        registry_pre: <S as Close>::Registry,
        ids: Seq<usize>,
        post: SelectorView<T, S>,
        registry_post: <S as Close>::Registry,
    ) -> bool
        decreases ids.len(),
    {
        if ids.len() == 0 {
            post == pre && registry_post == registry_pre
        } else {
            exists|before: SelectorView<T, S>, registry_before: <S as Close>::Registry|
                {
                    &&& Self::flush_all_spec(
                        pre,
                        registry_pre,
                        ids.drop_last(),
                        before,
                        registry_before,
                    )
                    &&& #[trigger] Self::flush_socket_spec(
                        before,
                        registry_before,
                        ids.last(),
                        post,
                        registry_post,
                    )
                }
        }
    }

    /// The application's `close` leaves the connection `other` as it is
    /// whenever it is called for another connection.
    pub open spec fn close_spares(other: usize) -> bool {
        forall|pre: SelectorView<T, S>, id: usize, post: SelectorView<T, S>|
            #[trigger] T::close_spec(pre, id, post) && pre.channels.contains_key(other) && id
                != other ==> post.channels.contains_key(other) && post.channels[other]
                == pre.channels[other]
    }

    /// A connection that is not among the ids that are handled stays live
    /// under its id. If the application's `close` leaves it alone, it is
    /// untouched: its stream, its state and its count of short reads are
    /// what they were. A failure on one connection does not reach another.
    pub proof fn lemma_unqueued_untouched(
        pre: SelectorView<T, S>,
        registry_pre: <S as Close>::Registry,
        ids: Seq<usize>,
        post: SelectorView<T, S>,
        registry_post: <S as Close>::Registry,
        other: usize,
    )
        requires
            Self::flush_all_spec(pre, registry_pre, ids, post, registry_post),
            pre.channels.contains_key(other),
            !ids.contains(other),
        ensures
            post.channels.contains_key(other),
            Self::close_spares(other) ==> post.channels[other] == pre.channels[other],
        decreases ids.len(),
    {
        if ids.len() > 0 {
            let (before, registry_before) = choose|
                before: SelectorView<T, S>,
                registry_before: <S as Close>::Registry,
            |
                {
                    &&& Self::flush_all_spec(
                        pre,
                        registry_pre,
                        ids.drop_last(),
                        before,
                        registry_before,
                    )
                    &&& #[trigger] Self::flush_socket_spec(
                        before,
                        registry_before,
                        ids.last(),
                        post,
                        registry_post,
                    )
                };
            let id = ids.last();
            assert(ids[ids.len() - 1] == id);
            assert(id != other);
            assert forall|k: int| 0 <= k < ids.drop_last().len() implies ids.drop_last()[k]
                != other by {
                assert(ids[k] == ids.drop_last()[k]);
            }
            Self::lemma_unqueued_untouched(
                pre,
                registry_pre,
                ids.drop_last(),
                before,
                registry_before,
                other,
            );
            if before.channels.contains_key(id) && before.channels[id].state
                == SelectorState::CloseRequested {
                let (told, closed, result) = choose|
                    told: SelectorView<T, S>,
                    closed: S,
                    result: Result<(), <S as Close>::Error>,
                |
                    {
                        &&& SelectorView::kept(before, told)
                        &&& T::close_spec(before, id, told)
                        &&& #[trigger] S::close_spec(
                            told.channels[id].stream,
                            registry_before,
                            closed,
                            registry_post,
                            result,
                        )
                        &&& post == told.removed(id)
                    };
                assert(told.channels.dom().contains(other));
            }
        }
    }

    /// A connection that is not to be closed, that stands among the ids
    /// that are handled once at most, and that the application's `close`
    /// leaves alone, stays live under its id: at worst a close is asked for
    /// it, which a later run carries out.
    pub proof fn lemma_not_closing_stays_live(
        pre: SelectorView<T, S>,
        registry_pre: <S as Close>::Registry,
        ids: Seq<usize>,
        post: SelectorView<T, S>,
        registry_post: <S as Close>::Registry,
        other: usize,
    )
        requires
            Self::flush_all_spec(pre, registry_pre, ids, post, registry_post),
            pre.channels.contains_key(other),
            pre.channels[other].state != SelectorState::CloseRequested,
            forall|i: int, j: int| 0 <= i < j < ids.len() ==> !(ids[i] == other && ids[j] == other),
            Self::close_spares(other),
        ensures
            post.channels.contains_key(other),
            post.channels[other].state == SelectorState::CloseRequested ==> ids.contains(other),
        decreases ids.len(),
    {
        if ids.len() > 0 {
            let (before, registry_before) = choose|
                before: SelectorView<T, S>,
                registry_before: <S as Close>::Registry,
            |
                {
                    &&& Self::flush_all_spec(
                        pre,
                        registry_pre,
                        ids.drop_last(),
                        before,
                        registry_before,
                    )
                    &&& #[trigger] Self::flush_socket_spec(
                        before,
                        registry_before,
                        ids.last(),
                        post,
                        registry_post,
                    )
                };
            let id = ids.last();
            let earlier = ids.drop_last();
            assert(ids[ids.len() - 1] == id);
            assert forall|i: int, j: int| 0 <= i < j < earlier.len() implies !(earlier[i] == other
                && earlier[j] == other) by {
                assert(earlier[i] == ids[i] && earlier[j] == ids[j]);
            }
            Self::lemma_not_closing_stays_live(
                pre,
                registry_pre,
                earlier,
                before,
                registry_before,
                other,
            );
            if earlier.contains(other) {
                let place = choose|place: int| 0 <= place < earlier.len() && earlier[place] == other;
                assert(ids[place] == other);
                assert(id != other);
            }
            if before.channels.contains_key(id) && before.channels[id].state
                == SelectorState::CloseRequested {
                let (told, closed, result) = choose|
                    told: SelectorView<T, S>,
                    closed: S,
                    result: Result<(), <S as Close>::Error>,
                |
                    {
                        &&& SelectorView::kept(before, told)
                        &&& T::close_spec(before, id, told)
                        &&& #[trigger] S::close_spec(
                            told.channels[id].stream,
                            registry_before,
                            closed,
                            registry_post,
                            result,
                        )
                        &&& post == told.removed(id)
                    };
                assert(told.channels.dom().contains(other));
            }
        }
    }

    /// Works off the queue: every id that was queued when the call began
    /// is handled once, oldest first, as [`Selector::flush_socket`] says,
    /// and then leaves the queue. What is asked for in the meantime, by a
    /// flush that failed or by the application, stays queued for the next
    /// call.
    ///
    /// Every connection that was queued and to be closed is gone
    /// afterwards; no connection is added; a connection that was not queued
    /// stays live, and is untouched if the application leaves it alone; a
    /// connection that was to be closed and is still there is still to be
    /// closed; and no close that was asked for is forgotten: a connection
    /// that is to be closed is either gone or still stands in the queue.
    pub fn flush_all_sockets(&mut self, registry: &mut <S as Close>::Registry)
        requires
            old(self).wf(),
        ensures
            final(self).wf(),
            exists|worked: SelectorView<T, S>|
                {
                    &&& #[trigger] Self::flush_all_spec(
                        old(self)@,
                        *old(registry),
                        old(self)@.pending,
                        worked,
                        *final(registry),
                    )
                    &&& old(self)@.pending.is_prefix_of(worked.pending)
                    &&& final(self)@ == (SelectorView {
                        pending: worked.pending.skip(old(self)@.pending.len() as int),
                        ..worked
                    })
                },
            old(self)@.closes_queued() ==> final(self)@.closes_queued(),
            final(self)@.channels.dom().subset_of(old(self)@.channels.dom()),
            forall|id: usize|
                old(self)@.channels.contains_key(id) && old(self)@.channels[id].state
                    == SelectorState::CloseRequested && old(self)@.pending.contains(id)
                    ==> !final(self)@.channels.contains_key(id),
            forall|id: usize|
                final(self)@.channels.contains_key(id) && old(self)@.channels[id].state
                    == SelectorState::CloseRequested ==> (#[trigger] final(self)@.channels[id]).state
                    == SelectorState::CloseRequested,
            forall|id: usize|
                old(self)@.channels.contains_key(id) && !old(self)@.pending.contains(id) ==> {
                    &&& #[trigger] final(self)@.channels.contains_key(id)
                    &&& Self::close_spares(id) ==> final(self)@.channels[id] == old(self)@.channels[id]
                },
            old(self)@.pending.len() == 0 ==> final(self)@ == old(self)@ && *final(registry)
                == *old(registry),
    {
        let len = self.write_or_close_events.len();
        let mut index: usize = 0;
        proof {
            lemma_prefix_of_itself(old(self)@.pending);
        }
        while index < len
            invariant
                self.wf(),
                index <= len == old(self)@.pending.len(),
                old(self)@.pending.is_prefix_of(self@.pending),
                self@.channels.dom().subset_of(old(self)@.channels.dom()),
                forall|k: int|
                    0 <= k < index && old(self)@.channels.contains_key(old(self)@.pending[k])
                        && old(self)@.channels[old(self)@.pending[k]].state
                        == SelectorState::CloseRequested ==> !self@.channels.contains_key(
                        #[trigger] old(self)@.pending[k],
                    ),
                forall|id: usize|
                    self@.channels.contains_key(id) && old(self)@.channels[id].state
                        == SelectorState::CloseRequested ==> (#[trigger] self@.channels[id]).state
                        == SelectorState::CloseRequested,
                len == 0 ==> self@ == old(self)@ && *registry == *old(registry),
                old(self)@.closes_queued() ==> self@.closes_queued_from(index as int),
                Self::flush_all_spec(
                    old(self)@,
                    *old(registry),
                    old(self)@.pending.take(index as int),
                    self@,
                    *registry,
                ),
            decreases len - index,
        {
            let ghost before = self@;
            let ghost registry_before = *registry;
            let socket_id = self.write_or_close_events[index];
            assert(socket_id@ == self@.pending[index as int]);
            assert(socket_id@ == old(self)@.pending[index as int]);
            index += 1;
            self.flush_socket(socket_id, registry);
            proof {
                let handled = old(self)@.pending.take(index as int);
                assert(handled.drop_last() =~= old(self)@.pending.take(index - 1));
                assert(handled.last() == socket_id@);
                assert(Self::flush_socket_spec(
                    before,
                    registry_before,
                    handled.last(),
                    self@,
                    *registry,
                ));
                lemma_prefix_chain(old(self)@.pending, before.pending, self@.pending);
                if old(self)@.closes_queued() {
                    Self::lemma_flush_socket_keeps_closes_queued(
                        before,
                        registry_before,
                        socket_id@,
                        self@,
                        *registry,
                        index - 1,
                        true,
                    );
                }
            }
        }
        let ghost worked = self@;
        proof {
            assert(old(self)@.pending.take(len as int) =~= old(self)@.pending);
            assert(old(self)@.pending =~= worked.pending.subrange(0, len as int));
        }
        let later = self.write_or_close_events.split_off(len);
        self.write_or_close_events = later;
        proof {
            assert(self@.pending =~= worked.pending.skip(len as int));
            assert(self@ == (SelectorView { pending: worked.pending.skip(len as int), ..worked }));
            assert forall|id: usize|
                old(self)@.channels.contains_key(id) && !old(self)@.pending.contains(id) implies {
                &&& #[trigger] self@.channels.contains_key(id)
                &&& Self::close_spares(id) ==> self@.channels[id] == old(self)@.channels[id]
            } by {
                Self::lemma_unqueued_untouched(
                    old(self)@,
                    *old(registry),
                    old(self)@.pending,
                    worked,
                    *registry,
                    id,
                );
            }
            if len == 0 {
                assert(worked.pending.skip(0) =~= worked.pending);
            }
            if old(self)@.closes_queued() {
                assert forall|id: usize|
                    self@.channels.contains_key(id) && self@.channels[id].state
                        == SelectorState::CloseRequested implies #[trigger] self@.queued_from(
                    id,
                    0,
                ) by {
                    assert(worked.queued_from(id, len as int));
                    let place = choose|place: int|
                        0 <= place && len <= place < worked.pending.len()
                            && #[trigger] worked.pending[place] == id;
                    assert(self@.pending[place - len] == id);
                }
            }
        }
    }

    /// The selector with a new connection `id` around `stream`, idle and
    /// without short reads, for which a close is asked at once if putting it
    /// on the readiness source failed.
    pub open spec fn registered(pre: SelectorView<T, S>, id: usize, stream: S, failed: bool)
        -> SelectorView<T, S> {
        let added = SelectorView {
            channels: pre.channels.insert(
                id,
                ChannelView { stream, read_failures: 0, state: SelectorState::Idle },
            ),
            ..pre
        };
        if failed {
            added.close_requested(id)
        } else {
            added
        }
    }

    /// What [`Selector::accept`] does when there is room: the connection is
    /// built around the transport and put on the readiness source, and the
    /// application's `accept` is called on the selector that holds it under
    /// `id`.
    pub open spec fn accept_spec<A>(
        pre: SelectorView<T, S>,
        accept: A,
        registry_pre: <S as Open>::Registry,
        id: usize,
        post: SelectorView<T, S>,
        registry_post: <S as Open>::Registry,
    ) -> bool where S: Accept<A> + Open {
        exists|made: S, opened: S, result: Result<(), <S as Open>::Error>|
            {
                &&& S::accept_spec(accept, made)
                &&& #[trigger] S::open_spec(made, registry_pre, opened, registry_post, result)
                &&& SelectorView::kept(Self::registered(pre, id, opened, result is Err), post)
                &&& T::accept_spec(Self::registered(pre, id, opened, result is Err), id, post)
            }
    }

    /// Accepts a connection over the raw transport `accept`.
    ///
    /// When `N` connections are live the transport is dropped unused and
    /// nothing else happens. Otherwise the connection is built around the
    /// transport, gets an id that no live connection has, and is put on the
    /// readiness source; if that fails, a close is asked for. Then the
    /// application is told.
    pub fn accept<A>(&mut self, accept: A, registry: &mut <S as Open>::Registry) -> (result:
        Result<Id<C>, CapacityExceeded>) where S: Accept<A> + Open
        requires
            old(self).wf(),
        ensures
            final(self).wf(),
            match result {
                Ok(id) => {
                    &&& old(self)@.channels.dom().len() < N
                    &&& id@ == old(self).next_index()
                    &&& id.wf()
                    &&& !old(self)@.channels.contains_key(id@)
                    &&& Self::accept_spec(
                        old(self)@,
                        accept,
                        *old(registry),
                        id@,
                        final(self)@,
                        *final(registry),
                    )
                    &&& final(self)@.channels.dom() == old(self)@.channels.dom().insert(id@)
                    &&& old(self)@.closes_queued() ==> final(self)@.closes_queued()
                    &&& old(self)@.pending.is_prefix_of(final(self)@.pending)
                    &&& forall|other: usize|
                        old(self)@.channels.contains_key(other) && old(self)@.channels[other].state
                            == SelectorState::CloseRequested ==> (#[trigger] final(self)@.channels[other]).state == SelectorState::CloseRequested
                },
                Err(_) => {
                    &&& old(self)@.channels.dom().len() == N
                    &&& final(self)@ == old(self)@
                    &&& *final(registry) == *old(registry)
                },
            },
    {
        if self.is_full() {
            return Err(CapacityExceeded);
        }
        let made: SelectableChannel<S> = SelectableChannel::accept(accept);
        let id = match self.add_channel(made) {
            Ok(id) => id,
            Err(_) => vstd::pervasive::unreached(),
        };
        let ghost added = self@;
        let ghost made_stream = made@.stream;
        let opened = self.get_mut(&id).open(registry);
        let ghost opened_stream = self@.channels[id@].stream;
        if opened.is_err() {
            self.request_socket_close(id);
        }
        let ghost registered = self@;
        proof {
            assert(S::open_spec(made_stream, *old(registry), opened_stream, *registry, opened));
            assert(registered.channels =~= Self::registered(
                old(self)@,
                id@,
                opened_stream,
                opened is Err,
            ).channels);
            assert(registered == Self::registered(old(self)@, id@, opened_stream, opened is Err));
        }
        T::accept(self, id);
        proof {
            lemma_prefix_chain(added.pending, registered.pending, self@.pending);
            assert(self@.channels.dom() =~= old(self)@.channels.dom().insert(id@));
            if old(self)@.closes_queued() {
                assert forall|other: usize|
                    registered.channels.contains_key(other) && registered.channels[other].state
                        == SelectorState::CloseRequested implies #[trigger] registered.queued_from(
                    other,
                    0,
                ) by {
                    if other == id@ {
                        assert(registered.pending[old(self)@.pending.len() as int] == id@);
                    } else {
                        assert(old(self)@.queued_from(other, 0));
                        let place = choose|place: int|
                            0 <= place && 0 <= place < old(self)@.pending.len() && #[trigger] old(self)@.pending[place] == other;
                        assert(registered.pending[place] == other);
                    }
                }
                SelectorView::lemma_kept_keeps_closes_queued(registered, self@, 0);
            }
        }
        Ok(id)
    }
}

} // verus!
