use super::byte_buffer::{BufferView, ByteBuffer};
use super::{Accept, Close, Flush, Open, Read, ReadError, Write};
use vstd::prelude::*;

verus! {

/// A layer that owns its inbound buffer and fills it on request.
///
/// `poll_read_spec` says which outcomes a call of `poll_read` may have; a
/// layer that promises nothing keeps the default, which admits every
/// outcome.
pub trait PollRead: Sized {
    open spec fn poll_read_spec(pre: Self, post: Self, result: Result<(), ReadError>) -> bool {
        true
    }

    fn poll_read(&mut self) -> (result: Result<(), ReadError>)
        ensures
            Self::poll_read_spec(*old(self), *final(self), result),
    ;
}

/// What a [`ReadableByteChannel`] holds, as mathematics.
pub struct ReadableView<T> {
    /// The wrapped stream.
    pub stream: T,
    /// The inbound bytes that have arrived.
    pub read_buf: BufferView,
}

/// A stream with a buffer of `LEN` bytes into which the inbound bytes are
/// read, so that the layers above and the application find them there.
pub struct ReadableByteChannel<T, const LEN: usize> {
    stream: T,
    pub read_buf: ByteBuffer<LEN>,
}

impl<T, const LEN: usize> View for ReadableByteChannel<T, LEN> {
    type V = ReadableView<T>;

    closed spec fn view(&self) -> ReadableView<T> {
        ReadableView { stream: self.stream, read_buf: self.read_buf@ }
    }
}

impl<T, const LEN: usize> ReadableByteChannel<T, LEN> {
    /// The wrapped stream.
    pub fn stream(&self) -> (stream: &T)
        ensures
            *stream == self@.stream,
    {
        &self.stream
    }

    /// The wrapped stream, to be changed in place.
    pub fn stream_mut(&mut self) -> (stream: &mut T)
        ensures
            *stream == old(self)@.stream,
            final(self)@ == (ReadableView { stream: *final(stream), ..old(self)@ }),
    {
        &mut self.stream
    }

    /// The inbound buffer, to be consumed in place.
    pub fn read_buf_mut(&mut self) -> (read_buf: &mut ByteBuffer<LEN>)
        ensures
            read_buf@ == old(self)@.read_buf,
            final(self)@ == (ReadableView { read_buf: final(read_buf)@, ..old(self)@ }),
    {
        &mut self.read_buf
    }
}

impl<T, const LEN: usize> From<T> for ReadableByteChannel<T, LEN> {
    fn from(value: T) -> (channel: Self)
        ensures
            channel@ == (ReadableView {
                stream: value,
                read_buf: BufferView { bytes: Seq::empty(), pos: 0 },
            }),
    {
        ReadableByteChannel { stream: value, read_buf: ByteBuffer::new() }
    }
}

impl<T, const LEN: usize> vstd::std_specs::convert::FromSpecImpl<T> for ReadableByteChannel<T, LEN> {
    open spec fn obeys_from_spec() -> bool {
        false
    }

    open spec fn from_spec(value: T) -> Self {
        arbitrary()
    }
}

impl<T: Read, const LEN: usize> PollRead for ReadableByteChannel<T, LEN> {
    /// The wrapped stream reads into the inbound buffer.
    open spec fn poll_read_spec(pre: Self, post: Self, result: Result<(), ReadError>) -> bool {
        T::read_spec(pre@.stream, pre@.read_buf, post@.stream, post@.read_buf, result)
    }

    fn poll_read(&mut self) -> (result: Result<(), ReadError>) {
        self.stream.read(&mut self.read_buf)
    }
}

impl<T: Accept<A>, A, const LEN: usize> Accept<A> for ReadableByteChannel<T, LEN> {
    open spec fn accept_spec(accept: A, made: Self) -> bool {
        &&& T::accept_spec(accept, made@.stream)
        &&& made@.read_buf == (BufferView { bytes: Seq::empty(), pos: 0 })
    }

    open spec fn get_stream_spec(pre: Self, post: Self, stream_pre: A, stream_post: A) -> bool {
        &&& T::get_stream_spec(pre@.stream, post@.stream, stream_pre, stream_post)
        &&& post@.read_buf == pre@.read_buf
    }

    fn accept(accept: A) -> (made: Self) {
        ReadableByteChannel { stream: T::accept(accept), read_buf: ByteBuffer::default() }
    }

    fn get_stream(&mut self) -> (stream: &mut A) {
        self.stream.get_stream()
    }
}

impl<T: Write, const LEN: usize> Write for ReadableByteChannel<T, LEN> {
    open spec fn write_spec(
        pre: Self,
        buffer_pre: BufferView,
        post: Self,
        buffer_post: BufferView,
        result: Result<(), Self::Error>,
    ) -> bool {
        &&& T::write_spec(pre@.stream, buffer_pre, post@.stream, buffer_post, result)
        &&& post@.read_buf == pre@.read_buf
    }

    fn write<const N: usize>(&mut self, write_buf: &mut ByteBuffer<N>) -> (result: Result<
        (),
        Self::Error,
    >) {
        self.stream.write(write_buf)
    }
}

impl<T: Flush, const LEN: usize> Flush for ReadableByteChannel<T, LEN> {
    type Error = T::Error;

    open spec fn flush_spec(pre: Self, post: Self, result: Result<(), Self::Error>) -> bool {
        &&& T::flush_spec(pre@.stream, post@.stream, result)
        &&& post@.read_buf == pre@.read_buf
    }

    fn flush(&mut self) -> (result: Result<(), Self::Error>) {
        self.stream.flush()
    }
}

impl<T: Close, const LEN: usize> Close for ReadableByteChannel<T, LEN> {
    type Error = T::Error;

    type Registry = T::Registry;

    open spec fn is_closed_spec(&self, closed: bool) -> bool {
        self@.stream.is_closed_spec(closed)
    }

    open spec fn close_spec(
        pre: Self,
        registry_pre: Self::Registry,
        post: Self,
        registry_post: Self::Registry,
        result: Result<(), Self::Error>,
    ) -> bool {
        &&& T::close_spec(pre@.stream, registry_pre, post@.stream, registry_post, result)
        &&& post@.read_buf == pre@.read_buf
    }

    fn close(&mut self, registry: &mut Self::Registry) -> (result: Result<(), Self::Error>) {
        self.stream.close(registry)
    }

    fn is_closed(&self) -> (closed: bool) {
        self.stream.is_closed()
    }
}

impl<T: Open, const LEN: usize> Open for ReadableByteChannel<T, LEN> {
    type Error = T::Error;

    type Registry = T::Registry;

    open spec fn open_spec(
        pre: Self,
        registry_pre: Self::Registry,
        post: Self,
        registry_post: Self::Registry,
        result: Result<(), Self::Error>,
    ) -> bool {
        &&& T::open_spec(pre@.stream, registry_pre, post@.stream, registry_post, result)
        &&& post@.read_buf == pre@.read_buf
    }

    fn open(&mut self, registry: &mut Self::Registry) -> (result: Result<(), Self::Error>) {
        self.stream.open(registry)
    }
}

} // verus!
