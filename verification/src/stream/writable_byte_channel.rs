use super::byte_buffer::{BufferView, ByteBuffer};
use super::{Accept, Close, Flush, Open, Read, ReadError, Write};
use vstd::prelude::*;

verus! {

/// What a [`WritableByteChannel`] holds, as mathematics.
pub struct WritableView<T> {
    /// The wrapped stream.
    pub stream: T,
    /// The outbound bytes that are staged.
    pub write_buf: BufferView,
}

/// A stream with a buffer of `LEN` bytes in which outbound bytes are
/// staged, so that they leave in one piece when the channel is flushed.
pub struct WritableByteChannel<T, const LEN: usize> {
    stream: T,
    pub write_buf: ByteBuffer<LEN>,
}

impl<T, const LEN: usize> View for WritableByteChannel<T, LEN> {
    type V = WritableView<T>;

    closed spec fn view(&self) -> WritableView<T> {
        WritableView { stream: self.stream, write_buf: self.write_buf@ }
    }
}

impl<T, const LEN: usize> WritableByteChannel<T, LEN> {
    /// The wrapped stream.
    pub fn stream(&self) -> (stream: &T)
        ensures
            *stream == self@.stream,
    {
        &self.stream
    }

    /// The staging buffer, to be filled in place.
    pub fn write_buf_mut(&mut self) -> (write_buf: &mut ByteBuffer<LEN>)
        ensures
            write_buf@ == old(self)@.write_buf,
            final(self)@ == (WritableView { write_buf: final(write_buf)@, ..old(self)@ }),
    {
        &mut self.write_buf
    }
}

impl<T, const LEN: usize> From<T> for WritableByteChannel<T, LEN> {
    fn from(value: T) -> (channel: Self)
        ensures
            channel@ == (WritableView {
                stream: value,
                write_buf: BufferView { bytes: Seq::empty(), pos: 0 },
            }),
    {
        WritableByteChannel { stream: value, write_buf: ByteBuffer::new() }
    }
}

impl<T, const LEN: usize> vstd::std_specs::convert::FromSpecImpl<T> for WritableByteChannel<T, LEN> {
    open spec fn obeys_from_spec() -> bool {
        false
    }

    open spec fn from_spec(value: T) -> Self {
        arbitrary()
    }
}

impl<T: Accept<A>, A, const LEN: usize> Accept<A> for WritableByteChannel<T, LEN> {
    open spec fn accept_spec(accept: A, made: Self) -> bool {
        &&& T::accept_spec(accept, made@.stream)
        &&& made@.write_buf == (BufferView { bytes: Seq::empty(), pos: 0 })
    }

    open spec fn get_stream_spec(pre: Self, post: Self, stream_pre: A, stream_post: A) -> bool {
        &&& T::get_stream_spec(pre@.stream, post@.stream, stream_pre, stream_post)
        &&& post@.write_buf == pre@.write_buf
    }

    fn accept(accept: A) -> (made: Self) {
        WritableByteChannel { stream: T::accept(accept), write_buf: ByteBuffer::default() }
    }

    fn get_stream(&mut self) -> (stream: &mut A) {
        self.stream.get_stream()
    }
}

impl<T: Read, const LEN: usize> Read for WritableByteChannel<T, LEN> {
    open spec fn read_spec(
        pre: Self,
        buffer_pre: BufferView,
        post: Self,
        buffer_post: BufferView,
        result: Result<(), ReadError>,
    ) -> bool {
        &&& T::read_spec(pre@.stream, buffer_pre, post@.stream, buffer_post, result)
        &&& post@.write_buf == pre@.write_buf
    }

    fn read<const N: usize>(&mut self, read_buf: &mut ByteBuffer<N>) -> (result: Result<
        (),
        ReadError,
    >) {
        self.stream.read(read_buf)
    }
}

impl<T: Write, const LEN: usize> Write for WritableByteChannel<T, LEN> {
    open spec fn write_spec(
        pre: Self,
        buffer_pre: BufferView,
        post: Self,
        buffer_post: BufferView,
        result: Result<(), Self::Error>,
    ) -> bool {
        &&& T::write_spec(pre@.stream, buffer_pre, post@.stream, buffer_post, result)
        &&& post@.write_buf == pre@.write_buf
    }

    fn write<const N: usize>(&mut self, write_buf: &mut ByteBuffer<N>) -> (result: Result<
        (),
        Self::Error,
    >) {
        self.stream.write(write_buf)
    }
}

impl<T: Write, const LEN: usize> Flush for WritableByteChannel<T, LEN> {
    type Error = <T as Flush>::Error;

    /// The staged bytes are first written to the wrapped stream; only if
    /// that goes well the wrapped stream is flushed.
    open spec fn flush_spec(pre: Self, post: Self, result: Result<(), Self::Error>) -> bool {
        exists|written_stream: T, written_buf: BufferView, written: Result<(), Self::Error>|
            {
                &&& #[trigger] T::write_spec(
                    pre@.stream,
                    pre@.write_buf,
                    written_stream,
                    written_buf,
                    written,
                )
                &&& post@.write_buf == written_buf
                &&& match written {
                    Ok(()) => T::flush_spec(written_stream, post@.stream, result),
                    Err(_) => post@.stream == written_stream && result == written,
                }
            }
    }

    fn flush(&mut self) -> (result: Result<(), Self::Error>) {
        let ghost pre = *self;
        let written = self.stream.write(&mut self.write_buf);
        let ghost written_stream = self.stream;
        let ghost written_buf = self.write_buf@;
        let result = match written {
            Ok(()) => self.stream.flush(),
            Err(error) => Err(error),
        };
        assert(T::write_spec(
            pre@.stream,
            pre@.write_buf,
            written_stream,
            written_buf,
            written,
        ));
        result
    }
}

impl<T: Close, const LEN: usize> Close for WritableByteChannel<T, LEN> {
    type Error = T::Error;

    type Registry = T::Registry;

    open spec fn is_closed_spec(&self, closed: bool) -> bool {
        self@.stream.is_closed_spec(closed)
    }

    open spec fn close_spec(
        pre: Self,
        registry_pre: Self::Registry,
        post: Self,
        registry_post: Self::Registry,
        result: Result<(), Self::Error>,
    ) -> bool {
        &&& T::close_spec(pre@.stream, registry_pre, post@.stream, registry_post, result)
        &&& post@.write_buf == pre@.write_buf
    }

    fn close(&mut self, registry: &mut Self::Registry) -> (result: Result<(), Self::Error>) {
        self.stream.close(registry)
    }

    fn is_closed(&self) -> (closed: bool) {
        self.stream.is_closed()
    }
}

impl<T: Open, const LEN: usize> Open for WritableByteChannel<T, LEN> {
    type Error = T::Error;

    type Registry = T::Registry;

    open spec fn open_spec(
        pre: Self,
        registry_pre: Self::Registry,
        post: Self,
        registry_post: Self::Registry,
        result: Result<(), Self::Error>,
    ) -> bool {
        &&& T::open_spec(pre@.stream, registry_pre, post@.stream, registry_post, result)
        &&& post@.write_buf == pre@.write_buf
    }

    fn open(&mut self, registry: &mut Self::Registry) -> (result: Result<(), Self::Error>) {
        self.stream.open(registry)
    }
}

} // verus!
