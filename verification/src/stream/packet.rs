use super::byte_buffer::{BufferView, ByteBuffer};
use super::websocket::WebSocketServer;
use super::writable_byte_channel::WritableByteChannel;
use super::{Accept, Close, Flush, Open, Read, ReadError, Write};
use vstd::prelude::*;

verus! {

/// A layer that stages packets of type `P` for the peer.
pub trait WritePacket<P>: Sized {
    open spec fn send_spec(pre: Self, packet: P, post: Self, result: Result<(), ReadError>) -> bool {
        true
    }

    fn send(&mut self, packet: P) -> (result: Result<(), ReadError>)
        ensures
            Self::send_spec(*old(self), packet, *final(self), result),
    ;
}

/// The codec of the packets that travel towards the server.
///
/// The two `_spec` functions say which outcomes a call may have; a codec
/// that promises nothing keeps the defaults, which admit every outcome.
pub trait ServerBoundPacketStream: Sized {
    type BoundPacket;

    open spec fn decode_server_bound_packet_spec(
        pre: Self,
        buffer_pre: BufferView,
        post: Self,
        buffer_post: BufferView,
        result: Result<Self::BoundPacket, ()>,
    ) -> bool {
        true
    }

    open spec fn encode_server_bound_packet_spec(
        pre: Self,
        packet: Self::BoundPacket,
        buffer_pre: BufferView,
        post: Self,
        buffer_post: BufferView,
        result: Result<(), ()>,
    ) -> bool {
        true
    }

    fn decode_server_bound_packet<const N: usize>(
        &mut self,
        read_buf: &mut ByteBuffer<N>,
    ) -> (result: Result<Self::BoundPacket, ()>)
        ensures
            Self::decode_server_bound_packet_spec(
                *old(self),
                old(read_buf)@,
                *final(self),
                final(read_buf)@,
                result,
            ),
    ;

    fn encode_server_bound_packet<const N: usize>(
        &mut self,
        packet: &Self::BoundPacket,
        write_buf: &mut ByteBuffer<N>,
    ) -> (result: Result<(), ()>)
        ensures
            Self::encode_server_bound_packet_spec(
                *old(self),
                *packet,
                old(write_buf)@,
                *final(self),
                final(write_buf)@,
                result,
            ),
    ;
}

/// The codec of the packets that travel towards the client.
pub trait ClientBoundPacketStream: Sized {
    type BoundPacket;

    open spec fn decode_client_bound_packet_spec(
        pre: Self,
        buffer_pre: BufferView,
        post: Self,
        buffer_post: BufferView,
        result: Result<Self::BoundPacket, ()>,
    ) -> bool {
        true
    }

    open spec fn encode_client_bound_packet_spec(
        pre: Self,
        packet: Self::BoundPacket,
        buffer_pre: BufferView,
        post: Self,
        buffer_post: BufferView,
        result: Result<(), ()>,
    ) -> bool {
        true
    }

    fn decode_client_bound_packet<const N: usize>(
        &mut self,
        read_buf: &mut ByteBuffer<N>,
    ) -> (result: Result<Self::BoundPacket, ()>)
        ensures
            Self::decode_client_bound_packet_spec(
                *old(self),
                old(read_buf)@,
                *final(self),
                final(read_buf)@,
                result,
            ),
    ;

    fn encode_client_bound_packet<const N: usize>(
        &mut self,
        packet: &Self::BoundPacket,
        write_buf: &mut ByteBuffer<N>,
    ) -> (result: Result<(), ()>)
        ensures
            Self::encode_client_bound_packet_spec(
                *old(self),
                *packet,
                old(write_buf)@,
                *final(self),
                final(write_buf)@,
                result,
            ),
    ;
}

/// What the pipe makes of the decoder's answer: a packet is handed on, and
/// a failure means that the bytes of a whole packet are not there yet.
pub open spec fn decoded<P>(answer: Result<P, ()>) -> Result<P, ReadError> {
    match answer {
        Ok(packet) => Ok(packet),
        Err(_) => Err(ReadError::NotFullRead),
    }
}

/// What the pipe makes of the encoder's answer: a failure is fatal to the
/// connection.
pub open spec fn encoded(answer: Result<(), ()>) -> Result<(), ReadError> {
    match answer {
        Ok(()) => Ok(()),
        Err(_) => Err(ReadError::SocketClosed),
    }
}

/// What a packet pipe holds, as mathematics.
pub struct PipeView<T, S> {
    /// The wrapped stream.
    pub stream: T,
    /// The codec.
    pub state: S,
}

/// The server's end of a packet stream: it reads the packets that travel
/// towards the server and writes those that travel towards the client.
pub struct ServerBoundPacketStreamPipe<T, S> {
    pub stream: T,
    state: S,
}

impl<T, S> View for ServerBoundPacketStreamPipe<T, S> {
    type V = PipeView<T, S>;

    closed spec fn view(&self) -> PipeView<T, S> {
        PipeView { stream: self.stream, state: self.state }
    }
}

impl<T, S: Default> From<T> for ServerBoundPacketStreamPipe<T, S> {
    fn from(value: T) -> (pipe: Self)
        ensures
            pipe@.stream == value,
    {
        ServerBoundPacketStreamPipe { stream: value, state: S::default() }
    }
}

impl<T, S: Default> vstd::std_specs::convert::FromSpecImpl<T> for ServerBoundPacketStreamPipe<T, S> {
    open spec fn obeys_from_spec() -> bool {
        false
    }

    open spec fn from_spec(value: T) -> Self {
        arbitrary()
    }
}

impl<T, S> ServerBoundPacketStreamPipe<T, S> {
    /// A pipe over `value` with the codec `state`.
    pub fn new(value: T, state: S) -> (pipe: Self)
        ensures
            pipe@ == (PipeView { stream: value, state }),
    {
        ServerBoundPacketStreamPipe { stream: value, state }
    }

    /// What a call of [`ServerBoundPacketStreamPipe::read`] may do: the
    /// wrapped stream reads; a failed read is handed on as it is, and after
    /// a read that went well the decoder has its turn.
    pub open spec fn read_spec(
        pre: Self,
        buffer_pre: BufferView,
        post: Self,
        buffer_post: BufferView,
        result: Result<S::BoundPacket, ReadError>,
    ) -> bool where T: Read, S: ServerBoundPacketStream {
        exists|read_buffer: BufferView, read: Result<(), ReadError>|
            {
                &&& #[trigger] T::read_spec(
                    pre@.stream,
                    buffer_pre,
                    post@.stream,
                    read_buffer,
                    read,
                )
                &&& match read {
                    Err(error) => {
                        &&& result == Err::<S::BoundPacket, ReadError>(error)
                        &&& post@.state == pre@.state
                        &&& buffer_post == read_buffer
                    },
                    Ok(()) => exists|answer: Result<S::BoundPacket, ()>|
                        {
                            &&& #[trigger] S::decode_server_bound_packet_spec(
                                pre@.state,
                                read_buffer,
                                post@.state,
                                buffer_post,
                                answer,
                            )
                            &&& result == decoded(answer)
                        },
                }
            }
    }

    /// Reads one packet: the wrapped stream fills `read_buf`, and the
    /// decoder takes the packet from it.
    pub fn read<const N: usize>(&mut self, read_buf: &mut ByteBuffer<N>) -> (result: Result<
        S::BoundPacket,
        ReadError,
    >) where T: Read, S: ServerBoundPacketStream
        ensures
            Self::read_spec(*old(self), old(read_buf)@, *final(self), final(read_buf)@, result),
    {
        let ghost pre = *self;
        let ghost buffer_pre = read_buf@;
        let read = self.stream.read(read_buf);
        let ghost read_buffer = read_buf@;
        let ghost read_stream = self@.stream;
        assert(T::read_spec(pre@.stream, buffer_pre, read_stream, read_buffer, read));
        match read {
            Err(error) => Err(error),
            Ok(()) => {
                let answer = self.state.decode_server_bound_packet(read_buf);
                assert(self@.stream == read_stream);
                assert(S::decode_server_bound_packet_spec(
                    pre@.state,
                    read_buffer,
                    self@.state,
                    read_buf@,
                    answer,
                ));
                let result = match answer {
                    Ok(packet) => Ok(packet),
                    Err(_) => Err(ReadError::NotFullRead),
                };
                assert(result == decoded(answer));
                result
            },
        }
    }
}

impl<T, S: ClientBoundPacketStream, const LEN: usize> ServerBoundPacketStreamPipe<
    WritableByteChannel<T, LEN>,
    S,
> {
    /// Stages one packet for the client: the encoder writes it into the
    /// staging buffer of the wrapped channel. Nothing else of the channel
    /// is touched.
    pub fn write(&mut self, packet: S::BoundPacket) -> (result: Result<(), ReadError>)
        ensures
            final(self)@.stream@.stream == old(self)@.stream@.stream,
            exists|answer: Result<(), ()>|
                {
                    &&& #[trigger] S::encode_client_bound_packet_spec(
                        old(self)@.state,
                        packet,
                        old(self)@.stream@.write_buf,
                        final(self)@.state,
                        final(self)@.stream@.write_buf,
                        answer,
                    )
                    &&& result == encoded(answer)
                },
    {
        let ghost pre = *self;
        let answer = self.state.encode_client_bound_packet(&packet, self.stream.write_buf_mut());
        assert(S::encode_client_bound_packet_spec(
            pre@.state,
            packet,
            pre@.stream@.write_buf,
            self@.state,
            self@.stream@.write_buf,
            answer,
        ));
        match answer {
            Ok(()) => Ok(()),
            Err(_) => Err(ReadError::SocketClosed),
        }
    }
}

impl<T, S: ClientBoundPacketStream, const LEN: usize> WritePacket<
    S::BoundPacket,
> for ServerBoundPacketStreamPipe<WritableByteChannel<T, LEN>, S> {
    open spec fn send_spec(
        pre: Self,
        packet: S::BoundPacket,
        post: Self,
        result: Result<(), ReadError>,
    ) -> bool {
        &&& post@.stream@.stream == pre@.stream@.stream
        &&& exists|answer: Result<(), ()>|
            {
                &&& #[trigger] S::encode_client_bound_packet_spec(
                    pre@.state,
                    packet,
                    pre@.stream@.write_buf,
                    post@.state,
                    post@.stream@.write_buf,
                    answer,
                )
                &&& result == encoded(answer)
            }
    }

    fn send(&mut self, packet: S::BoundPacket) -> (result: Result<(), ReadError>) {
        self.write(packet)
    }
}

impl<T, S: ClientBoundPacketStream, const LEN: usize> ServerBoundPacketStreamPipe<
    WebSocketServer<T, WritableByteChannel<T, LEN>>,
    S,
> {
    /// Stages one packet for the client: the encoder writes it into the
    /// staging buffer of the channel below the WebSocket layer, where it
    /// waits for the frame that the next flush puts around it. Nothing else
    /// of the layers below is touched.
    pub fn write(&mut self, packet: S::BoundPacket) -> (result: Result<(), ReadError>)
        ensures
            final(self)@.stream@.established == old(self)@.stream@.established,
            final(self)@.stream@.server@.stream == old(self)@.stream@.server@.stream,
            exists|answer: Result<(), ()>|
                {
                    &&& #[trigger] S::encode_client_bound_packet_spec(
                        old(self)@.state,
                        packet,
                        old(self)@.stream@.server@.write_buf,
                        final(self)@.state,
                        final(self)@.stream@.server@.write_buf,
                        answer,
                    )
                    &&& result == encoded(answer)
                },
    {
        let ghost pre = *self;
        let channel = self.stream.server_mut();
        let answer = self.state.encode_client_bound_packet(&packet, channel.write_buf_mut());
        assert(S::encode_client_bound_packet_spec(
            pre@.state,
            packet,
            pre@.stream@.server@.write_buf,
            self@.state,
            self@.stream@.server@.write_buf,
            answer,
        ));
        match answer {
            Ok(()) => Ok(()),
            Err(_) => Err(ReadError::SocketClosed),
        }
    }
}

impl<T, S: ClientBoundPacketStream, const LEN: usize> WritePacket<
    S::BoundPacket,
> for ServerBoundPacketStreamPipe<WebSocketServer<T, WritableByteChannel<T, LEN>>, S> {
    open spec fn send_spec(
        pre: Self,
        packet: S::BoundPacket,
        post: Self,
        result: Result<(), ReadError>,
    ) -> bool {
        &&& post@.stream@.established == pre@.stream@.established
        &&& post@.stream@.server@.stream == pre@.stream@.server@.stream
        &&& exists|answer: Result<(), ()>|
            {
                &&& #[trigger] S::encode_client_bound_packet_spec(
                    pre@.state,
                    packet,
                    pre@.stream@.server@.write_buf,
                    post@.state,
                    post@.stream@.server@.write_buf,
                    answer,
                )
                &&& result == encoded(answer)
            }
    }

    fn send(&mut self, packet: S::BoundPacket) -> (result: Result<(), ReadError>) {
        self.write(packet)
    }
}

impl<T: Write, S> Write for ServerBoundPacketStreamPipe<T, S> {
    open spec fn write_spec(
        pre: Self,
        buffer_pre: BufferView,
        post: Self,
        buffer_post: BufferView,
        result: Result<(), Self::Error>,
    ) -> bool {
        &&& T::write_spec(pre@.stream, buffer_pre, post@.stream, buffer_post, result)
        &&& post@.state == pre@.state
    }

    fn write<const N: usize>(&mut self, write_buf: &mut ByteBuffer<N>) -> (result: Result<
        (),
        Self::Error,
    >) {
        self.stream.write(write_buf)
    }
}

impl<T: Flush, S> Flush for ServerBoundPacketStreamPipe<T, S> {
    type Error = T::Error;

    open spec fn flush_spec(pre: Self, post: Self, result: Result<(), Self::Error>) -> bool {
        &&& T::flush_spec(pre@.stream, post@.stream, result)
        &&& post@.state == pre@.state
    }

    fn flush(&mut self) -> (result: Result<(), Self::Error>) {
        self.stream.flush()
    }
}

impl<T: Close, S> Close for ServerBoundPacketStreamPipe<T, S> {
    type Error = T::Error;

    type Registry = T::Registry;

    open spec fn is_closed_spec(&self, closed: bool) -> bool {
        self@.stream.is_closed_spec(closed)
    }

    open spec fn close_spec(
        pre: Self,
        registry_pre: Self::Registry,
        post: Self,
        registry_post: Self::Registry,
        result: Result<(), Self::Error>,
    ) -> bool {
        &&& T::close_spec(pre@.stream, registry_pre, post@.stream, registry_post, result)
        &&& post@.state == pre@.state
    }

    fn is_closed(&self) -> (closed: bool) {
        self.stream.is_closed()
    }

    fn close(&mut self, registry: &mut Self::Registry) -> (result: Result<(), Self::Error>) {
        self.stream.close(registry)
    }
}

impl<T: Accept<A>, S: Default, A> Accept<A> for ServerBoundPacketStreamPipe<T, S> {
    open spec fn accept_spec(accept: A, made: Self) -> bool {
        T::accept_spec(accept, made@.stream)
    }

    open spec fn get_stream_spec(pre: Self, post: Self, stream_pre: A, stream_post: A) -> bool {
        &&& T::get_stream_spec(pre@.stream, post@.stream, stream_pre, stream_post)
        &&& post@.state == pre@.state
    }

    fn accept(accept: A) -> (made: Self) {
        ServerBoundPacketStreamPipe { stream: T::accept(accept), state: S::default() }
    }

    fn get_stream(&mut self) -> (stream: &mut A) {
        self.stream.get_stream()
    }
}

impl<T: Open, S> Open for ServerBoundPacketStreamPipe<T, S> {
    type Error = T::Error;

    type Registry = T::Registry;

    open spec fn open_spec(
        pre: Self,
        registry_pre: Self::Registry,
        post: Self,
        registry_post: Self::Registry,
        result: Result<(), Self::Error>,
    ) -> bool {
        &&& T::open_spec(pre@.stream, registry_pre, post@.stream, registry_post, result)
        &&& post@.state == pre@.state
    }

    fn open(&mut self, registry: &mut Self::Registry) -> (result: Result<(), Self::Error>) {
        self.stream.open(registry)
    }
}

/// The client's end of a packet stream: it reads the packets that travel
/// towards the client.
pub struct ClientBoundPacketStreamPipe<T, S> {
    stream: T,
    state: S,
}

impl<T, S> View for ClientBoundPacketStreamPipe<T, S> {
    type V = PipeView<T, S>;

    closed spec fn view(&self) -> PipeView<T, S> {
        PipeView { stream: self.stream, state: self.state }
    }
}

impl<T, S> ClientBoundPacketStreamPipe<T, S> {
    /// A pipe over `value` with the codec `state`.
    pub fn new(value: T, state: S) -> (pipe: Self)
        ensures
            pipe@ == (PipeView { stream: value, state }),
    {
        ClientBoundPacketStreamPipe { stream: value, state }
    }

    /// The wrapped stream.
    pub fn stream(&self) -> (stream: &T)
        ensures
            *stream == self@.stream,
    {
        &self.stream
    }

    /// What a call of [`ClientBoundPacketStreamPipe::read`] may do: the
    /// wrapped stream reads; a failed read is handed on as it is, and after
    /// a read that went well the decoder has its turn.
    pub open spec fn read_spec(
        pre: Self,
        buffer_pre: BufferView,
        post: Self,
        buffer_post: BufferView,
        result: Result<S::BoundPacket, ReadError>,
    ) -> bool where T: Read, S: ClientBoundPacketStream {
        exists|read_buffer: BufferView, read: Result<(), ReadError>|
            {
                &&& #[trigger] T::read_spec(
                    pre@.stream,
                    buffer_pre,
                    post@.stream,
                    read_buffer,
                    read,
                )
                &&& match read {
                    Err(error) => {
                        &&& result == Err::<S::BoundPacket, ReadError>(error)
                        &&& post@.state == pre@.state
                        &&& buffer_post == read_buffer
                    },
                    Ok(()) => exists|answer: Result<S::BoundPacket, ()>|
                        {
                            &&& #[trigger] S::decode_client_bound_packet_spec(
                                pre@.state,
                                read_buffer,
                                post@.state,
                                buffer_post,
                                answer,
                            )
                            &&& result == decoded(answer)
                        },
                }
            }
    }

    /// Reads one packet: the wrapped stream fills `read_buf`, and the
    /// decoder takes the packet from it.
    pub fn read<const N: usize>(&mut self, read_buf: &mut ByteBuffer<N>) -> (result: Result<
        S::BoundPacket,
        ReadError,
    >) where T: Read, S: ClientBoundPacketStream
        ensures
            Self::read_spec(*old(self), old(read_buf)@, *final(self), final(read_buf)@, result),
    {
        let ghost pre = *self;
        let ghost buffer_pre = read_buf@;
        let read = self.stream.read(read_buf);
        let ghost read_buffer = read_buf@;
        let ghost read_stream = self@.stream;
        assert(T::read_spec(pre@.stream, buffer_pre, read_stream, read_buffer, read));
        match read {
            Err(error) => Err(error),
            Ok(()) => {
                let answer = self.state.decode_client_bound_packet(read_buf);
                assert(self@.stream == read_stream);
                assert(S::decode_client_bound_packet_spec(
                    pre@.state,
                    read_buffer,
                    self@.state,
                    read_buf@,
                    answer,
                ));
                let result = match answer {
                    Ok(packet) => Ok(packet),
                    Err(_) => Err(ReadError::NotFullRead),
                };
                assert(result == decoded(answer));
                result
            },
        }
    }
}

impl<T: Write, S> Write for ClientBoundPacketStreamPipe<T, S> {
    open spec fn write_spec(
        pre: Self,
        buffer_pre: BufferView,
        post: Self,
        buffer_post: BufferView,
        result: Result<(), Self::Error>,
    ) -> bool {
        &&& T::write_spec(pre@.stream, buffer_pre, post@.stream, buffer_post, result)
        &&& post@.state == pre@.state
    }

    fn write<const N: usize>(&mut self, write_buf: &mut ByteBuffer<N>) -> (result: Result<
        (),
        Self::Error,
    >) {
        self.stream.write(write_buf)
    }
}

impl<T: Flush, S> Flush for ClientBoundPacketStreamPipe<T, S> {
    type Error = T::Error;

    open spec fn flush_spec(pre: Self, post: Self, result: Result<(), Self::Error>) -> bool {
        &&& T::flush_spec(pre@.stream, post@.stream, result)
        &&& post@.state == pre@.state
    }

    fn flush(&mut self) -> (result: Result<(), Self::Error>) {
        self.stream.flush()
    }
}

impl<T: Close, S> Close for ClientBoundPacketStreamPipe<T, S> {
    type Error = T::Error;

    type Registry = T::Registry;

    open spec fn is_closed_spec(&self, closed: bool) -> bool {
        self@.stream.is_closed_spec(closed)
    }

    open spec fn close_spec(
        pre: Self,
        registry_pre: Self::Registry,
        post: Self,
        registry_post: Self::Registry,
        result: Result<(), Self::Error>,
    ) -> bool {
        &&& T::close_spec(pre@.stream, registry_pre, post@.stream, registry_post, result)
        &&& post@.state == pre@.state
    }

    fn is_closed(&self) -> (closed: bool) {
        self.stream.is_closed()
    }

    fn close(&mut self, registry: &mut Self::Registry) -> (result: Result<(), Self::Error>) {
        self.stream.close(registry)
    }
}

impl<T: Accept<A>, S: Default, A> Accept<A> for ClientBoundPacketStreamPipe<T, S> {
    open spec fn accept_spec(accept: A, made: Self) -> bool {
        T::accept_spec(accept, made@.stream)
    }

    open spec fn get_stream_spec(pre: Self, post: Self, stream_pre: A, stream_post: A) -> bool {
        &&& T::get_stream_spec(pre@.stream, post@.stream, stream_pre, stream_post)
        &&& post@.state == pre@.state
    }

    fn accept(accept: A) -> (made: Self) {
        ClientBoundPacketStreamPipe { stream: T::accept(accept), state: S::default() }
    }

    fn get_stream(&mut self) -> (stream: &mut A) {
        self.stream.get_stream()
    }
}

impl<T: Open, S> Open for ClientBoundPacketStreamPipe<T, S> {
    type Error = T::Error;

    type Registry = T::Registry;

    open spec fn open_spec(
        pre: Self,
        registry_pre: Self::Registry,
        post: Self,
        registry_post: Self::Registry,
        result: Result<(), Self::Error>,
    ) -> bool {
        &&& T::open_spec(pre@.stream, registry_pre, post@.stream, registry_post, result)
        &&& post@.state == pre@.state
    }

    fn open(&mut self, registry: &mut Self::Registry) -> (result: Result<(), Self::Error>) {
        self.stream.open(registry)
    }
}

} // verus!
