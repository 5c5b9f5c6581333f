use std::marker::PhantomData;
use vstd::prelude::*;

pub mod byte_buffer;
pub mod packet;
pub mod readable_byte_channel;
pub mod websocket;
pub mod writable_byte_channel;

use byte_buffer::{BufferView, ByteBuffer};

verus! {

/// Why a read on a connection did not hand a message to the application.
#[derive(Debug, Clone, Copy, PartialEq, Eq, Structural)]
pub enum ReadError {
    /// Not enough bytes for one whole message yet: try again later.
    NotFullRead,
    /// Outbound bytes are staged and want to be pushed to the peer.
    FlushRequest,
    /// The peer is gone, or the connection cannot be recovered.
    SocketClosed,
}

/// A layer that fills a buffer with bytes from the peer.
///
/// `read_spec` says which outcomes a call of `read` may have. A layer states
/// it in terms of the layer it wraps; a transport that promises nothing
/// keeps the default, which admits every outcome.
pub trait Read: Sized {
    open spec fn read_spec(
        pre: Self,
        buffer_pre: BufferView,
        post: Self,
        buffer_post: BufferView,
        result: Result<(), ReadError>,
    ) -> bool {
        true
    }

    fn read<const N: usize>(&mut self, read_buf: &mut ByteBuffer<N>) -> (result: Result<
        (),
        ReadError,
    >)
        ensures
            Self::read_spec(*old(self), old(read_buf)@, *final(self), final(read_buf)@, result),
    ;
}

/// A layer that pushes what it has staged towards the peer.
pub trait Flush: Sized {
    type Error;

    open spec fn flush_spec(pre: Self, post: Self, result: Result<(), Self::Error>) -> bool {
        true
    }

    fn flush(&mut self) -> (result: Result<(), Self::Error>)
        ensures
            Self::flush_spec(*old(self), *final(self), result),
    ;
}

/// A layer that takes bytes from a buffer on their way to the peer.
pub trait Write: Flush {
    open spec fn write_spec(
        pre: Self,
        buffer_pre: BufferView,
        post: Self,
        buffer_post: BufferView,
        result: Result<(), Self::Error>,
    ) -> bool {
        true
    }

    fn write<const N: usize>(&mut self, write: &mut ByteBuffer<N>) -> (result: Result<
        (),
        Self::Error,
    >)
        ensures
            Self::write_spec(*old(self), old(write)@, *final(self), final(write)@, result),
    ;
}

/// A layer that can be shut down and taken off the readiness source.
pub trait Close: Sized {
    type Error;

    type Registry;

    open spec fn is_closed_spec(&self, closed: bool) -> bool {
        true
    }

    open spec fn close_spec(
        pre: Self,
        registry_pre: Self::Registry,
        post: Self,
        registry_post: Self::Registry,
        result: Result<(), Self::Error>,
    ) -> bool {
        true
    }

    fn is_closed(&self) -> (closed: bool)
        ensures
            self.is_closed_spec(closed),
    ;

    fn close(&mut self, registry: &mut Self::Registry) -> (result: Result<(), Self::Error>)
        ensures
            Self::close_spec(*old(self), *old(registry), *final(self), *final(registry), result),
    ;
}

/// A layer that can be put on the readiness source.
pub trait Open: Sized {
    type Error;

    type Registry;

    open spec fn open_spec(
        pre: Self,
        registry_pre: Self::Registry,
        post: Self,
        registry_post: Self::Registry,
        result: Result<(), Self::Error>,
    ) -> bool {
        true
    }

    fn open(&mut self, registry: &mut Self::Registry) -> (result: Result<(), Self::Error>)
        ensures
            Self::open_spec(*old(self), *old(registry), *final(self), *final(registry), result),
    ;
}

/// A layer that is built around a raw transport of type `T`.
pub trait Accept<T>: Sized {
    open spec fn accept_spec(accept: T, made: Self) -> bool {
        true
    }

    open spec fn get_stream_spec(pre: Self, post: Self, stream_pre: T, stream_post: T) -> bool {
        true
    }

    fn get_stream(&mut self) -> (stream: &mut T)
        ensures
            Self::get_stream_spec(*old(self), *final(self), *stream, *final(stream)),
    ;

    fn accept(accept: T) -> (made: Self)
        ensures
            Self::accept_spec(accept, made),
    ;
}

/// The handle of a connection: an index into the connection table.
///
/// The value `usize::MAX` is never an id: it stands for the listening
/// endpoint. The type parameter only keeps the ids of different tables
/// apart.
#[derive(Debug)]
pub struct Id<T> {
    inner: usize,
    _marker: PhantomData<T>,
}

impl<T> View for Id<T> {
    type V = usize;

    closed spec fn view(&self) -> usize {
        self.inner
    }
}

impl<T> Id<T> {
    /// The id is not the reserved value.
    pub open spec fn wf(&self) -> bool {
        self@ != usize::MAX
    }

    /// The id with the given index, which must not be the reserved value.
    pub fn from(value: usize) -> (id: Self)
        requires
            value != usize::MAX,
        ensures
            id@ == value,
            id.wf(),
    {
        Id { inner: value, _marker: PhantomData }
    }

    /// The id with the given index, or `None` for the reserved value.
    pub fn new(value: usize) -> (id: Option<Self>)
        ensures
            value == usize::MAX ==> id is None,
            value != usize::MAX ==> id is Some && id->0@ == value && id->0.wf(),
    {
        if value == usize::MAX {
            None
        } else {
            Some(Id { inner: value, _marker: PhantomData })
        }
    }

    /// The index of the id.
    pub fn get(&self) -> (value: usize)
        ensures
            value == self@,
    {
        self.inner
    }
}

impl<T> Clone for Id<T> {
    fn clone(&self) -> (id: Self)
        ensures
            id == *self,
    {
        Id { inner: self.inner, _marker: PhantomData }
    }
}

impl<T> Copy for Id<T> {

}

impl<T> PartialEq for Id<T> {
    fn eq(&self, other: &Self) -> (equal: bool) {
        self.inner == other.inner
    }
}

impl<T> vstd::std_specs::cmp::PartialEqSpecImpl for Id<T> {
    open spec fn obeys_eq_spec() -> bool {
        true
    }

    open spec fn eq_spec(&self, other: &Self) -> bool {
        self@ == other@
    }
}

impl<T> Eq for Id<T> {

}

impl<T> From<Id<T>> for usize {
    fn from(id: Id<T>) -> (value: usize) {
        id.inner
    }
}

impl<T> vstd::std_specs::convert::FromSpecImpl<Id<T>> for usize {
    open spec fn obeys_from_spec() -> bool {
        true
    }

    open spec fn from_spec(id: Id<T>) -> usize {
        id@
    }
}

} // verus!
