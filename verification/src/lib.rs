//! A non-blocking connection multiplexer for many socket-like streams.
//!
//! The [`Selector`] owns a table of at most `N` connections and a queue of
//! the connections that wait for a flush or a close. Streams are built
//! from layers that wrap one another: a buffered channel, the WebSocket
//! layer, a packet pipe. Every layer offers the same small set of
//! capabilities and hands on what it does not handle itself.

pub mod connection_table;
pub mod container;
pub mod selector;
pub mod stream;

pub use connection_table::ConnectionTable;
pub use selector::{
    CapacityExceeded, SelectableChannel, Selector, SelectorListener, SelectorState,
};
pub use stream::byte_buffer::ByteBuffer;
pub use stream::packet::WritePacket;
pub use stream::readable_byte_channel::PollRead;
pub use stream::{Accept, Close, Flush, Id, Open, Read, ReadError, Write};
