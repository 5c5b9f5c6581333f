use vstd::prelude::*;

verus! {

/// What a [`ByteBuffer`] holds, as mathematics.
pub struct BufferView {
    /// The bytes written so far, oldest first.
    pub bytes: Seq<u8>,
    /// How many of them have already been read.
    pub pos: nat,
}

impl BufferView {
    /// The bytes that were written and not read yet.
    pub open spec fn unread(self) -> Seq<u8> {
        if self.pos <= self.bytes.len() {
            self.bytes.skip(self.pos as int)
        } else {
            Seq::empty()
        }
    }
}

/// A byte buffer of fixed capacity `N` with a read position.
///
/// Bytes are appended at the end and consumed from the read position. The
/// buffer never grows beyond `N` bytes: an append that does not fit is
/// refused and leaves the buffer as it was.
pub struct ByteBuffer<const N: usize> {
    data: Vec<u8>,
    pos: usize,
}

impl<const N: usize> View for ByteBuffer<N> {
    type V = BufferView;

    closed spec fn view(&self) -> BufferView {
        BufferView { bytes: self.data@, pos: self.pos as nat }
    }
}

impl<const N: usize> ByteBuffer<N> {
    /// The read position lies within the written bytes, and these fit the
    /// capacity. [`ByteBuffer::new`] establishes this and every method
    /// keeps it.
    pub open spec fn wf(&self) -> bool {
        self@.pos <= self@.bytes.len() <= N
    }

    /// An empty buffer.
    pub fn new() -> (buffer: Self)
        ensures
            buffer.wf(),
            buffer@ == (BufferView { bytes: Seq::empty(), pos: 0 }),
    {
        ByteBuffer { data: Vec::new(), pos: 0 }
    }

    /// The read position.
    pub fn pos(&self) -> (pos: usize)
        ensures
            pos == self@.pos,
    {
        self.pos
    }

    /// The number of bytes written so far.
    pub fn filled_len(&self) -> (len: usize)
        ensures
            len == self@.bytes.len(),
    {
        self.data.len()
    }

    /// The number of bytes written and not read yet.
    pub fn remaining(&self) -> (len: usize)
        ensures
            len == self@.unread().len(),
    {
        if self.pos <= self.data.len() {
            self.data.len() - self.pos
        } else {
            0
        }
    }

    /// The capacity `N`.
    pub fn capacity(&self) -> (capacity: usize)
        ensures
            capacity == N,
    {
        N
    }

    /// All bytes written so far, read or not.
    pub fn filled(&self) -> (bytes: &[u8])
        ensures
            bytes@ == self@.bytes,
    {
        self.data.as_slice()
    }

    /// The written byte at `index`, counted from the start of the buffer.
    pub fn get(&self, index: usize) -> (byte: u8)
        requires
            index < self@.bytes.len(),
        ensures
            byte == self@.bytes[index as int],
    {
        self.data[index]
    }

    /// Overwrites the written byte at `index`.
    pub fn set(&mut self, index: usize, byte: u8)
        requires
            index < old(self)@.bytes.len(),
        ensures
            final(self)@ == (BufferView {
                bytes: old(self)@.bytes.update(index as int, byte),
                ..old(self)@
            }),
            old(self).wf() ==> final(self).wf(),
    {
        self.data[index] = byte;
    }

    /// Appends one byte, or hands it back if the buffer is full.
    pub fn push(&mut self, byte: u8) -> (result: Result<(), u8>)
        ensures
            old(self)@.bytes.len() < N ==> result is Ok && final(self)@ == (BufferView {
                bytes: old(self)@.bytes.push(byte),
                ..old(self)@
            }),
            old(self)@.bytes.len() >= N ==> result == Err::<(), u8>(byte) && final(self)@ == old(self)@,
            old(self).wf() ==> final(self).wf(),
    {
        if self.data.len() < N {
            self.data.push(byte);
            Ok(())
        } else {
            Err(byte)
        }
    }

    /// Appends all of `bytes`, or nothing if they do not all fit.
    pub fn push_slice(&mut self, bytes: &[u8]) -> (result: Result<(), ()>)
        ensures
            old(self)@.bytes.len() + bytes@.len() <= N ==> result is Ok && final(self)@ == (
            BufferView { bytes: old(self)@.bytes + bytes@, ..old(self)@ }),
            old(self)@.bytes.len() + bytes@.len() > N ==> result is Err && final(self)@ == old(self)@,
            old(self).wf() ==> final(self).wf(),
    {
        if self.data.len() > N || bytes.len() > N - self.data.len() {
            return Err(());
        }
        let mut i: usize = 0;
        while i < bytes.len()
            invariant
                i <= bytes@.len(),
                self.pos == old(self).pos,
                self.data@ == old(self).data@ + bytes@.take(i as int),
            decreases bytes@.len() - i,
        {
            self.data.push(bytes[i]);
            i += 1;
            assert(bytes@.take(i as int) == bytes@.take(i - 1).push(bytes@[i - 1]));
        }
        assert(bytes@.take(i as int) == bytes@);
        Ok(())
    }

    /// Moves the unread bytes of `source` to the end of this buffer and
    /// empties `source`, or does nothing if they do not all fit.
    pub fn push_from<const M: usize>(&mut self, source: &mut ByteBuffer<M>) -> (result: Result<
        (),
        (),
    >)
        ensures
            old(self)@.bytes.len() + old(source)@.unread().len() <= N ==> {
                &&& result is Ok
                &&& final(self)@ == (BufferView {
                    bytes: old(self)@.bytes + old(source)@.unread(),
                    ..old(self)@
                })
                &&& final(source)@ == (BufferView { bytes: Seq::empty(), pos: 0 })
            },
            old(self)@.bytes.len() + old(source)@.unread().len() > N ==> {
                &&& result is Err
                &&& final(self)@ == old(self)@
                &&& final(source)@ == old(source)@
            },
            old(self).wf() ==> final(self).wf(),
            old(source).wf() ==> final(source).wf(),
    {
        let count = source.remaining();
        if self.data.len() > N || count > N - self.data.len() {
            return Err(());
        }
        let ghost unread = source@.unread();
        let filled = source.data.len();
        let mut i: usize = 0;
        while i < count
            invariant
                i <= count,
                count == unread.len(),
                filled == source.data@.len(),
                unread == source@.unread(),
                self.pos == old(self).pos,
                *source == *old(source),
                self.data@ == old(self).data@ + unread.take(i as int),
            decreases count - i,
        {
            self.data.push(source.data[source.pos + i]);
            i += 1;
            assert(unread.take(i as int) == unread.take(i - 1).push(unread[i - 1]));
        }
        assert(unread.take(i as int) == unread);
        source.clear();
        Ok(())
    }

    /// Takes the next unread byte, if there is one.
    pub fn read(&mut self) -> (byte: Option<u8>)
        ensures
            old(self)@.pos < old(self)@.bytes.len() ==> byte == Some(
                old(self)@.bytes[old(self)@.pos as int],
            ) && final(self)@ == (BufferView { pos: (old(self)@.pos + 1) as nat, ..old(self)@ }),
            old(self)@.pos >= old(self)@.bytes.len() ==> byte is None && final(self)@ == old(self)@,
            old(self).wf() ==> final(self).wf(),
    {
        if self.pos < self.data.len() {
            let byte = self.data[self.pos];
            self.pos += 1;
            Some(byte)
        } else {
            None
        }
    }

    /// Marks the next `count` unread bytes as read.
    pub fn advance(&mut self, count: usize)
        requires
            count <= old(self)@.unread().len(),
        ensures
            final(self)@ == (BufferView { pos: (old(self)@.pos + count) as nat, ..old(self)@ }),
            old(self).wf() ==> final(self).wf(),
    {
        if count > 0 {
            assert(self.pos + count <= self.data.len());
            self.pos += count;
        }
    }

    /// Forgets all bytes, read or not.
    pub fn clear(&mut self)
        ensures
            final(self).wf(),
            final(self)@ == (BufferView { bytes: Seq::empty(), pos: 0 }),
    {
        self.data.clear();
        self.pos = 0;
    }
}

impl<const N: usize> Default for ByteBuffer<N> {
    fn default() -> (buffer: Self)
        ensures
            buffer.wf(),
            buffer@ == (BufferView { bytes: Seq::empty(), pos: 0 }),
    {
        ByteBuffer::new()
    }
}

} // verus!
