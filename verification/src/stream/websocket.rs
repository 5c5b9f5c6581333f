use super::byte_buffer::{BufferView, ByteBuffer};
use super::writable_byte_channel::{WritableByteChannel, WritableView};
use super::{Accept, Close, Flush, Open, Read, ReadError, Write};
use std::marker::PhantomData;
use vstd::prelude::*;
use vstd::string::*;

verus! {

/// Why the WebSocket layer did not deliver a payload.
#[derive(Debug, Clone, Copy, PartialEq, Eq, Structural)]
pub enum SocketReadError {
    /// Not enough bytes yet, or the handshake used up this round.
    NotFullRead,
    /// The peer broke the protocol: the connection has to go.
    SocketClosed,
}

/// The only opcode the frame layer accepts: a binary frame.
pub const OPCODE_BINARY: u8 = 2;

/// The number of bytes in a masking key.
pub const MASK_KEY_LEN: usize = 4;

/// The smallest payload length that is written as two bytes.
pub const TWO_BYTE_LENGTH: usize = 126;

/// The smallest payload length that is written as eight bytes.
pub const EIGHT_BYTE_LENGTH: usize = 65536;

/// The opcode of a frame, taken from its first header byte.
pub open spec fn frame_opcode(first: u8) -> u8 {
    first & 0x0f
}

/// Whether the second header byte announces a masking key.
pub open spec fn frame_is_masked(second: u8) -> bool {
    second & 0x80 != 0
}

/// The payload length that the second header byte announces.
pub open spec fn frame_payload_len(second: u8) -> int {
    (second & 0x7f) as int
}

/// `payload` with every byte XORed with the key byte of its position,
/// the four key bytes being used in turn.
pub open spec fn unmask(payload: Seq<u8>, key: Seq<u8>) -> Seq<u8> {
    Seq::new(payload.len(), |i: int| payload[i] ^ key[i % 4])
}

/// The frame at the front of `input`: the length of its header (with the
/// masking key, if there is one) and its payload with the mask taken off.
///
/// A frame of which bytes are still missing is `NotFullRead`; an opcode
/// other than binary is `SocketClosed`, whatever follows it.
pub open spec fn decode_frame(input: Seq<u8>) -> Result<(int, Seq<u8>), SocketReadError> {
    if input.len() < 2 {
        Err(SocketReadError::NotFullRead)
    } else if frame_opcode(input[0]) != OPCODE_BINARY {
        Err(SocketReadError::SocketClosed)
    } else {
        let len = frame_payload_len(input[1]);
        if frame_is_masked(input[1]) {
            if input.len() < 2 + MASK_KEY_LEN + len {
                Err(SocketReadError::NotFullRead)
            } else {
                Ok((6, unmask(input.subrange(6, 6 + len), input.subrange(2, 6))))
            }
        } else {
            if input.len() < 2 + len {
                Err(SocketReadError::NotFullRead)
            } else {
                Ok((2, input.subrange(2, 2 + len)))
            }
        }
    }
}

/// The buffer after a frame was taken from its unread bytes: the header is
/// read, and the payload stands unmasked where the masked one stood.
pub open spec fn after_frame(before: BufferView, header_len: int, payload: Seq<u8>) -> BufferView {
    let start = before.pos + header_len;
    BufferView {
        bytes: before.bytes.take(start) + payload + before.bytes.skip(start + payload.len()),
        pos: start as nat,
    }
}

/// What taking a frame from the unread bytes of a buffer gives: the buffer
/// afterwards and what the caller is told. A frame that cannot be taken
/// leaves the buffer as it was.
pub open spec fn take_frame(buffer: BufferView) -> (BufferView, Result<(), SocketReadError>) {
    match decode_frame(buffer.unread()) {
        Ok((header_len, payload)) => (after_frame(buffer, header_len, payload), Ok(())),
        Err(error) => (buffer, Err(error)),
    }
}

/// The lowest `width` bytes of `value`, least significant byte first.
pub open spec fn le_bytes(value: nat, width: nat) -> Seq<u8>
    decreases width,
{
    if width == 0 {
        Seq::empty()
    } else {
        seq![(value % 256) as u8] + le_bytes(value / 256, (width - 1) as nat)
    }
}

/// The header that goes before a payload of `len` bytes: the binary opcode,
/// then the length in one byte below 126, in two bytes below 65536, and in
/// eight bytes from there on, least significant byte first.
pub open spec fn frame_header(len: nat) -> Seq<u8> {
    if len < TWO_BYTE_LENGTH {
        seq![OPCODE_BINARY, len as u8]
    } else if len < EIGHT_BYTE_LENGTH {
        seq![OPCODE_BINARY] + le_bytes(len, 2)
    } else {
        seq![OPCODE_BINARY] + le_bytes(len, 8)
    }
}

/// A payload behind its header.
pub open spec fn encode_frame(payload: Seq<u8>) -> Seq<u8> {
    frame_header(payload.len()) + payload
}

/// What a client makes of an unmasked frame with a one-byte length before
/// it sends it: the mask flag is set, the key follows the header, and the
/// payload is XORed with the key.
pub open spec fn mask_frame(frame: Seq<u8>, key: Seq<u8>) -> Seq<u8> {
    seq![frame[0], frame[1] | 0x80] + key + unmask(frame.skip(2), key)
}

/// Masking twice with the same key gives the payload back.
pub proof fn lemma_unmask_twice(payload: Seq<u8>, key: Seq<u8>)
    requires
        key.len() == 4,
    ensures
        unmask(unmask(payload, key), key) == payload,
{
    assert forall|i: int| 0 <= i < payload.len() implies unmask(unmask(payload, key), key)[i]
        == payload[i] by {
        let byte = payload[i];
        let mask = key[i % 4];
        assert((byte ^ mask) ^ mask == byte) by (bit_vector);
    }
    assert(unmask(unmask(payload, key), key) =~= payload);
}

/// The payloads that survive the way through encoder, client-side mask and
/// decoder: those of fewer than 126 bytes, whose length the decoder reads
/// as the encoder wrote it, and those of 126 or 127 zero bytes, for which
/// the second length byte stands where the first payload byte is looked
/// for.
pub open spec fn round_trips(payload: Seq<u8>) -> bool {
    ||| payload.len() < TWO_BYTE_LENGTH
    ||| payload.len() < 128 && forall|i: int| 0 <= i < payload.len() ==> payload[i] == 0
}

/// A payload that is put into a frame, masked by the client with any key
/// of four bytes, and decoded, comes out as it went in, behind a header of
/// six bytes, if it is one of those that [`round_trips`] names.
pub proof fn lemma_mask_round_trip(payload: Seq<u8>, key: Seq<u8>)
    requires
        round_trips(payload),
        key.len() == MASK_KEY_LEN,
    ensures
        decode_frame(mask_frame(encode_frame(payload), key)) == Ok::<
            (int, Seq<u8>),
            SocketReadError,
        >((6, payload)),
{
    let frame = encode_frame(payload);
    let masked = mask_frame(frame, key);
    let len = payload.len() as u8;
    reveal_with_fuel(le_bytes, 3);
    assert(frame[0] == OPCODE_BINARY && frame[1] == len);
    assert(masked[0] == OPCODE_BINARY);
    assert(masked[1] == len | 0x80);
    assert(OPCODE_BINARY & 0x0f == OPCODE_BINARY) by (bit_vector);
    assert((len | 0x80) & 0x80 != 0) by (bit_vector);
    assert((len | 0x80) & 0x7f == len) by (bit_vector)
        requires
            len < 128,
    ;
    assert(masked.subrange(2, 6) =~= key);
    let body = frame.skip(2).take(payload.len() as int);
    assert(body =~= payload) by {
        if payload.len() >= TWO_BYTE_LENGTH {
            assert(frame[2] == 0);
            assert forall|i: int| 0 <= i < payload.len() implies body[i] == payload[i] by {
                if i > 0 {
                    assert(body[i] == payload[i - 1]);
                }
            }
        }
    }
    assert(masked.subrange(6, 6 + payload.len() as int) =~= unmask(body, key));
    lemma_unmask_twice(body, key);
}

/// No other payload survives that way.
pub proof fn lemma_mask_round_trip_fails(payload: Seq<u8>, key: Seq<u8>)
    requires
        !round_trips(payload),
        key.len() == MASK_KEY_LEN,
    ensures
        decode_frame(mask_frame(encode_frame(payload), key)) != Ok::<
            (int, Seq<u8>),
            SocketReadError,
        >((6, payload)),
{
    let frame = encode_frame(payload);
    let masked = mask_frame(frame, key);
    let second = frame[1];
    reveal_with_fuel(le_bytes, 3);
    assert(masked[1] == second | 0x80);
    assert((second | 0x80) & 0x7f < 128) by (bit_vector);
    if payload.len() < 128 {
        let len = payload.len() as u8;
        assert(second == len);
        assert(frame[2] == 0);
        assert((len | 0x80) & 0x7f == len) by (bit_vector)
            requires
                len < 128,
        ;
        assert((len | 0x80) & 0x80 != 0) by (bit_vector);
        assert(OPCODE_BINARY & 0x0f == OPCODE_BINARY) by (bit_vector);
        let body = frame.skip(2).take(payload.len() as int);
        assert(masked.subrange(6, 6 + payload.len() as int) =~= unmask(body, key));
        lemma_unmask_twice(body, key);
        let first = choose|i: int| 0 <= i < payload.len() && payload[i] != 0;
        lemma_first_nonzero(payload, first);
        let least = choose|i: int|
            0 <= i < payload.len() && payload[i] != 0 && forall|j: int|
                0 <= j < i ==> payload[j] == 0;
        if least > 0 {
            assert(body[least] == payload[least - 1]);
        } else {
            assert(body[0] == frame[2]);
        }
        assert(body[least] != payload[least]);
    } else {
        let decoded = decode_frame(masked);
        assert(frame_payload_len(masked[1]) < 128);
        assert(decoded matches Ok((_, taken)) ==> taken.len() < 128);
    }
}

/// Where a sequence has a byte that is not zero, it has a first one.
proof fn lemma_first_nonzero(bytes: Seq<u8>, at: int)
    requires
        0 <= at < bytes.len(),
        bytes[at] != 0,
    ensures
        exists|i: int|
            0 <= i < bytes.len() && bytes[i] != 0 && forall|j: int| 0 <= j < i ==> bytes[j] == 0,
    decreases at,
{
    if exists|j: int| 0 <= j < at && bytes[j] != 0 {
        let earlier = choose|j: int| 0 <= j < at && bytes[j] != 0;
        lemma_first_nonzero(bytes, earlier);
    } else {
        assert(bytes[at] != 0 && forall|j: int| 0 <= j < at ==> bytes[j] == 0);
    }
}

/// Takes one frame from the unread bytes of `read_buffer`.
///
/// On success the header is marked as read and the payload is unmasked in
/// place, so that the next layer finds it at the read position. On failure
/// the buffer is left as it was.
pub fn unwrap_frame<const N: usize>(read_buffer: &mut ByteBuffer<N>) -> (result: Result<
    (),
    SocketReadError,
>)
    ensures
        take_frame(old(read_buffer)@) == (final(read_buffer)@, result),
{
    let ghost before = read_buffer@;
    let ghost input = before.unread();
    let pos = read_buffer.pos();
    let filled = read_buffer.filled_len();
    let available = read_buffer.remaining();
    if available < 2 {
        return Err(SocketReadError::NotFullRead);
    }
    let first = read_buffer.get(pos);
    let second = read_buffer.get(pos + 1);
    assert(first == input[0] && second == input[1]);
    if first & 0x0f != OPCODE_BINARY {
        return Err(SocketReadError::SocketClosed);
    }
    assert(second & 0x7f <= 127) by (bit_vector);
    let payload_length = (second & 0x7f) as usize;
    if second & 0x80 == 0 {
        if available - 2 < payload_length {
            return Err(SocketReadError::NotFullRead);
        }
        read_buffer.advance(2);
        proof {
            let payload = input.subrange(2, 2 + payload_length);
            assert(read_buffer@.bytes =~= after_frame(before, 2, payload).bytes);
        }
        return Ok(());
    }
    if available - 2 < MASK_KEY_LEN || available - 2 - MASK_KEY_LEN < payload_length {
        return Err(SocketReadError::NotFullRead);
    }
    let key: [u8; 4] = [
        read_buffer.get(pos + 2),
        read_buffer.get(pos + 3),
        read_buffer.get(pos + 4),
        read_buffer.get(pos + 5),
    ];
    assert(key@ =~= input.subrange(2, 6));
    read_buffer.advance(2 + MASK_KEY_LEN);
    let start = pos + 2 + MASK_KEY_LEN;
    assert(input.subrange(6, 6 + payload_length) =~= before.bytes.subrange(
        start as int,
        start + payload_length,
    ));
    unmask_in_place(read_buffer, start, payload_length, &key);
    Ok(())
}

/// XORs the `len` written bytes of `buffer` from `start` on with the key
/// bytes, which are used in turn.
fn unmask_in_place<const N: usize>(
    buffer: &mut ByteBuffer<N>,
    start: usize,
    len: usize,
    key: &[u8; 4],
)
    requires
        start + len <= old(buffer)@.bytes.len(),
    ensures
        final(buffer)@ == (BufferView {
            bytes: old(buffer)@.bytes.take(start as int) + unmask(
                old(buffer)@.bytes.subrange(start as int, start + len),
                key@,
            ) + old(buffer)@.bytes.skip(start + len),
            ..old(buffer)@
        }),
{
    let ghost before = buffer@;
    let ghost masked = before.bytes.subrange(start as int, start + len);
    let filled = buffer.filled_len();
    let mut done: usize = 0;
    let mut mask_i: usize = 0;
    while done < len
        invariant
            start + len <= before.bytes.len() == filled,
            masked == before.bytes.subrange(start as int, start + len),
            done <= len,
            mask_i < 4,
            mask_i == done % 4,
            buffer@.pos == before.pos,
            buffer@.bytes.len() == before.bytes.len(),
            forall|i: int| 0 <= i < start ==> buffer@.bytes[i] == before.bytes[i],
            forall|i: int|
                start <= i < start + done ==> buffer@.bytes[i] == unmask(masked, key@)[i - start],
            forall|i: int| start + done <= i < before.bytes.len() ==> buffer@.bytes[i] == before.bytes[i],
        decreases len - done,
    {
        let index = start + done;
        let byte = buffer.get(index);
        assert(byte == masked[done as int]);
        buffer.set(index, byte ^ key[mask_i]);
        done += 1;
        mask_i = if mask_i == 3 {
            0
        } else {
            mask_i + 1
        };
    }
    assert(buffer@.bytes =~= before.bytes.take(start as int) + unmask(masked, key@)
        + before.bytes.skip(start + len));
}

/// Appends the lowest `width` bytes of `value` to `buffer`, least
/// significant byte first, or nothing if they do not all fit.
fn push_le_bytes<const N: usize>(buffer: &mut ByteBuffer<N>, value: usize, width: usize) -> (result:
    Result<(), ()>)
    ensures
        old(buffer)@.bytes.len() + width <= N ==> result is Ok && final(buffer)@ == (BufferView {
            bytes: old(buffer)@.bytes + le_bytes(value as nat, width as nat),
            ..old(buffer)@
        }),
        old(buffer)@.bytes.len() + width > N ==> result is Err && final(buffer)@ == old(buffer)@,
{
    let mut bytes: Vec<u8> = Vec::new();
    let mut rest = value;
    let mut i: usize = 0;
    while i < width
        invariant
            i <= width,
            bytes@.len() == i,
            le_bytes(value as nat, width as nat) == bytes@ + le_bytes(
                rest as nat,
                (width - i) as nat,
            ),
        decreases width - i,
    {
        bytes.push((rest % 256) as u8);
        rest = rest / 256;
        i += 1;
    }
    buffer.push_slice(bytes.as_slice())
}

/// Puts a frame header before the unread bytes of `write_buffer`.
///
/// On success the buffer holds the header and then the payload, with
/// nothing read. When the frame does not fit into the buffer this fails and
/// leaves the buffer as it was.
pub fn wrap_frame<const N: usize>(write_buffer: &mut ByteBuffer<N>) -> (result: Result<(), ()>)
    ensures
        encode_frame(old(write_buffer)@.unread()).len() <= N ==> result is Ok && final(write_buffer)@ == (BufferView {
            bytes: encode_frame(old(write_buffer)@.unread()),
            pos: 0,
        }),
        encode_frame(old(write_buffer)@.unread()).len() > N ==> result is Err && final(write_buffer)@ == old(write_buffer)@,
{
    let ghost payload = write_buffer@.unread();
    let payload_len = write_buffer.remaining();
    let mut buffer: ByteBuffer<N> = ByteBuffer::new();
    if buffer.push(OPCODE_BINARY).is_err() {
        return Err(());
    }
    if payload_len < TWO_BYTE_LENGTH {
        if buffer.push(payload_len as u8).is_err() {
            return Err(());
        }
    } else if payload_len < EIGHT_BYTE_LENGTH {
        if push_le_bytes(&mut buffer, payload_len, 2).is_err() {
            return Err(());
        }
    } else {
        if push_le_bytes(&mut buffer, payload_len, 8).is_err() {
            return Err(());
        }
    }
    assert(buffer@.bytes =~= frame_header(payload.len()));
    if buffer.push_from(write_buffer).is_err() {
        return Err(());
    }
    *write_buffer = buffer;
    Ok(())
}

/// One header line of an upgrade request: its name and its value.
pub struct Header {
    pub name: Vec<u8>,
    pub value: Vec<u8>,
}

impl Header {
    /// The name and the value as byte sequences.
    pub open spec fn pair(self) -> (Seq<u8>, Seq<u8>) {
        (self.name@, self.value@)
    }
}

/// The names and values of a list of header lines, in order.
pub open spec fn header_pairs(headers: Seq<Header>) -> Seq<(Seq<u8>, Seq<u8>)> {
    headers.map_values(|header: Header| header.pair())
}

/// The most header lines an upgrade request may have.
pub const MAX_HEADERS: usize = 16;

/// The name of the header that carries the client's key.
pub open spec fn key_header_name() -> Seq<u8> {
    "Sec-WebSocket-Key".spec_bytes()
}

/// The GUID that the protocol appends to the client's key.
pub open spec fn websocket_guid() -> Seq<u8> {
    "258EAFA5-E914-47DA-95CA-C5AB0DC85B11".spec_bytes()
}

/// The response up to the accept token.
pub open spec fn response_prefix() -> Seq<u8> {
    "HTTP/1.1 101 Switching Protocols\nUpgrade: websocket\nConnection: Upgrade\nSec-WebSocket-Accept: ".spec_bytes()
}

/// The response after the accept token.
pub open spec fn response_suffix() -> Seq<u8> {
    "\r\n   \r\n \r\n\r\n".spec_bytes()
}

/// What `httparse::Request::parse` leaves in the header slots for
/// `request` when it is given `max_headers` of them, as names and values
/// in the order of the slots, or `None` where it rejects the request.
pub uninterp spec fn parsed_request_headers(request: Seq<u8>, max_headers: usize) -> Option<
    Seq<(Seq<u8>, Seq<u8>)>,
>;

/// What `sha1::Sha1::digest` returns for `data`: the SHA-1 digest.
pub uninterp spec fn sha1_digest(data: Seq<u8>) -> Seq<u8>;

/// What `data_encoding::BASE64.encode` returns for `data`, as bytes: the
/// base64 text in the standard alphabet, with padding.
pub uninterp spec fn base64_encoding(data: Seq<u8>) -> Seq<u8>;

/// The value of the first header line named `Sec-WebSocket-Key`.
pub open spec fn websocket_key(headers: Seq<(Seq<u8>, Seq<u8>)>) -> Option<Seq<u8>>
    decreases headers.len(),
{
    if headers.len() == 0 {
        None
    } else if headers[0].0 == key_header_name() {
        Some(headers[0].1)
    } else {
        websocket_key(headers.drop_first())
    }
}

/// The accept token for a client key: the base64 text of the SHA-1 digest
/// of the key followed by the protocol's GUID.
pub open spec fn accept_token(key: Seq<u8>) -> Seq<u8> {
    base64_encoding(sha1_digest(key + websocket_guid()))
}

/// The upgrade response that carries `token`.
pub open spec fn handshake_response(token: Seq<u8>) -> Seq<u8> {
    response_prefix() + token + response_suffix()
}

/// The response owed to an upgrade request, or `None` where the request is
/// rejected or names no key.
pub open spec fn upgrade_response(request: Seq<u8>) -> Option<Seq<u8>> {
    match parsed_request_headers(request, MAX_HEADERS) {
        None => None,
        Some(headers) => match websocket_key(headers) {
            None => None,
            Some(key) => Some(handshake_response(accept_token(key))),
        },
    }
}

#[verifier::external_type_specification]
#[verifier::external_body]
pub struct ExHttparseError(httparse::Error);

/// Runs `httparse::Request::parse` on `request` with room for `max_headers`
/// header lines. The contract names what the parser leaves in the header
/// slots when it accepts the request, complete or not, and says that the
/// parser's error comes back where it rejects the request. Nothing is
/// claimed about which requests it accepts. The precondition keeps the
/// number of slots small, so that making them cannot fail.
#[verifier::external_body]
fn parse_request(request: &[u8], max_headers: usize) -> (result: Result<
    Vec<Header>,
    httparse::Error,
>)
    requires
        max_headers <= MAX_HEADERS,
    ensures
        match result {
            Ok(headers) => parsed_request_headers(request@, max_headers) == Some(
                header_pairs(headers@),
            ),
            Err(_) => parsed_request_headers(request@, max_headers) is None,
        },
{
    let mut slots = vec![httparse::EMPTY_HEADER; max_headers];
    let mut parser = httparse::Request::new(&mut slots);
    match parser.parse(request) {
        Ok(_) => Ok(
            slots.iter().map(
                |h| Header { name: h.name.as_bytes().to_vec(), value: h.value.to_vec() },
            ).collect(),
        ),
        Err(error) => Err(error),
    }
}

/// Runs `sha1::Sha1::digest` on `data`. The contract names the digest and
/// says that it is 20 bytes long, the output size of SHA-1.
#[verifier::external_body]
fn sha1_of(data: &[u8]) -> (digest: Vec<u8>)
    ensures
        digest@ == sha1_digest(data@),
        digest@.len() == 20,
{
    <sha1::Sha1 as sha1::Digest>::digest(data).to_vec()
}

/// Runs `data_encoding::BASE64.encode` on `data` and hands the text out as
/// bytes. The contract names the text and says how long it is: four bytes
/// for every three bytes of `data`, begun or whole. The encoder may panic
/// on inputs longer than `usize::MAX / 512`, which the precondition leaves
/// out.
#[verifier::external_body]
fn base64_of(data: &[u8]) -> (text: Vec<u8>)
    requires
        data@.len() <= usize::MAX / 512,
    ensures
        text@ == base64_encoding(data@),
        text@.len() == (data@.len() + 2) / 3 * 4,
{
    data_encoding::BASE64.encode(data).into_bytes()
}

/// Whether two byte strings are the same.
fn bytes_equal(left: &[u8], right: &[u8]) -> (equal: bool)
    ensures
        equal == (left@ == right@),
{
    if left.len() != right.len() {
        return false;
    }
    let mut i: usize = 0;
    while i < left.len()
        invariant
            i <= left@.len(),
            left@.len() == right@.len(),
            left@.take(i as int) == right@.take(i as int),
        decreases left@.len() - i,
    {
        if left[i] != right[i] {
            assert(left@[i as int] != right@[i as int]);
            return false;
        }
        i += 1;
        assert(left@.take(i as int) == left@.take(i - 1).push(left@[i - 1]));
        assert(right@.take(i as int) == right@.take(i - 1).push(right@[i - 1]));
    }
    assert(left@.take(i as int) == left@);
    assert(right@.take(i as int) == right@);
    true
}

/// Appends `bytes` to `target`.
fn append_bytes(target: &mut Vec<u8>, bytes: &[u8])
    ensures
        final(target)@ == old(target)@ + bytes@,
{
    let mut i: usize = 0;
    while i < bytes.len()
        invariant
            i <= bytes@.len(),
            target@ == old(target)@ + bytes@.take(i as int),
        decreases bytes@.len() - i,
    {
        target.push(bytes[i]);
        i += 1;
        assert(bytes@.take(i as int) == bytes@.take(i - 1).push(bytes@[i - 1]));
    }
    assert(bytes@.take(i as int) == bytes@);
}

/// Finds the first header line named `Sec-WebSocket-Key`.
pub fn find_websocket_key(headers: &Vec<Header>) -> (found: Option<usize>)
    ensures
        match found {
            Some(index) => {
                &&& index < headers@.len()
                &&& headers@[index as int].name@ == key_header_name()
                &&& forall|i: int| 0 <= i < index ==> headers@[i].name@ != key_header_name()
                &&& websocket_key(header_pairs(headers@)) == Some(headers@[index as int].value@)
            },
            None => websocket_key(header_pairs(headers@)) is None,
        },
{
    let ghost pairs = header_pairs(headers@);
    assert(pairs.skip(0) == pairs);
    let mut i: usize = 0;
    while i < headers.len()
        invariant
            i <= headers@.len(),
            pairs == header_pairs(headers@),
            forall|j: int| 0 <= j < i ==> headers@[j].name@ != key_header_name(),
            websocket_key(pairs) == websocket_key(pairs.skip(i as int)),
        decreases headers@.len() - i,
    {
        let ghost rest = pairs.skip(i as int);
        assert(rest[0] == headers@[i as int].pair());
        assert(rest.drop_first() == pairs.skip(i + 1));
        if bytes_equal(headers[i].name.as_slice(), "Sec-WebSocket-Key".as_bytes()) {
            return Some(i);
        }
        i += 1;
    }
    None
}

/// Computes the accept token for a client key. The token is 28 bytes long,
/// whatever the key is.
pub fn compute_accept_token(key: &[u8]) -> (token: Vec<u8>)
    ensures
        token@ == accept_token(key@),
        token@.len() == 28,
{
    let mut input: Vec<u8> = Vec::new();
    append_bytes(&mut input, key);
    append_bytes(&mut input, "258EAFA5-E914-47DA-95CA-C5AB0DC85B11".as_bytes());
    let digest = sha1_of(input.as_slice());
    base64_of(digest.as_slice())
}

/// Builds the upgrade response that carries `token`.
pub fn build_handshake_response(token: &[u8]) -> (response: Vec<u8>)
    ensures
        response@ == handshake_response(token@),
{
    let mut response: Vec<u8> = Vec::new();
    append_bytes(
        &mut response,
        "HTTP/1.1 101 Switching Protocols\nUpgrade: websocket\nConnection: Upgrade\nSec-WebSocket-Accept: ".as_bytes(),
    );
    append_bytes(&mut response, token);
    append_bytes(&mut response, "\r\n   \r\n \r\n\r\n".as_bytes());
    response
}

/// What handling a read leaves behind.
pub struct ReadOutcome {
    /// Whether the connection is established afterwards.
    pub established: bool,
    /// The inbound buffer afterwards.
    pub read_buffer: BufferView,
    /// The outbound buffer afterwards.
    pub write_buffer: BufferView,
    /// What the caller is told.
    pub result: Result<(), SocketReadError>,
}

/// What the WebSocket layer does with the bytes that arrived, when the
/// outbound buffer holds at most `capacity` bytes.
///
/// On an established connection one frame is taken from the unread bytes:
/// its header is marked as read and its payload is unmasked in place; a
/// frame that cannot be taken leaves everything as it was.
///
/// Before that, the written bytes are taken as an upgrade request. If the
/// request is accepted, names a key, and the response fits behind what the
/// outbound buffer holds, the response is staged there, the inbound buffer
/// is emptied, the connection is established, and the result is
/// `NotFullRead`. If not, the result is `SocketClosed` and nothing changes.
pub open spec fn websocket_read(
    established: bool,
    read_buffer: BufferView,
    write_buffer: BufferView,
    capacity: usize,
) -> ReadOutcome {
    if established {
        ReadOutcome {
            established,
            read_buffer: take_frame(read_buffer).0,
            write_buffer,
            result: take_frame(read_buffer).1,
        }
    } else {
        match upgrade_response(read_buffer.bytes) {
            Some(response) if write_buffer.bytes.len() + response.len() <= capacity => ReadOutcome {
                established: true,
                read_buffer: BufferView { bytes: Seq::empty(), pos: 0 },
                write_buffer: BufferView {
                    bytes: write_buffer.bytes + response,
                    ..write_buffer
                },
                result: Err(SocketReadError::NotFullRead),
            },
            _ => ReadOutcome {
                established,
                read_buffer,
                write_buffer,
                result: Err(SocketReadError::SocketClosed),
            },
        }
    }
}

/// An established connection stays established, whatever arrives, and the
/// outbound buffer is not touched by what arrives on it.
pub proof fn lemma_established_stays(
    read_buffer: BufferView,
    write_buffer: BufferView,
    capacity: usize,
)
    ensures
        websocket_read(true, read_buffer, write_buffer, capacity).established,
        websocket_read(true, read_buffer, write_buffer, capacity).write_buffer == write_buffer,
{
}

/// A connection that is not established becomes established exactly when
/// the answer is `NotFullRead`, and stays as it was when the answer is
/// `SocketClosed`; there is no other answer.
pub proof fn lemma_handshake_answers(
    read_buffer: BufferView,
    write_buffer: BufferView,
    capacity: usize,
)
    ensures
        ({
            let outcome = websocket_read(false, read_buffer, write_buffer, capacity);
            ||| outcome.established && outcome.result == Err::<(), SocketReadError>(
                SocketReadError::NotFullRead,
            )
            ||| !outcome.established && outcome.result == Err::<(), SocketReadError>(
                SocketReadError::SocketClosed,
            ) && outcome.read_buffer == read_buffer && outcome.write_buffer == write_buffer
        }),
{
}

/// What the WebSocket layer does with the staged outbound bytes before
/// they are flushed, when the buffer holds at most `capacity` bytes: the
/// buffer afterwards, and whether that went well.
///
/// On an established connection the unread bytes become one frame, unless
/// the frame does not fit, which fails and changes nothing. Before that
/// nothing is done.
pub open spec fn websocket_flush(established: bool, write_buffer: BufferView, capacity: usize) -> (
    BufferView,
    bool,
) {
    if !established {
        (write_buffer, true)
    } else if encode_frame(write_buffer.unread()).len() <= capacity {
        (BufferView { bytes: encode_frame(write_buffer.unread()), pos: 0 }, true)
    } else {
        (write_buffer, false)
    }
}

/// The protocol state of one connection: whether the upgrade handshake has
/// been answered. It starts out not established and never goes back.
#[derive(Debug)]
pub struct WebSocket {
    is_established: bool,
}

impl WebSocket {
    /// Whether the handshake has been answered.
    pub closed spec fn established(&self) -> bool {
        self.is_established
    }

    /// The state of a connection that was just accepted.
    pub fn new() -> (websocket: Self)
        ensures
            !websocket.established(),
    {
        WebSocket { is_established: false }
    }

    /// Whether the handshake has been answered.
    pub fn is_established(&self) -> (established: bool)
        ensures
            established == self.established(),
    {
        self.is_established
    }

    /// Answers the upgrade request that `read_buffer` holds, on a
    /// connection that is not established yet.
    ///
    /// Where the request is accepted, names a key, and the response fits
    /// into `write_buffer`, the response is appended there, `read_buffer` is
    /// emptied, the connection becomes established, and the result is
    /// `NotFullRead`: the handshake uses up this round, and the caller owes
    /// the connection a flush. Otherwise the result is `SocketClosed` and
    /// nothing has changed.
    fn handshake<const R: usize, const W: usize>(
        &mut self,
        read_buffer: &mut ByteBuffer<R>,
        write_buffer: &mut ByteBuffer<W>,
    ) -> (result: Result<(), SocketReadError>)
        requires
            !old(self).established(),
        ensures
            websocket_read(false, old(read_buffer)@, old(write_buffer)@, W) == (ReadOutcome {
                established: final(self).established(),
                read_buffer: final(read_buffer)@,
                write_buffer: final(write_buffer)@,
                result,
            }),
    {
        let headers = match parse_request(read_buffer.filled(), MAX_HEADERS) {
            Ok(headers) => headers,
            Err(_) => {
                return Err(SocketReadError::SocketClosed);
            },
        };
        let index = match find_websocket_key(&headers) {
            Some(index) => index,
            None => {
                return Err(SocketReadError::SocketClosed);
            },
        };
        let token = compute_accept_token(headers[index].value.as_slice());
        let response = build_handshake_response(token.as_slice());
        if write_buffer.push_slice(response.as_slice()).is_err() {
            return Err(SocketReadError::SocketClosed);
        }
        read_buffer.clear();
        self.is_established = true;
        Err(SocketReadError::NotFullRead)
    }

    /// Handles the bytes that arrived on a connection.
    ///
    /// On an established connection this takes one frame from `read_buffer`
    /// (see [`unwrap_frame`]); before that it answers the upgrade request
    /// (see [`WebSocket::handshake`]). What it does is [`websocket_read`].
    pub fn handle_read_websocket<const R: usize, const W: usize>(
        &mut self,
        read_buffer: &mut ByteBuffer<R>,
        write_buffer: &mut ByteBuffer<W>,
    ) -> (result: Result<(), SocketReadError>)
        ensures
            websocket_read(old(self).established(), old(read_buffer)@, old(write_buffer)@, W) == (
            ReadOutcome {
                established: final(self).established(),
                read_buffer: final(read_buffer)@,
                write_buffer: final(write_buffer)@,
                result,
            }),
    {
        if self.is_established {
            unwrap_frame(read_buffer)
        } else {
            self.handshake(read_buffer, write_buffer)
        }
    }

    /// Prepares the staged outbound bytes for the wire.
    ///
    /// On an established connection the unread bytes of `write_buffer` are
    /// wrapped into one frame (see [`wrap_frame`]); before that nothing is
    /// done. What it does is [`websocket_flush`].
    pub fn flush<const W: usize>(&self, write_buffer: &mut ByteBuffer<W>) -> (result: Result<
        (),
        (),
    >)
        ensures
            websocket_flush(self.established(), old(write_buffer)@, W) == (
                final(write_buffer)@,
                result is Ok,
            ),
    {
        if self.is_established {
            wrap_frame(write_buffer)
        } else {
            Ok(())
        }
    }
}

impl Default for WebSocket {
    fn default() -> (websocket: Self)
        ensures
            !websocket.established(),
    {
        WebSocket::new()
    }
}

/// Why a flush through the WebSocket layer failed.
#[derive(Debug)]
pub enum WebSocketFlushError<E> {
    /// The frame around the staged bytes does not fit into the buffer.
    Overflow,
    /// The wrapped stream failed.
    Stream(E),
}

/// What a [`WebSocketServer`] holds, as mathematics.
pub struct WebSocketServerView<S> {
    /// The wrapped stream.
    pub server: S,
    /// Whether the handshake has been answered.
    pub established: bool,
}

/// The server's end of a WebSocket connection over the stream `S`, which
/// buffers the outbound bytes of a stream `T`: it answers the upgrade
/// request, takes the frames off what arrives, and puts frames around what
/// leaves.
pub struct WebSocketServer<T, S> {
    server: S,
    websocket: WebSocket,
    _marker: PhantomData<T>,
}

impl<T, S> View for WebSocketServer<T, S> {
    type V = WebSocketServerView<S>;

    closed spec fn view(&self) -> WebSocketServerView<S> {
        WebSocketServerView { server: self.server, established: self.websocket.established() }
    }
}

/// What the layer tells its caller after the WebSocket state handled a
/// read on a connection that was or was not established before: the round
/// that the handshake used up asks for a flush of the response.
pub open spec fn layer_result(was_established: bool, result: Result<(), SocketReadError>) -> Result<
    (),
    ReadError,
> {
    match result {
        Ok(()) => Ok(()),
        Err(SocketReadError::SocketClosed) => Err(ReadError::SocketClosed),
        Err(SocketReadError::NotFullRead) => if was_established {
            Err(ReadError::NotFullRead)
        } else {
            Err(ReadError::FlushRequest)
        },
    }
}

impl<T, S> WebSocketServer<T, S> {
    /// The layer over `server`, with the handshake still to come.
    pub fn new(server: S) -> (layer: Self)
        ensures
            layer@ == (WebSocketServerView { server, established: false }),
    {
        WebSocketServer { server, websocket: WebSocket::new(), _marker: PhantomData }
    }

    /// Whether the handshake has been answered.
    pub fn is_established(&self) -> (established: bool)
        ensures
            established == self@.established,
    {
        self.websocket.is_established()
    }

    /// The wrapped stream.
    pub fn server(&self) -> (server: &S)
        ensures
            *server == self@.server,
    {
        &self.server
    }

    /// The wrapped stream, to be changed in place.
    pub fn server_mut(&mut self) -> (server: &mut S)
        ensures
            *server == old(self)@.server,
            final(self)@ == (WebSocketServerView { server: *final(server), ..old(self)@ }),
    {
        &mut self.server
    }
}

impl<T: Read, const LEN: usize> Read for WebSocketServer<T, WritableByteChannel<T, LEN>> {
    /// The wrapped stream reads; a failed read is handed on as it is, and
    /// after a read that went well the WebSocket state has its turn (see
    /// [`websocket_read`] and [`layer_result`]).
    open spec fn read_spec(
        pre: Self,
        buffer_pre: BufferView,
        post: Self,
        buffer_post: BufferView,
        result: Result<(), ReadError>,
    ) -> bool {
        exists|read_server: WritableByteChannel<T, LEN>, read_buffer: BufferView, read: Result<
            (),
            ReadError,
        >|
            {
                &&& #[trigger] WritableByteChannel::<T, LEN>::read_spec(
                    pre@.server,
                    buffer_pre,
                    read_server,
                    read_buffer,
                    read,
                )
                &&& match read {
                    Err(error) => {
                        &&& result == Err::<(), ReadError>(error)
                        &&& post@ == (WebSocketServerView { server: read_server, ..pre@ })
                        &&& buffer_post == read_buffer
                    },
                    Ok(()) => {
                        let outcome = websocket_read(
                            pre@.established,
                            read_buffer,
                            read_server@.write_buf,
                            LEN,
                        );
                        &&& post@.established == outcome.established
                        &&& buffer_post == outcome.read_buffer
                        &&& post@.server@ == (WritableView {
                            write_buf: outcome.write_buffer,
                            ..read_server@
                        })
                        &&& result == layer_result(pre@.established, outcome.result)
                    },
                }
            }
    }

    fn read<const N: usize>(&mut self, read_buf: &mut ByteBuffer<N>) -> (result: Result<
        (),
        ReadError,
    >) {
        let ghost pre = *self;
        let ghost buffer_pre = read_buf@;
        let read = self.server.read(read_buf);
        let ghost read_server = self.server;
        let ghost read_buffer = read_buf@;
        assert(WritableByteChannel::<T, LEN>::read_spec(
            pre@.server,
            buffer_pre,
            read_server,
            read_buffer,
            read,
        ));
        match read {
            Err(error) => Err(error),
            Ok(()) => {
                let was_established = self.websocket.is_established();
                let handled = self.websocket.handle_read_websocket(
                    read_buf,
                    self.server.write_buf_mut(),
                );
                match handled {
                    Ok(()) => Ok(()),
                    Err(SocketReadError::SocketClosed) => Err(ReadError::SocketClosed),
                    Err(SocketReadError::NotFullRead) => if was_established {
                        Err(ReadError::NotFullRead)
                    } else {
                        Err(ReadError::FlushRequest)
                    },
                }
            },
        }
    }
}

impl<T: Write, const LEN: usize> Flush for WebSocketServer<T, WritableByteChannel<T, LEN>> {
    type Error = WebSocketFlushError<<T as Flush>::Error>;

    /// The WebSocket state prepares the staged bytes (see
    /// [`websocket_flush`]); if the frame does not fit, that is the error
    /// and nothing has changed. Otherwise the wrapped stream is flushed.
    open spec fn flush_spec(pre: Self, post: Self, result: Result<(), Self::Error>) -> bool {
        let prepared = websocket_flush(pre@.established, pre@.server@.write_buf, LEN);
        &&& post@.established == pre@.established
        &&& if prepared.1 {
            exists|framed: WritableByteChannel<T, LEN>, flushed: Result<(), <T as Flush>::Error>|
                {
                    &&& framed@ == (WritableView { write_buf: prepared.0, ..pre@.server@ })
                    &&& #[trigger] WritableByteChannel::<T, LEN>::flush_spec(
                        framed,
                        post@.server,
                        flushed,
                    )
                    &&& result == stream_result(flushed)
                }
        } else {
            &&& result == Err::<(), Self::Error>(WebSocketFlushError::Overflow)
            &&& post@.server@ == pre@.server@
        }
    }

    fn flush(&mut self) -> (result: Result<(), Self::Error>) {
        if self.websocket.flush(self.server.write_buf_mut()).is_err() {
            return Err(WebSocketFlushError::Overflow);
        }
        let ghost framed = self.server;
        let flushed = self.server.flush();
        assert(WritableByteChannel::<T, LEN>::flush_spec(framed, self@.server, flushed));
        match flushed {
            Ok(()) => Ok(()),
            Err(error) => Err(WebSocketFlushError::Stream(error)),
        }
    }
}

/// What the layer makes of the answer of the wrapped stream.
pub open spec fn stream_result<E>(answer: Result<(), E>) -> Result<(), WebSocketFlushError<E>> {
    match answer {
        Ok(()) => Ok(()),
        Err(error) => Err(WebSocketFlushError::Stream(error)),
    }
}

impl<T: Write, const LEN: usize> Write for WebSocketServer<T, WritableByteChannel<T, LEN>> {
    open spec fn write_spec(
        pre: Self,
        buffer_pre: BufferView,
        post: Self,
        buffer_post: BufferView,
        result: Result<(), Self::Error>,
    ) -> bool {
        &&& post@.established == pre@.established
        &&& exists|written: Result<(), <T as Flush>::Error>|
            {
                &&& #[trigger] WritableByteChannel::<T, LEN>::write_spec(
                    pre@.server,
                    buffer_pre,
                    post@.server,
                    buffer_post,
                    written,
                )
                &&& result == stream_result(written)
            }
    }

    fn write<const N: usize>(&mut self, write: &mut ByteBuffer<N>) -> (result: Result<
        (),
        Self::Error,
    >) {
        let ghost pre = *self;
        let ghost buffer_pre = write@;
        let written = self.server.write(write);
        assert(WritableByteChannel::<T, LEN>::write_spec(
            pre@.server,
            buffer_pre,
            self@.server,
            write@,
            written,
        ));
        match written {
            Ok(()) => Ok(()),
            Err(error) => Err(WebSocketFlushError::Stream(error)),
        }
    }
}

impl<T, S: Close> Close for WebSocketServer<T, S> {
    type Error = S::Error;

    type Registry = S::Registry;

    open spec fn is_closed_spec(&self, closed: bool) -> bool {
        self@.server.is_closed_spec(closed)
    }

    open spec fn close_spec(
        pre: Self,
        registry_pre: Self::Registry,
        post: Self,
        registry_post: Self::Registry,
        result: Result<(), Self::Error>,
    ) -> bool {
        &&& S::close_spec(pre@.server, registry_pre, post@.server, registry_post, result)
        &&& post@.established == pre@.established
    }

    fn is_closed(&self) -> (closed: bool) {
        self.server.is_closed()
    }

    fn close(&mut self, registry: &mut Self::Registry) -> (result: Result<(), Self::Error>) {
        self.server.close(registry)
    }
}

impl<T, S: Open> Open for WebSocketServer<T, S> {
    type Error = S::Error;

    type Registry = S::Registry;

    open spec fn open_spec(
        pre: Self,
        registry_pre: Self::Registry,
        post: Self,
        registry_post: Self::Registry,
        result: Result<(), Self::Error>,
    ) -> bool {
        &&& S::open_spec(pre@.server, registry_pre, post@.server, registry_post, result)
        &&& post@.established == pre@.established
    }

    fn open(&mut self, registry: &mut Self::Registry) -> (result: Result<(), Self::Error>) {
        self.server.open(registry)
    }
}

impl<T, S: Accept<A>, A> Accept<A> for WebSocketServer<T, S> {
    open spec fn accept_spec(accept: A, made: Self) -> bool {
        &&& S::accept_spec(accept, made@.server)
        &&& !made@.established
    }

    open spec fn get_stream_spec(pre: Self, post: Self, stream_pre: A, stream_post: A) -> bool {
        &&& S::get_stream_spec(pre@.server, post@.server, stream_pre, stream_post)
        &&& post@.established == pre@.established
    }

    fn accept(accept: A) -> (made: Self) {
        WebSocketServer { server: S::accept(accept), websocket: WebSocket::new(), _marker: PhantomData }
    }

    fn get_stream(&mut self) -> (stream: &mut A) {
        self.server.get_stream()
    }
}

} // verus!
