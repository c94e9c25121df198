//! Length-prefixed buffers: a 4-byte little-endian length followed by exactly
//! that many payload bytes, with no padding. Every buffer that crosses the
//! boundary between host and plugin has this layout.

use crate::instance::{
    lemma_allocation_keeps_wf, plugin_alloc, Allocation, Instance, InstanceState, ADDRESS_LIMIT,
};
use vstd::multiset::*;
use vstd::prelude::*;
use vstd::string::*;
use vstd::utf8::*;

verus! {

broadcast use group_multiset_axioms;

/// The four bytes that store `n`, least significant byte first.
pub open spec fn le_bytes(n: u32) -> Seq<u8> {
    seq![
        (n % 256) as u8,
        (n / 256 % 256) as u8,
        (n / 65536 % 256) as u8,
        (n / 16777216) as u8,
    ]
}

/// The number that the first four bytes of `bytes` store, least significant
/// byte first.
pub open spec fn le_value(bytes: Seq<u8>) -> int
    recommends
        bytes.len() >= 4,
{
    bytes[0] + 256 * bytes[1] + 65536 * bytes[2] + 16777216 * bytes[3]
}

/// The size of the buffer that carries `payload`: four bytes more than the
/// payload has.
pub open spec fn frame_size(payload: Seq<u8>) -> int {
    4 + payload.len() as int
}

/// A payload is short enough to be framed: the whole buffer can be allocated.
pub open spec fn frame_fits(payload: Seq<u8>) -> bool {
    frame_size(payload) <= ADDRESS_LIMIT
}

/// The buffer that carries `payload`: its length in four bytes, then the
/// payload itself.
pub open spec fn frame(payload: Seq<u8>) -> Seq<u8>
    recommends
        frame_fits(payload),
{
    le_bytes(payload.len() as u32) + payload
}

/// `buffer` begins with a length prefix and holds as many bytes behind it as
/// the prefix says.
pub open spec fn holds_frame(buffer: Seq<u8>) -> bool {
    4 <= buffer.len() && 4 + le_value(buffer) <= buffer.len()
}

/// The payload that a framed buffer carries: as many bytes behind the prefix
/// as the prefix says.
pub open spec fn payload_of(buffer: Seq<u8>) -> Seq<u8>
    recommends
        holds_frame(buffer),
{
    buffer.subrange(4, 4 + le_value(buffer))
}

/// The memory holds a whole framed buffer at `address`.
pub open spec fn frame_at(state: InstanceState, address: int) -> bool {
    &&& state.in_bounds(address, 4)
    &&& state.in_bounds(address, 4 + length_at(state, address))
}

/// The length that the prefix at `address` stores.
pub open spec fn length_at(state: InstanceState, address: int) -> int
    recommends
        state.in_bounds(address, 4),
{
    le_value(state.region(address, 4))
}

/// The payload of the framed buffer at `address`.
pub open spec fn payload_at(state: InstanceState, address: int) -> Seq<u8>
    recommends
        frame_at(state, address),
{
    state.region(address + 4, length_at(state, address))
}

/// The state after `payload` is framed into a fresh allocation: the buffer
/// stands at the former end of the memory, nothing else changes, and the
/// buffer, prefix included, is live.
pub open spec fn with_frame(state: InstanceState, payload: Seq<u8>) -> InstanceState
    recommends
        state.can_grow(frame_size(payload)),
{
    InstanceState {
        memory: state.memory + frame(payload),
        live: state.live.insert(Allocation { address: state.top(), size: frame_size(payload) }),
        lifecycle: state.lifecycle,
    }
}

/// What lossy decoding makes of bytes that are not valid UTF-8: the text with
/// the replacement character in place of each malformed sequence.
pub uninterp spec fn lossy_repair(bytes: Seq<u8>) -> Seq<char>;

/// The text that `bytes` decode to. Valid UTF-8 decodes to the characters it
/// encodes; anything else is repaired, never refused.
pub open spec fn text_of(bytes: Seq<u8>) -> Seq<char> {
    if valid_utf8(bytes) {
        decode_utf8(bytes)
    } else {
        lossy_repair(bytes)
    }
}

/// Calls `String::from_utf8_lossy` and takes the result as an owned string.
/// The contract claims what the documentation of that function says: bytes
/// that are valid UTF-8 give the string they encode, and for any other bytes
/// the result depends on the bytes alone. It never fails.
#[verifier::external_body]
fn from_utf8_lossy(bytes: &[u8]) -> (text: String)
    ensures
        valid_utf8(bytes@) ==> text@ == decode_utf8(bytes@),
        !valid_utf8(bytes@) ==> text@ == lossy_repair(bytes@),
{
    String::from_utf8_lossy(bytes).into_owned()
}

/// Appends the four bytes of `n` to `out`, least significant byte first.
fn push_le(out: &mut Vec<u8>, n: u32)
    ensures
        final(out)@ == old(out)@ + le_bytes(n),
{
    out.push((n % 256) as u8);
    out.push((n / 256 % 256) as u8);
    out.push((n / 65536 % 256) as u8);
    out.push((n / 16777216) as u8);
    assert(out@ =~= old(out)@ + le_bytes(n));
}

/// Reads the number that the first four bytes of `bytes` store.
fn read_le(bytes: &[u8]) -> (n: u32)
    requires
        bytes@.len() >= 4,
    ensures
        n == le_value(bytes@),
{
    let b0: u32 = bytes[0] as u32;
    let b1: u32 = bytes[1] as u32;
    let b2: u32 = bytes[2] as u32;
    let b3: u32 = bytes[3] as u32;
    b0 + 256 * b1 + 65536 * b2 + 16777216 * b3
}

/// Frames `text`: the byte length of its UTF-8 encoding in four bytes, then
/// the encoding.
pub fn encode(text: &str) -> (buffer: Vec<u8>)
    requires
        frame_fits(text.spec_bytes()),
    ensures
        buffer@ == frame(text.spec_bytes()),
{
    let bytes = text.as_bytes();
    let mut buffer: Vec<u8> = Vec::new();
    push_le(&mut buffer, bytes.len() as u32);
    buffer.extend_from_slice(bytes);
    assert(buffer@ =~= frame(text.spec_bytes()));
    buffer
}

/// Decodes `bytes` as text. Bytes that are not valid UTF-8 are repaired, so
/// every input decodes.
pub fn decode(bytes: &[u8]) -> (text: String)
    ensures
        text@ == text_of(bytes@),
{
    from_utf8_lossy(bytes)
}

/// Frames `s` into a fresh allocation of `4 + n` bytes, where `n` is the byte
/// length of `s`, and returns the buffer's address. The buffer belongs to the
/// caller, who releases it with that same size.
pub fn write_length_prefixed(inst: &mut Instance, s: &str) -> (address: i32)
    requires
        old(inst)@.wf(),
        old(inst)@.can_grow(frame_size(s.spec_bytes())),
    ensures
        address == old(inst)@.top(),
        final(inst)@ == with_frame(old(inst)@, s.spec_bytes()),
        final(inst)@.wf(),
{
    let buffer = encode(s);
    let total: usize = buffer.len();
    let address = plugin_alloc(inst, total as i32);
    inst.write(address, buffer.as_slice());
    proof {
        let before = old(inst)@.memory;
        assert forall|i: int| 0 <= i < before.len() implies inst@.memory[i] == before[i] by {
            assert(before[i] == inst@.memory.subrange(0, before.len() as int)[i]);
        }
        assert(inst@.memory =~= before + frame(s.spec_bytes()));
    }
    address
}

/// Reads the `len` bytes at `ptr` as text. Bytes that are not valid UTF-8 are
/// repaired, so every input decodes.
pub fn read_input(inst: &Instance, ptr: i32, len: i32) -> (text: String)
    requires
        inst@.wf(),
        inst@.in_bounds(ptr as int, len as int),
    ensures
        text@ == text_of(inst@.region(ptr as int, len as int)),
{
    let bytes = inst.read(ptr, len);
    decode(bytes.as_slice())
}

/// Reads the framed buffer at `address` as the host does: the length from the
/// prefix, then that many bytes from four bytes behind the address. Gives
/// nothing where the memory holds no whole buffer there.
pub fn read_length_prefixed(inst: &Instance, address: i32) -> (payload: Option<Vec<u8>>)
    requires
        inst@.wf(),
    ensures
        payload.is_some() == frame_at(inst@, address as int),
        payload matches Some(bytes) ==> bytes@ == payload_at(inst@, address as int),
{
    if !inst.holds(address, 4) {
        return None;
    }
    let prefix = inst.read(address, 4);
    let length: u32 = read_le(prefix.as_slice());
    let room: i32 = inst.memory_size() - address - 4;
    if length > room as u32 {
        return None;
    }
    Some(inst.read(address + 4, length as i32))
}

/// Four bytes written for a number read back as that number.
pub proof fn law_le_value_of_le_bytes(n: u32)
    ensures
        le_bytes(n).len() == 4,
        le_value(le_bytes(n)) == n,
{
}

/// The prefix of a framed buffer stores the byte length of the payload behind
/// it, the buffer is four bytes longer than the payload, and the payload can
/// be read back from it.
pub proof fn law_framing(payload: Seq<u8>)
    requires
        frame_fits(payload),
    ensures
        frame(payload).len() == frame_size(payload),
        le_value(frame(payload)) == payload.len(),
        holds_frame(frame(payload)),
        payload_of(frame(payload)) == payload,
{
    assert(payload_of(frame(payload)) =~= payload);
}

/// Decoding the payload of a framed text, with the length that the prefix
/// stores, gives the text back.
pub proof fn law_round_trip(text: Seq<char>)
    requires
        frame_fits(encode_utf8(text)),
    ensures
        text_of(payload_of(frame(encode_utf8(text)))) == text,
{
    law_framing(encode_utf8(text));
    encode_utf8_valid_utf8(text);
    encode_utf8_decode_utf8(text);
}

/// A buffer framed into memory can be read back where it was put: the prefix
/// at its address stores the payload's length, the payload stands behind it,
/// and the region that is live for it has four bytes more than that length.
pub proof fn law_frame_in_memory(state: InstanceState, payload: Seq<u8>)
    requires
        state.wf(),
        state.can_grow(frame_size(payload)),
    ensures
        with_frame(state, payload).wf(),
        state.allocated(frame_size(payload), with_frame(state, payload), state.top()),
        frame_at(with_frame(state, payload), state.top()),
        length_at(with_frame(state, payload), state.top()) == payload.len(),
        payload_at(with_frame(state, payload), state.top()) == payload,
        with_frame(state, payload).is_live(
            state.top(),
            4 + length_at(with_frame(state, payload), state.top()),
        ),
{
    let next = with_frame(state, payload);
    let address = state.top();
    law_framing(payload);
    assert(next.memory.subrange(0, state.top()) =~= state.memory);
    lemma_allocation_keeps_wf(state, frame_size(payload), next, address);
    assert(next.region(address, 4) =~= le_bytes(payload.len() as u32));
    assert(payload_at(next, address) =~= payload);
}

/// Text written into memory as a framed buffer and read back from behind its
/// prefix, with the length that the prefix stores, is the same text.
pub proof fn law_round_trip_in_memory(state: InstanceState, text: Seq<char>)
    requires
        state.wf(),
        state.can_grow(frame_size(encode_utf8(text))),
    ensures
        text_of(payload_at(with_frame(state, encode_utf8(text)), state.top())) == text,
{
    law_frame_in_memory(state, encode_utf8(text));
    encode_utf8_valid_utf8(text);
    encode_utf8_decode_utf8(text);
}

/// A buffer framed into memory stays as it is, and stays live, when another
/// is framed after it.
pub proof fn law_frames_persist(state: InstanceState, first: Seq<u8>, second: Seq<u8>)
    requires
        state.wf(),
        state.can_grow(frame_size(first)),
        with_frame(state, first).can_grow(frame_size(second)),
    ensures
        ({
            let between = with_frame(state, first);
            let after = with_frame(between, second);
            &&& after.wf()
            &&& frame_at(after, state.top())
            &&& payload_at(after, state.top()) == first
            &&& after.is_live(state.top(), frame_size(first))
            &&& frame_at(after, between.top())
            &&& payload_at(after, between.top()) == second
            &&& after.is_live(between.top(), frame_size(second))
        }),
{
    let between = with_frame(state, first);
    let after = with_frame(between, second);
    law_frame_in_memory(state, first);
    law_frame_in_memory(between, second);
    assert(after.region(state.top(), 4) =~= between.region(state.top(), 4));
    assert(payload_at(after, state.top()) =~= payload_at(between, state.top()));
}

} // verus!
