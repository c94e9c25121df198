//! The two queries that a host may put to an instance: the plugin's
//! descriptor and recognition. Each answer is a framed buffer in a fresh
//! allocation, which the host reads and then releases.

use crate::codec::{
    frame_size, law_frame_in_memory, payload_at, read_input, text_of, with_frame,
    write_length_prefixed,
};
use crate::instance::{
    law_release_undoes_allocation, Allocation, Instance, InstanceState, Lifecycle,
};
use vstd::prelude::*;
use vstd::string::*;
use vstd::utf8::*;

verus! {

/// The record that describes the plugin: identifier, display name, version,
/// description, supported input formats, and metadata. It never changes.
pub const INFO_RECORD: &'static str =
    "{\"id\":\"minimal-rust-plugin\",\"name\":\"Minimal Rust Plugin\",\"version\":\"0.1.0\",\"description\":\"A minimal example plugin written in Rust\",\"supportedFormats\":[\"onnx\",\"gguf\"],\"metadata\":{}}";

/// The record that reports a match: the family, variant and task that were
/// recognized, and the confidence.
pub const RECOGNIZED_RECORD: &'static str =
    "{\"recognized\":true,\"family\":\"YOLO\",\"variant\":\"v8n\",\"task\":\"detect\",\"confidence\":0.95,\"metadata\":{\"detected_by\":\"minimal-rust-plugin\"}}";

/// The record that reports no match: family, variant and task are absent and
/// the confidence is zero.
pub const UNRECOGNIZED_RECORD: &'static str =
    "{\"recognized\":false,\"family\":null,\"variant\":null,\"task\":null,\"confidence\":0.0,\"metadata\":{\"detected_by\":\"minimal-rust-plugin\"}}";

/// A layer name that marks the recognized family, quoted as it stands in a
/// serialized model.
pub const MARKER_C2F: &'static str = "\"C2f\"";

/// A second such layer name.
pub const MARKER_SPPF: &'static str = "\"SPPF\"";

/// A third such layer name.
pub const MARKER_DETECT: &'static str = "\"Detect\"";

/// `pattern` stands somewhere in `text`, character for character.
pub open spec fn occurs_in(pattern: Seq<char>, text: Seq<char>) -> bool {
    exists|i: int|
        0 <= i && i + pattern.len() <= text.len()
            && #[trigger] text.subrange(i, i + pattern.len()) == pattern
}

/// The text names a layer that marks the recognized family: one of the three
/// markers stands in it.
pub open spec fn looks_like_yolo(text: Seq<char>) -> bool {
    ||| occurs_in(MARKER_C2F@, text)
    ||| occurs_in(MARKER_SPPF@, text)
    ||| occurs_in(MARKER_DETECT@, text)
}

/// The record for one outcome of the classification.
pub open spec fn record_text(recognized: bool) -> Seq<char> {
    if recognized {
        RECOGNIZED_RECORD@
    } else {
        UNRECOGNIZED_RECORD@
    }
}

/// The payload of the descriptor query.
pub open spec fn info_payload() -> Seq<u8> {
    encode_utf8(INFO_RECORD@)
}

/// The payload that recognition answers to the input bytes: they are decoded
/// as text, the text is classified, and the record for the outcome is encoded.
pub open spec fn recognition(input: Seq<u8>) -> Seq<u8> {
    encode_utf8(record_text(looks_like_yolo(text_of(input))))
}

/// Calls `str::contains` with a string as the pattern. The contract claims
/// what the documentation of that method says: the answer is whether the
/// pattern matches a part of the text.
#[verifier::external_body]
fn str_contains(text: &str, pattern: &str) -> (found: bool)
    ensures
        found == occurs_in(pattern@, text@),
{
    text.contains(pattern)
}

/// The three records are plain ASCII, so each has as many bytes as
/// characters.
pub proof fn lemma_record_sizes()
    ensures
        info_payload().len() == 181,
        encode_utf8(record_text(true)).len() == 134,
        encode_utf8(record_text(false)).len() == 127,
{
    reveal_strlit(
        "{\"id\":\"minimal-rust-plugin\",\"name\":\"Minimal Rust Plugin\",\"version\":\"0.1.0\",\"description\":\"A minimal example plugin written in Rust\",\"supportedFormats\":[\"onnx\",\"gguf\"],\"metadata\":{}}",
    );
    reveal_strlit(
        "{\"recognized\":true,\"family\":\"YOLO\",\"variant\":\"v8n\",\"task\":\"detect\",\"confidence\":0.95,\"metadata\":{\"detected_by\":\"minimal-rust-plugin\"}}",
    );
    reveal_strlit(
        "{\"recognized\":false,\"family\":null,\"variant\":null,\"task\":null,\"confidence\":0.0,\"metadata\":{\"detected_by\":\"minimal-rust-plugin\"}}",
    );
    assert(is_ascii_chars(INFO_RECORD@));
    assert(is_ascii_chars(RECOGNIZED_RECORD@));
    assert(is_ascii_chars(UNRECOGNIZED_RECORD@));
    is_ascii_chars_encode_utf8(INFO_RECORD@);
    is_ascii_chars_encode_utf8(RECOGNIZED_RECORD@);
    is_ascii_chars_encode_utf8(UNRECOGNIZED_RECORD@);
}

/// Whether the text names a layer that marks the recognized family.
pub fn classify(text: &str) -> (recognized: bool)
    ensures
        recognized == looks_like_yolo(text@),
{
    str_contains(text, MARKER_C2F)
        || str_contains(text, MARKER_SPPF)
        || str_contains(text, MARKER_DETECT)
}

/// The record for one outcome of the classification.
pub fn recognition_record(recognized: bool) -> (record: &'static str)
    ensures
        record@ == record_text(recognized),
{
    if recognized {
        RECOGNIZED_RECORD
    } else {
        UNRECOGNIZED_RECORD
    }
}

/// Frames the plugin's descriptor into a fresh allocation and returns its
/// address. The lifecycle is neither consulted nor changed.
pub fn plugin_info(inst: &mut Instance) -> (address: i32)
    requires
        old(inst)@.wf(),
        old(inst)@.can_grow(frame_size(info_payload())),
    ensures
        address == old(inst)@.top(),
        final(inst)@ == with_frame(old(inst)@, info_payload()),
        final(inst)@.wf(),
{
    write_length_prefixed(inst, INFO_RECORD)
}

/// Decodes the `len` bytes at `ptr` as text, classifies the text, frames the
/// record for the outcome into a fresh allocation and returns its address.
/// The input is left as it was, and so is every other allocation. The host
/// calls this on a loaded instance; the lifecycle is neither consulted nor
/// changed, so a call out of order answers the same and harms nothing.
pub fn recognize(inst: &mut Instance, ptr: i32, len: i32) -> (address: i32)
    requires
        old(inst)@.wf(),
        old(inst)@.in_bounds(ptr as int, len as int),
        old(inst)@.can_grow(frame_size(recognition(old(inst)@.region(ptr as int, len as int)))),
    ensures
        address == old(inst)@.top(),
        final(inst)@ == with_frame(
            old(inst)@,
            recognition(old(inst)@.region(ptr as int, len as int)),
        ),
        final(inst)@.wf(),
{
    let input = read_input(inst, ptr, len);
    let recognized = classify(input.as_str());
    write_length_prefixed(inst, recognition_record(recognized))
}

/// Recognition for a caller that cannot vouch for its arguments: answers as
/// `recognize` does where the input lies inside the memory and the memory can
/// take the result, and otherwise gives nothing and changes nothing.
pub fn try_recognize(inst: &mut Instance, ptr: i32, len: i32) -> (address: Option<i32>)
    requires
        old(inst)@.wf(),
    ensures
        address.is_some() == ({
            &&& old(inst)@.in_bounds(ptr as int, len as int)
            &&& old(inst)@.can_grow(
                frame_size(recognition(old(inst)@.region(ptr as int, len as int))),
            )
        }),
        address matches Some(a) ==> {
            &&& a == old(inst)@.top()
            &&& final(inst)@ == with_frame(
                old(inst)@,
                recognition(old(inst)@.region(ptr as int, len as int)),
            )
        },
        address.is_none() ==> final(inst)@ == old(inst)@,
        final(inst)@.wf(),
{
    if !inst.holds(ptr, len) {
        return None;
    }
    let input = read_input(inst, ptr, len);
    let record = recognition_record(classify(input.as_str()));
    proof {
        lemma_record_sizes();
    }
    if !inst.has_room(4 + record.len() as i32) {
        return None;
    }
    Some(recognize(inst, ptr, len))
}

/// The descriptor query answers with the same payload whatever the instance
/// holds and wherever it stands in its lifecycle.
pub proof fn law_info_is_stable(a: InstanceState, b: InstanceState)
    requires
        a.wf(),
        b.wf(),
        a.can_grow(frame_size(info_payload())),
        b.can_grow(frame_size(info_payload())),
    ensures
        payload_at(with_frame(a, info_payload()), a.top()) == info_payload(),
        payload_at(with_frame(a, info_payload()), a.top())
            == payload_at(with_frame(b, info_payload()), b.top()),
        text_of(payload_at(with_frame(a, info_payload()), a.top())) == INFO_RECORD@,
{
    law_frame_in_memory(a, info_payload());
    law_frame_in_memory(b, info_payload());
    encode_utf8_valid_utf8(INFO_RECORD@);
    encode_utf8_decode_utf8(INFO_RECORD@);
}

/// Recognition answers the same input bytes with the same record, whatever
/// else the instance holds, wherever the input stands, and wherever the
/// instance stands in its lifecycle.
pub proof fn law_recognition_is_deterministic(
    a: InstanceState,
    a_ptr: int,
    b: InstanceState,
    b_ptr: int,
    len: int,
)
    requires
        a.wf(),
        b.wf(),
        a.in_bounds(a_ptr, len),
        b.in_bounds(b_ptr, len),
        a.region(a_ptr, len) == b.region(b_ptr, len),
        a.can_grow(frame_size(recognition(a.region(a_ptr, len)))),
        b.can_grow(frame_size(recognition(b.region(b_ptr, len)))),
    ensures
        payload_at(with_frame(a, recognition(a.region(a_ptr, len))), a.top())
            == payload_at(with_frame(b, recognition(b.region(b_ptr, len))), b.top()),
{
    law_frame_in_memory(a, recognition(a.region(a_ptr, len)));
    law_frame_in_memory(b, recognition(b.region(b_ptr, len)));
}

/// Recognition on an instance that was never loaded answers as it does on a
/// loaded one and leaves the allocator sound: the invariant holds, the
/// instance is still unloaded, what was live stays live, and the one new
/// region is the result, which the host can release.
pub proof fn law_recognition_out_of_order(state: InstanceState, ptr: int, len: int)
    requires
        state.wf(),
        state.lifecycle == Lifecycle::Unloaded,
        state.in_bounds(ptr, len),
        state.can_grow(frame_size(recognition(state.region(ptr, len)))),
    ensures
        ({
            let loaded = InstanceState { lifecycle: Lifecycle::Loaded, ..state };
            let payload = recognition(state.region(ptr, len));
            let next = with_frame(state, payload);
            &&& next.wf()
            &&& next.lifecycle == Lifecycle::Unloaded
            &&& next.memory == with_frame(loaded, payload).memory
            &&& next.live == with_frame(loaded, payload).live
            &&& next.live == state.live.insert(
                Allocation { address: state.top(), size: frame_size(payload) },
            )
            &&& next.released(state.top(), frame_size(payload)).wf()
            &&& next.released(state.top(), frame_size(payload)).live == state.live
        }),
{
    let payload = recognition(state.region(ptr, len));
    let next = with_frame(state, payload);
    law_frame_in_memory(state, payload);
    law_release_undoes_allocation(state, frame_size(payload), next, state.top());
}

} // verus!
