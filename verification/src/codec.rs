//! Trusted boundary to the outside parsers and serializers: textual JSON and
//! MessagePack readers that produce a generic JSON-like tree, UTF-8 decoding,
//! and the two JSON serializers used for rendering.

use vstd::prelude::*;

verus! {

#[verifier::external_type_specification]
#[verifier::external_body]
pub struct ExJsonValue(serde_json::Value);

/// The JSON-like tree that a byte sequence parses to as textual JSON, if it
/// is valid JSON text; what `serde_json::from_slice` returns.
pub uninterp spec fn json_parsed(b: Seq<u8>) -> Option<serde_json::Value>;

/// The first MessagePack value encoded at the start of a byte sequence,
/// read as a JSON-like tree, together with the number of bytes it occupies;
/// what `rmp_serde`'s deserializer returns. A sequence is a complete
/// MessagePack document only when that count equals its length.
pub uninterp spec fn msgpack_prefix(b: Seq<u8>) -> Option<(serde_json::Value, nat)>;

/// The JSON-like tree of a byte sequence that is a complete MessagePack
/// document: one value whose encoding takes the whole sequence. Trailing
/// bytes disqualify it.
pub open spec fn msgpack_document(b: Seq<u8>) -> Option<serde_json::Value> {
    match msgpack_prefix(b) {
        Some(p) => if p.1 == b.len() {
            Some(p.0)
        } else {
            None
        },
        None => None,
    }
}

/// The UTF-8 decoding of a byte sequence, if the bytes are valid UTF-8.
pub uninterp spec fn utf8_decoding(b: Seq<u8>) -> Option<Seq<char>>;

/// The compact, single-line JSON serialization of a parsed tree.
pub uninterp spec fn json_compact(v: serde_json::Value) -> Seq<char>;

/// The pretty-printed, indented JSON serialization of a parsed tree.
pub uninterp spec fn json_pretty(v: serde_json::Value) -> Seq<char>;

/// Whether a rendering stays on a single line.
pub open spec fn single_line(s: Seq<char>) -> bool {
    forall|i: int| 0 <= i < s.len() ==> s[i] != '\n'
}

/// Relies on `serde_json::from_slice`: it accepts exactly the byte
/// sequences that are one complete JSON text, the parsed tree depends on
/// the bytes alone, and the call never panics.
#[verifier::external_body]
pub(crate) fn json_from_bytes(b: &Vec<u8>) -> (r: Option<serde_json::Value>)
    ensures
        r == json_parsed(b@),
{
    serde_json::from_slice::<serde_json::Value>(b).ok()
}

/// Relies on `rmp_serde::decode::from_read` over a cursor: it reads one
/// MessagePack value from the front of the input (with bounded recursion
/// depth and without panicking), and the cursor's position then reports
/// how many bytes the value occupied. Both the tree and the count depend
/// on the bytes alone. Trailing bytes are not an error here: the caller
/// checks the count.
#[verifier::external_body]
pub(crate) fn msgpack_prefix_from_bytes(b: &Vec<u8>) -> (r: Option<(serde_json::Value, usize)>)
    ensures
        r is Some <==> msgpack_prefix(b@) is Some,
        r is Some ==> (r->0).0 == (msgpack_prefix(b@)->0).0,
        r is Some ==> ((r->0).1 as nat) == (msgpack_prefix(b@)->0).1,
        r is Some ==> (r->0).1 <= b@.len(),
{
    let mut cursor = std::io::Cursor::new(b.as_slice());
    match rmp_serde::decode::from_read::<_, serde_json::Value>(&mut cursor) {
        Ok(v) => Some((v, cursor.position() as usize)),
        Err(_) => None,
    }
}

/// Relies on `String::from_utf8`: it succeeds exactly on valid UTF-8 input,
/// the decoded characters depend on the bytes alone, and the call never
/// panics.
#[verifier::external_body]
pub(crate) fn utf8_from_bytes(b: &Vec<u8>) -> (r: Option<String>)
    ensures
        r is Some <==> utf8_decoding(b@) is Some,
        r is Some ==> r->0@ == utf8_decoding(b@)->0,
{
    String::from_utf8(b.clone()).ok()
}

/// Relies on `serde_json::to_string`: on an already-parsed tree it cannot
/// fail (such a tree only holds maps with string keys and its serializer
/// never errors), the output depends on the tree alone, and it holds no
/// newline — the compact formatter writes no whitespace and escapes every
/// control character inside strings.
#[verifier::external_body]
pub(crate) fn json_to_compact(v: &serde_json::Value) -> (r: String)
    ensures
        r@ == json_compact(*v),
        single_line(r@),
{
    serde_json::to_string(v).unwrap()
}

/// Relies on `serde_json::to_string_pretty`: on an already-parsed tree it
/// cannot fail, and the output depends on the tree alone.
#[verifier::external_body]
pub(crate) fn json_to_pretty(v: &serde_json::Value) -> (r: String)
    ensures
        r@ == json_pretty(*v),
{
    serde_json::to_string_pretty(v).unwrap()
}

} // verus!
