//! The byte-format classifier and its renderings: every stored byte string is
//! interpreted, with a fixed precedence, as textual JSON, plain UTF-8 text, a
//! MessagePack document, or opaque raw bytes.

use vstd::prelude::*;

use crate::codec::json_compact;
use crate::codec::json_from_bytes;
use crate::codec::json_parsed;
use crate::codec::json_pretty;
use crate::codec::json_to_compact;
use crate::codec::json_to_pretty;
use crate::codec::msgpack_document;
use crate::codec::msgpack_prefix_from_bytes;
use crate::codec::single_line;
use crate::codec::utf8_decoding;
use crate::codec::utf8_from_bytes;

verus! {

/// All the ways stored bytes can be interpreted; exactly one variant is
/// produced per input.
#[derive(Debug)]
pub enum SemanticValue {
    /// The bytes parse as textual JSON.
    StructuredJson(serde_json::Value),
    /// The bytes parse as a MessagePack document but not as text.
    StructuredBinary(serde_json::Value),
    /// The bytes are valid UTF-8 but not JSON.
    PlainText(String),
    /// None of the above; the bytes are kept as they are.
    RawBytes(Vec<u8>),
}

/// What classification promises: the interpretations are attempted in a
/// fixed, total order — textual JSON first, then UTF-8 text, then a
/// complete MessagePack document (one value whose encoding consumes the
/// whole input), and raw bytes as the universal fallback.
pub open spec fn classified(b: Seq<u8>, v: SemanticValue) -> bool {
    if json_parsed(b) is Some {
        v == SemanticValue::StructuredJson(json_parsed(b)->0)
    } else if utf8_decoding(b) is Some {
        v is PlainText && v->PlainText_0@ == utf8_decoding(b)->0
    } else if msgpack_document(b) is Some {
        v == SemanticValue::StructuredBinary(msgpack_document(b)->0)
    } else {
        v is RawBytes && v->RawBytes_0@ == b
    }
}

/// Interprets a byte string. Total: no input is rejected. A MessagePack
/// parse counts only when it consumes the whole input: a value followed by
/// trailing bytes is no document and falls through to raw bytes.
pub fn classify(bytes: Vec<u8>) -> (r: SemanticValue)
    ensures
        classified(bytes@, r),
{
    match json_from_bytes(&bytes) {
        Some(v) => {
            return SemanticValue::StructuredJson(v);
        },
        None => {},
    }
    match utf8_from_bytes(&bytes) {
        Some(s) => {
            return SemanticValue::PlainText(s);
        },
        None => {},
    }
    match msgpack_prefix_from_bytes(&bytes) {
        Some((v, used)) => {
            if used == bytes.len() {
                return SemanticValue::StructuredBinary(v);
            }
        },
        None => {},
    }
    SemanticValue::RawBytes(bytes)
}

/// Classification is deterministic: any two outcomes that `classified`
/// admits for the same bytes agree on the variant, on the parsed tree for
/// the structured variants, and on the payload for the text and raw
/// variants.
pub proof fn lemma_classify_deterministic(b: Seq<u8>, v1: SemanticValue, v2: SemanticValue)
    requires
        classified(b, v1),
        classified(b, v2),
    ensures
        v1 is StructuredJson <==> v2 is StructuredJson,
        v1 is StructuredBinary <==> v2 is StructuredBinary,
        v1 is PlainText <==> v2 is PlainText,
        v1 is RawBytes <==> v2 is RawBytes,
        v1 is StructuredJson ==> v1->StructuredJson_0 == v2->StructuredJson_0,
        v1 is StructuredBinary ==> v1->StructuredBinary_0 == v2->StructuredBinary_0,
        v1 is PlainText ==> v1->PlainText_0@ == v2->PlainText_0@,
        v1 is RawBytes ==> v1->RawBytes_0@ == v2->RawBytes_0@,
{
}

/// Precedence: bytes that are valid textual JSON always classify as
/// structured JSON and never as plain text, although JSON text is also
/// valid UTF-8.
pub proof fn lemma_json_precedence(b: Seq<u8>, v: SemanticValue)
    requires
        classified(b, v),
        json_parsed(b) is Some,
    ensures
        v is StructuredJson,
        !(v is PlainText),
{
}

/// The lowercase hex digit for one value below sixteen.
pub open spec fn hex_digit_char(n: u8) -> char {
    if n == 0 {
        '0'
    } else if n == 1 {
        '1'
    } else if n == 2 {
        '2'
    } else if n == 3 {
        '3'
    } else if n == 4 {
        '4'
    } else if n == 5 {
        '5'
    } else if n == 6 {
        '6'
    } else if n == 7 {
        '7'
    } else if n == 8 {
        '8'
    } else if n == 9 {
        '9'
    } else if n == 10 {
        'a'
    } else if n == 11 {
        'b'
    } else if n == 12 {
        'c'
    } else if n == 13 {
        'd'
    } else if n == 14 {
        'e'
    } else {
        'f'
    }
}

/// The lowercase hex rendering of a byte sequence, two digits per byte.
pub open spec fn hex_of(b: Seq<u8>) -> Seq<char>
    decreases b.len(),
{
    if b.len() == 0 {
        Seq::empty()
    } else {
        seq![hex_digit_char(b[0] / 16), hex_digit_char(b[0] % 16)] + hex_of(b.skip(1))
    }
}

proof fn lemma_hex_of_push(s: Seq<u8>, x: u8)
    ensures
        hex_of(s.push(x)) == hex_of(s) + seq![hex_digit_char(x / 16), hex_digit_char(x % 16)],
    decreases s.len(),
{
    if s.len() == 0 {
        assert(s.push(x).skip(1) =~= Seq::<u8>::empty());
        assert(s.push(x)[0] == x);
        assert(hex_of(s.push(x).skip(1)) =~= Seq::<char>::empty());
        assert(hex_of(s.push(x)) =~= hex_of(s) + seq![
            hex_digit_char(x / 16),
            hex_digit_char(x % 16),
        ]);
    } else {
        lemma_hex_of_push(s.skip(1), x);
        assert(s.push(x).skip(1) =~= s.skip(1).push(x));
        assert(hex_of(s.push(x)) =~= hex_of(s) + seq![
            hex_digit_char(x / 16),
            hex_digit_char(x % 16),
        ]);
    }
}

fn hex_digit_str(n: u8) -> (r: &'static str)
    requires
        n < 16,
    ensures
        r@ == seq![hex_digit_char(n)],
{
    if n == 0 {
        proof {
            reveal_strlit("0");
            assert("0"@ =~= seq![hex_digit_char(0u8)]);
        }
        "0"
    } else if n == 1 {
        proof {
            reveal_strlit("1");
            assert("1"@ =~= seq![hex_digit_char(1u8)]);
        }
        "1"
    } else if n == 2 {
        proof {
            reveal_strlit("2");
            assert("2"@ =~= seq![hex_digit_char(2u8)]);
        }
        "2"
    } else if n == 3 {
        proof {
            reveal_strlit("3");
            assert("3"@ =~= seq![hex_digit_char(3u8)]);
        }
        "3"
    } else if n == 4 {
        proof {
            reveal_strlit("4");
            assert("4"@ =~= seq![hex_digit_char(4u8)]);
        }
        "4"
    } else if n == 5 {
        proof {
            reveal_strlit("5");
            assert("5"@ =~= seq![hex_digit_char(5u8)]);
        }
        "5"
    } else if n == 6 {
        proof {
            reveal_strlit("6");
            assert("6"@ =~= seq![hex_digit_char(6u8)]);
        }
        "6"
    } else if n == 7 {
        proof {
            reveal_strlit("7");
            assert("7"@ =~= seq![hex_digit_char(7u8)]);
        }
        "7"
    } else if n == 8 {
        proof {
            reveal_strlit("8");
            assert("8"@ =~= seq![hex_digit_char(8u8)]);
        }
        "8"
    } else if n == 9 {
        proof {
            reveal_strlit("9");
            assert("9"@ =~= seq![hex_digit_char(9u8)]);
        }
        "9"
    } else if n == 10 {
        proof {
            reveal_strlit("a");
            assert("a"@ =~= seq![hex_digit_char(10u8)]);
        }
        "a"
    } else if n == 11 {
        proof {
            reveal_strlit("b");
            assert("b"@ =~= seq![hex_digit_char(11u8)]);
        }
        "b"
    } else if n == 12 {
        proof {
            reveal_strlit("c");
            assert("c"@ =~= seq![hex_digit_char(12u8)]);
        }
        "c"
    } else if n == 13 {
        proof {
            reveal_strlit("d");
            assert("d"@ =~= seq![hex_digit_char(13u8)]);
        }
        "d"
    } else if n == 14 {
        proof {
            reveal_strlit("e");
            assert("e"@ =~= seq![hex_digit_char(14u8)]);
        }
        "e"
    } else {
        proof {
            reveal_strlit("f");
            assert("f"@ =~= seq![hex_digit_char(15u8)]);
        }
        "f"
    }
}

/// Renders bytes as lowercase hex with a radix prefix.
fn hex_render(b: &Vec<u8>) -> (r: String)
    ensures
        r@ == seq!['0', 'x'] + hex_of(b@),
{
    let mut r = String::from_str("0x");
    proof {
        reveal_strlit("0x");
        assert(r@ =~= seq!['0', 'x']);
        assert(b@.take(0) =~= Seq::<u8>::empty());
        assert(r@ =~= seq!['0', 'x'] + hex_of(b@.take(0)));
    }
    let mut i: usize = 0;
    while i < b.len()
        invariant
            i <= b.len(),
            r@ == seq!['0', 'x'] + hex_of(b@.take(i as int)),
        decreases b.len() - i,
    {
        let byte = b[i];
        r.append(hex_digit_str(byte / 16));
        r.append(hex_digit_str(byte % 16));
        proof {
            assert(b@.take(i + 1) =~= b@.take(i as int).push(b@[i as int]));
            lemma_hex_of_push(b@.take(i as int), b@[i as int]);
            assert(r@ =~= seq!['0', 'x'] + hex_of(b@.take(i + 1)));
        }
        i = i + 1;
    }
    proof {
        assert(b@.take(b@.len() as int) =~= b@);
    }
    r
}

/// Wraps text in double quotes.
fn quoted(s: &str) -> (r: String)
    ensures
        r@ == seq!['"'] + s@ + seq!['"'],
{
    let mut r = String::from_str("\"");
    r.append(s);
    r.append("\"");
    proof {
        reveal_strlit("\"");
        assert("\""@ =~= seq!['"']);
        assert(r@ =~= seq!['"'] + s@ + seq!['"']);
    }
    r
}

/// The compact, single-line rendering of a classified value: structured
/// variants serialize compactly, text is quoted, bytes are lowercase hex
/// with a radix prefix.
pub open spec fn compact_render(v: SemanticValue) -> Seq<char> {
    match v {
        SemanticValue::StructuredJson(j) => json_compact(j),
        SemanticValue::StructuredBinary(j) => json_compact(j),
        SemanticValue::PlainText(s) => seq!['"'] + s@ + seq!['"'],
        SemanticValue::RawBytes(b) => seq!['0', 'x'] + hex_of(b@),
    }
}

/// The long rendering: structured variants are pretty-printed with
/// indentation, text and bytes render as in the compact form.
pub open spec fn long_render(v: SemanticValue) -> Seq<char> {
    match v {
        SemanticValue::StructuredJson(j) => json_pretty(j),
        SemanticValue::StructuredBinary(j) => json_pretty(j),
        SemanticValue::PlainText(s) => seq!['"'] + s@ + seq!['"'],
        SemanticValue::RawBytes(b) => seq!['0', 'x'] + hex_of(b@),
    }
}

impl SemanticValue {
    /// The compact rendering. Pure formatting: never fails; a structured
    /// value renders on a single line.
    pub fn pretty(&self) -> (r: String)
        ensures
            r@ == compact_render(*self),
            *self is StructuredJson || *self is StructuredBinary ==> single_line(r@),
    {
        match self {
            SemanticValue::StructuredJson(j) => json_to_compact(j),
            SemanticValue::StructuredBinary(j) => json_to_compact(j),
            SemanticValue::PlainText(s) => quoted(s.as_str()),
            SemanticValue::RawBytes(b) => hex_render(b),
        }
    }

    /// The long rendering, pretty-printed for structured variants. Pure
    /// formatting: never fails.
    pub fn pretty_long(&self) -> (r: String)
        ensures
            r@ == long_render(*self),
    {
        match self {
            SemanticValue::StructuredJson(j) => json_to_pretty(j),
            SemanticValue::StructuredBinary(j) => json_to_pretty(j),
            SemanticValue::PlainText(s) => quoted(s.as_str()),
            SemanticValue::RawBytes(b) => hex_render(b),
        }
    }
}

} // verus!
