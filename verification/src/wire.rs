//! The wire format of a greeting: a four-byte little-endian length followed
//! by that many bytes of UTF-8 text.

use vstd::prelude::*;
use vstd::utf8::{decode_utf8, encode_utf8, valid_utf8};

verus! {

/// The four little-endian bytes that stand for `n`: its base-256 digits,
/// lowest first.
pub open spec fn length_prefix(n: nat) -> Seq<u8> {
    seq![
        (n % 256) as u8,
        (n / 256 % 256) as u8,
        (n / 256 / 256 % 256) as u8,
        (n / 256 / 256 / 256 % 256) as u8,
    ]
}

/// The number that the first four bytes of `bytes` stand for.
pub open spec fn prefix_value(bytes: Seq<u8>) -> nat
    recommends
        bytes.len() >= 4,
{
    (bytes[0] as nat) + 256 * (bytes[1] as nat) + 65536 * (bytes[2] as nat) + 16777216 * (
    bytes[3] as nat)
}

/// A text can be written when its UTF-8 length fits the prefix.
pub open spec fn encodable(text: Seq<char>) -> bool {
    encode_utf8(text).len() <= u32::MAX
}

/// The bytes that stand for `text`.
pub open spec fn wire_bytes(text: Seq<char>) -> Seq<u8> {
    length_prefix(encode_utf8(text).len()) + encode_utf8(text)
}

/// The text that `bytes` stand for, if they are a well-formed record: a
/// prefix, exactly as many further bytes as it announces, and those valid
/// UTF-8.
pub open spec fn parse_wire(bytes: Seq<u8>) -> Option<Seq<char>> {
    if bytes.len() >= 4 && prefix_value(bytes) == bytes.len() - 4 && valid_utf8(bytes.skip(4)) {
        Some(decode_utf8(bytes.skip(4)))
    } else {
        None
    }
}

/// `std::io::Error`, in which borsh reports a failure. It is carried
/// through unopened.
#[verifier::external_type_specification]
#[verifier::external_body]
pub struct ExIoError(std::io::Error);

/// Calls `borsh::to_vec` on a `String`. Trusted, not proved: borsh writes
/// the byte length of the text as a little-endian `u32` and then the text's
/// UTF-8 bytes, and it fails exactly when that length does not fit in a
/// `u32`.
#[verifier::external_body]
pub(crate) fn borsh_write_text(text: &String) -> (r: Result<Vec<u8>, std::io::Error>)
    ensures
        r is Ok <==> encodable(text@),
        r is Ok ==> r->Ok_0@ == wire_bytes(text@),
{
    borsh::to_vec(text)
}

/// Calls borsh's `BorshDeserialize::try_from_slice` for `String`. Trusted,
/// not proved: borsh reads a little-endian `u32`, then that many bytes, and
/// succeeds exactly when they are all there, are valid UTF-8, and nothing
/// follows them; the text it returns is the one those bytes spell.
#[verifier::external_body]
pub(crate) fn borsh_read_text(bytes: &[u8]) -> (r: Result<String, std::io::Error>)
    ensures
        r is Ok <==> parse_wire(bytes@) is Some,
        r is Ok ==> parse_wire(bytes@) == Some(r->Ok_0@),
{
    borsh::BorshDeserialize::try_from_slice(bytes)
}

/// Writing and then reading a text gives the text back.
pub proof fn lemma_parse_of_wire_bytes(text: Seq<char>)
    requires
        encodable(text),
    ensures
        parse_wire(wire_bytes(text)) == Some(text),
{
    let body = encode_utf8(text);
    let bytes = wire_bytes(text);
    vstd::utf8::encode_utf8_valid_utf8(text);
    vstd::utf8::encode_utf8_decode_utf8(text);
    assert(bytes.skip(4) =~= body);
    assert(prefix_value(bytes) == body.len());
}

/// A digit below 256 and the rest above it come apart again.
proof fn lemma_split_digit(low: int, high: int)
    requires
        0 <= low < 256,
        0 <= high,
    ensures
        (low + 256 * high) % 256 == low,
        (low + 256 * high) / 256 == high,
{
}

/// Four bytes are the prefix of the number they stand for.
proof fn lemma_prefix_of_value(b0: u8, b1: u8, b2: u8, b3: u8)
    ensures
        length_prefix(prefix_value(seq![b0, b1, b2, b3])) == seq![b0, b1, b2, b3],
        prefix_value(seq![b0, b1, b2, b3]) <= u32::MAX,
{
    let n3: int = b3 as int;
    let n2: int = b2 as int + 256 * n3;
    let n1: int = b1 as int + 256 * n2;
    let n0: int = b0 as int + 256 * n1;
    assert(prefix_value(seq![b0, b1, b2, b3]) == n0);
    lemma_split_digit(b0 as int, n1);
    lemma_split_digit(b1 as int, n2);
    lemma_split_digit(b2 as int, n3);
    lemma_split_digit(b3 as int, 0);
    assert(n0 / 256 == n1);
    assert(n0 / 256 / 256 == n2);
    assert(n0 / 256 / 256 / 256 == n3);
    assert(length_prefix(n0 as nat) =~= seq![b0, b1, b2, b3]);
}

/// Whatever parses is the only encoding of the text it parses to.
pub proof fn lemma_wire_bytes_of_parse(bytes: Seq<u8>)
    requires
        parse_wire(bytes) is Some,
    ensures
        encodable(parse_wire(bytes)->Some_0),
        wire_bytes(parse_wire(bytes)->Some_0) == bytes,
{
    let body = bytes.skip(4);
    let head = seq![bytes[0], bytes[1], bytes[2], bytes[3]];
    vstd::utf8::decode_utf8_encode_utf8(body);
    lemma_prefix_of_value(bytes[0], bytes[1], bytes[2], bytes[3]);
    assert(prefix_value(head) == prefix_value(bytes));
    assert(head + body =~= bytes);
}

} // verus!
