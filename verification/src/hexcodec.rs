//! Lowercase hexadecimal, through the `hex` crate.

use vstd::prelude::*;

verus! {

/// The lowercase hex digit of a nibble.
pub open spec fn hex_digit(n: int) -> char {
    if n < 10 {
        (n + 48) as char
    } else {
        (n + 87) as char
    }
}

/// Each byte as two lowercase hex digits, high nibble first.
pub open spec fn hex_lower(b: Seq<u8>) -> Seq<char>
    decreases b.len(),
{
    if b.len() == 0 {
        Seq::empty()
    } else {
        seq![hex_digit((b[0] / 16) as int), hex_digit((b[0] % 16) as int)] + hex_lower(b.drop_first())
    }
}

/// Whether a character is a hex digit, in either case.
pub open spec fn is_hex_char(c: char) -> bool {
    ('0' <= c && c <= '9') || ('a' <= c && c <= 'f') || ('A' <= c && c <= 'F')
}

/// The value of a hex digit.
pub open spec fn hex_val(c: char) -> int {
    if '0' <= c && c <= '9' {
        c as int - 48
    } else if 'a' <= c && c <= 'f' {
        c as int - 87
    } else {
        c as int - 55
    }
}

/// Whether `hex::decode` accepts a string: an even number of hex digits.
pub open spec fn hex_valid(s: Seq<char>) -> bool {
    &&& s.len() % 2 == 0
    &&& forall|i: int| 0 <= i < s.len() ==> is_hex_char(#[trigger] s[i])
}

/// The bytes that a valid hex string stands for.
pub open spec fn hex_bytes(s: Seq<char>) -> Seq<u8> {
    Seq::new(s.len() / 2, |i: int| (hex_val(s[2 * i]) * 16 + hex_val(s[2 * i + 1])) as u8)
}

/// The text of the error that `hex::decode` reports for a string it refuses.
pub uninterp spec fn hex_decode_message(s: Seq<char>) -> Seq<char>;

/// Calls `hex::encode`. Claims that the result is `hex_lower` of the bytes.
#[verifier::external_body]
pub(crate) fn hex_encode(bytes: &[u8]) -> (r: String)
    ensures
        r@ == hex_lower(bytes@),
{
    hex::encode(bytes)
}

/// Calls `hex::decode` and renders its error with `to_string`. Claims that it succeeds exactly on
/// an even number of hex digits, with the bytes they stand for, and that the error text is a
/// function of the input alone.
#[verifier::external_body]
pub(crate) fn hex_decode(s: &str) -> (r: Result<Vec<u8>, String>)
    ensures
        r is Ok <==> hex_valid(s@),
        r matches Ok(v) ==> v@ == hex_bytes(s@),
        r matches Err(m) ==> m@ == hex_decode_message(s@),
{
    hex::decode(s).map_err(|e| e.to_string())
}

/// Encoding then decoding gives the bytes back.
pub proof fn lemma_hex_roundtrip(b: Seq<u8>)
    ensures
        hex_lower(b).len() == 2 * b.len(),
        hex_valid(hex_lower(b)),
        hex_bytes(hex_lower(b)) =~= b,
    decreases b.len(),
{
    if b.len() > 0 {
        lemma_hex_roundtrip(b.drop_first());
        let t = hex_lower(b.drop_first());
        let h = hex_lower(b);
        assert(h =~= seq![hex_digit((b[0] / 16) as int), hex_digit((b[0] % 16) as int)] + t);
        assert forall|i: int| 0 <= i < h.len() implies is_hex_char(#[trigger] h[i]) by {
            if i >= 2 {
                assert(h[i] == t[i - 2]);
            }
        }
        assert forall|i: int| 0 <= i < b.len() implies #[trigger] hex_bytes(h)[i] == b[i] by {
            if i == 0 {
                assert(hex_val(h[0]) == b[0] / 16);
                assert(hex_val(h[1]) == b[0] % 16);
            } else {
                assert(h[2 * i] == t[2 * (i - 1)]);
                assert(h[2 * i + 1] == t[2 * (i - 1) + 1]);
                assert(hex_bytes(t)[i - 1] == b.drop_first()[i - 1]);
            }
        }
    }
}

} // verus!
