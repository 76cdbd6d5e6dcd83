//! Text encodings of byte strings (hex and Base58), provided by the `hex` and `bs58` crates.
use vstd::prelude::*;

verus! {

/// The lowercase hex digit of a value below 16.
pub open spec fn hex_digit(n: u8) -> char {
    if n < 10 {
        ((n + 48) as u8) as char
    } else {
        ((n + 87) as u8) as char
    }
}

/// The value of a hex digit (either case), if it is one.
pub open spec fn hex_value(c: char) -> Option<u8> {
    if '0' <= c && c <= '9' {
        Some(((c as u32) - 48) as u8)
    } else if 'a' <= c && c <= 'f' {
        Some(((c as u32) - 87) as u8)
    } else if 'A' <= c && c <= 'F' {
        Some(((c as u32) - 55) as u8)
    } else {
        None
    }
}

/// The lowercase hex text of a byte string: two digits per byte, high digit first.
pub open spec fn hex_text(bytes: Seq<u8>) -> Seq<char>
    decreases bytes.len(),
{
    if bytes.len() == 0 {
        Seq::empty()
    } else {
        hex_text(bytes.drop_last()) + seq![hex_digit(bytes.last() / 16), hex_digit(bytes.last() % 16)]
    }
}

/// The bytes a hex text encodes: `None` for an odd length or a character that is
/// not a hex digit.
pub open spec fn hex_bytes(text: Seq<char>) -> Option<Seq<u8>>
    decreases text.len(),
{
    if text.len() == 0 {
        Some(Seq::empty())
    } else if text.len() == 1 {
        None
    } else {
        match (hex_bytes(text.subrange(0, text.len() - 2)), hex_value(text[text.len() - 2]), hex_value(
            text[text.len() - 1],
        )) {
            (Some(front), Some(hi), Some(lo)) => Some(front.push((hi * 16 + lo) as u8)),
            _ => None,
        }
    }
}

/// The hex text of `bytes` has two characters per byte.
pub proof fn lemma_hex_text_len(bytes: Seq<u8>)
    ensures
        hex_text(bytes).len() == 2 * bytes.len(),
    decreases bytes.len(),
{
    if bytes.len() > 0 {
        lemma_hex_text_len(bytes.drop_last());
    }
}

/// Law: hex text decodes back to the bytes it was written from.
pub proof fn law_hex_roundtrip(bytes: Seq<u8>)
    ensures
        hex_bytes(hex_text(bytes)) == Some(bytes),
    decreases bytes.len(),
{
    if bytes.len() > 0 {
        let front = bytes.drop_last();
        let b = bytes.last();
        law_hex_roundtrip(front);
        lemma_hex_text_len(front);
        let t = hex_text(bytes);
        assert(t.subrange(0, t.len() - 2) =~= hex_text(front));
        let hi = b / 16;
        let lo = b % 16;
        assert(hex_value(hex_digit(hi)) == Some(hi));
        assert(hex_value(hex_digit(lo)) == Some(lo));
        assert(t[t.len() - 2] == hex_digit(hi));
        assert(t[t.len() - 1] == hex_digit(lo));
        assert((hi * 16 + lo) as u8 == b);
        assert(front.push(b) =~= bytes);
    }
}

/// The Base58 (Bitcoin alphabet) text of a byte string, as `bs58::encode(..).into_string()` writes it.
pub uninterp spec fn base58_text(bytes: Seq<u8>) -> Seq<char>;

/// What `bs58::decode(..).into_vec()` reads from a text: the bytes, or `None` where it reports an error.
pub uninterp spec fn base58_bytes(text: Seq<char>) -> Option<Seq<u8>>;

/// `hex::encode`: two lowercase hex digits per byte (`hex_text`).
#[verifier::external_body]
pub fn hex_encode(bytes: &[u8]) -> (text: String)
    ensures
        text@ == hex_text(bytes@),
{
    hex::encode(bytes)
}

/// `hex::decode`: `Ok` exactly where `hex_bytes` is `Some` (even length, every
/// character a hex digit of either case), with those bytes. The text of the
/// error is not stated.
#[verifier::external_body]
pub fn hex_decode(text: &str) -> (res: core::result::Result<Vec<u8>, String>)
    ensures
        res is Ok <==> hex_bytes(text@) is Some,
        res matches Ok(v) ==> hex_bytes(text@) == Some(v@),
{
    hex::decode(text).map_err(|e| e.to_string())
}

/// `bs58::encode(..).into_string()`: the result is `base58_text` of the input, and
/// `bs58::decode` reads the input back from it (Base58 is lossless).
#[verifier::external_body]
pub fn base58_encode(bytes: &[u8]) -> (text: String)
    ensures
        text@ == base58_text(bytes@),
        base58_bytes(text@) == Some(bytes@),
{
    bs58::encode(bytes).into_string()
}

/// `bs58::decode(..).into_vec()`: `Ok` exactly where `base58_bytes` is `Some`, with
/// those bytes. The text of the error is not stated.
#[verifier::external_body]
pub fn base58_decode(text: &str) -> (res: core::result::Result<Vec<u8>, String>)
    ensures
        res is Ok <==> base58_bytes(text@) is Some,
        res matches Ok(v) ==> base58_bytes(text@) == Some(v@),
{
    bs58::decode(text).into_vec().map_err(|e| e.to_string())
}

} // verus!
