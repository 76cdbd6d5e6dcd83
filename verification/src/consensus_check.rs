//! The startup check of the consensus rules: the BLAKE3 digest of the text that
//! defines the protocol constants, line endings normalised, must equal the
//! digest the node was built with.
use vstd::prelude::*;
use vstd::string::{StrSliceExecFns, StringExecFns};
use vstd::utf8::encode_utf8;
use crate::codec::{hex_encode, hex_text};
use crate::primitives::{blake3_digest, blake3_hash};

verus! {

/// A text with every CR LF pair replaced by a single LF.
pub open spec fn crlf_to_lf(s: Seq<char>) -> Seq<char>
    decreases s.len(),
{
    if s.len() == 0 {
        Seq::empty()
    } else if s.len() >= 2 && s[s.len() - 2] == '\r' && s[s.len() - 1] == '\n' {
        crlf_to_lf(s.take(s.len() - 2)).push('\n')
    } else {
        crlf_to_lf(s.drop_last()).push(s.last())
    }
}

/// The consensus hash of a constants text: the lowercase hex of the BLAKE3
/// digest of its UTF-8 bytes, CR LF pairs replaced by LF.
pub open spec fn consensus_hash_text(constants_text: Seq<char>) -> Seq<char> {
    hex_text(blake3_digest(encode_utf8(crlf_to_lf(constants_text))))
}

/// The text with every CR LF pair replaced by a single LF.
pub fn normalize_newlines(text: &str) -> (s: String)
    ensures
        s@ == crlf_to_lf(text@),
{
    let n = text.unicode_len();
    let mut out = String::new();
    let mut i: usize = 0;
    while i < n
        invariant
            n == text@.len(),
            i <= n,
            out@ == crlf_to_lf(text@.take(i as int)),
            0 < i < n ==> !(text@[i - 1] == '\r' && text@[i as int] == '\n'),
        decreases n - i,
    {
        let c = text.get_char(i);
        if c == '\r' && i + 1 < n && text.get_char(i + 1) == '\n' {
            out.append("\n");
            proof {
                let t = text@.take(i + 2);
                assert(t.take(t.len() - 2) =~= text@.take(i as int));
                reveal_strlit("\n");
                assert("\n"@ =~= seq!['\n']);
            }
            i = i + 2;
        } else {
            let one = text.substring_char(i, i + 1);
            out.append(one);
            proof {
                let t = text@.take(i + 1);
                assert(t.drop_last() =~= text@.take(i as int));
                assert(one@ =~= seq![c]);
                assert(t.last() == c);
            }
            i = i + 1;
        }
    }
    proof {
        assert(text@.take(n as int) =~= text@);
    }
    out
}

/// The consensus hash of a constants text (see `consensus_hash_text`).
pub fn consensus_hash_of(constants_text: &str) -> (h: String)
    ensures
        h@ == consensus_hash_text(constants_text@),
{
    let normalized = normalize_newlines(constants_text);
    let digest = blake3_hash(normalized.as_str().as_bytes());
    hex_encode(&digest)
}

/// Whether the consensus rules are intact: the constants text hashes to the
/// expected hex digest.
pub fn consensus_rules_intact(constants_text: &str, expected_hex: &str) -> (ok: bool)
    ensures
        ok == (consensus_hash_text(constants_text@) == expected_hex@),
{
    let h = consensus_hash_of(constants_text);
    let expected = String::from_str(expected_hex);
    h == expected
}

} // verus!
