//! Content identifiers.

use vstd::prelude::*;

use crate::text::{after_prefix, begins_with, chars_of, joined};

verus! {

/// CID prefix. Present so a future hash change is visible rather than silent.
pub const CID_PREFIX: &'static str = "b3:";

/// The BLAKE3 digest of some bytes, in lowercase hexadecimal.
pub uninterp spec fn blake3_hex(data: Seq<u8>) -> Seq<char>;

/// Whether a character is a lowercase hexadecimal digit.
pub open spec fn is_lower_hex(c: char) -> bool {
    ('0' <= c && c <= '9') || ('a' <= c && c <= 'f')
}

/// Whether a string is the hexadecimal form of a digest.
pub open spec fn is_digest(hex: Seq<char>) -> bool {
    hex.len() == 64 && forall|i: int| 0 <= i < hex.len() ==> is_lower_hex(#[trigger] hex[i])
}

/// `blake3::hash` of the bytes, shown by `Hash::to_hex`.
///
/// The digest depends on the bytes alone. It has sixty-four characters, each a
/// lowercase hexadecimal digit. That different bytes have different digests is
/// not claimed.
#[verifier::external_body]
pub(crate) fn blake3_text(data: &[u8]) -> (hex: String)
    ensures
        hex@ == blake3_hex(data@),
        is_digest(hex@),
{
    String::from(blake3::hash(data).to_hex().as_str())
}

/// The CID of some bytes.
pub open spec fn cid_text(data: Seq<u8>) -> Seq<char> {
    "b3:"@ + blake3_hex(data)
}

/// Whether a string has the form of a CID.
pub open spec fn is_cid_text(value: Seq<char>) -> bool {
    after_prefix(value, "b3:"@) matches Some(hex) && is_digest(hex)
}

/// Compute the CID of some bytes.
pub fn cid(bytes: &[u8]) -> (cid: String)
    ensures
        cid@ == cid_text(bytes@),
        is_cid_text(cid@),
{
    let hex = blake3_text(bytes);
    let cid = joined(CID_PREFIX, hex.as_str());
    proof {
        lemma_cid_form(hex@);
    }
    cid
}

/// Whether a string is a syntactically valid CID.
pub fn is_cid(value: &str) -> (yes: bool)
    ensures
        yes == is_cid_text(value@),
{
    let chars = chars_of(value);
    proof {
        reveal_strlit("b3:");
        let head = value@.take(3);
        if value@.len() >= 3 && value@[0] == 'b' && value@[1] == '3' && value@[2] == ':' {
            assert(head == "b3:"@);
        }
        if begins_with(value@, "b3:"@) {
            assert(head[0] == 'b' && head[1] == '3' && head[2] == ':');
        }
    }
    if chars.len() != 67 || chars[0] != 'b' || chars[1] != '3' || chars[2] != ':' {
        return false;
    }
    let ghost hex = value@.skip(3);
    let mut i: usize = 3;
    while i < 67
        invariant
            3 <= i <= 67,
            chars@ == value@,
            value@.len() == 67,
            hex == value@.skip(3),
            after_prefix(value@, "b3:"@) == Some(hex),
            forall|j: int| 0 <= j < i - 3 ==> is_lower_hex(#[trigger] hex[j]),
        decreases 67 - i,
    {
        let c = chars[i];
        assert(hex[i - 3] == c);
        if !(('0' <= c && c <= '9') || ('a' <= c && c <= 'f')) {
            return false;
        }
        i += 1;
    }
    true
}

proof fn lemma_cid_form(hex: Seq<char>)
    ensures
        is_digest(hex) ==> is_cid_text("b3:"@ + hex),
        after_prefix("b3:"@ + hex, "b3:"@) == Some(hex),
{
    let value = "b3:"@ + hex;
    assert(value.take("b3:"@.len() as int) == "b3:"@);
    assert(value.skip("b3:"@.len() as int) == hex);
}

/// A CID is its prefix and a digest, and the digest determines it.
pub proof fn cid_is_prefix_and_digest(value: Seq<char>)
    requires
        is_cid_text(value),
    ensures
        value.len() == 67,
        value == "b3:"@ + value.skip(3),
        is_digest(value.skip(3)),
{
    reveal_strlit("b3:");
    assert(value == value.take(3) + value.skip(3));
}

/// Exactly the prefix followed by a digest is a CID.
pub proof fn prefixed_digest_is_cid(hex: Seq<char>)
    ensures
        is_cid_text("b3:"@ + hex) == is_digest(hex),
{
    lemma_cid_form(hex);
}

/// A CID is `b3:` and sixty-four hexadecimal digits, none of them a capital, and
/// nothing else is; and that of some bytes has their BLAKE3 digest behind the
/// prefix.
pub proof fn cids_by_character(value: Seq<char>, data: Seq<u8>)
    ensures
        is_cid_text(value) <==> {
            &&& value.len() == 67
            &&& value[0] == 'b' && value[1] == '3' && value[2] == ':'
            &&& forall|i: int|
                3 <= i < 67 ==> ('0' <= #[trigger] value[i] && value[i] <= '9') || ('a' <= value[i]
                    && value[i] <= 'f')
        },
        cid_text(data) == seq!['b', '3', ':'] + blake3_hex(data),
{
    reveal_strlit("b3:");
    assert("b3:"@ == seq!['b', '3', ':']);
    let head = value.take(3);
    let hex = value.skip(3);
    if is_cid_text(value) {
        cid_is_prefix_and_digest(value);
        assert(head[0] == 'b' && head[1] == '3' && head[2] == ':');
        assert forall|i: int| 3 <= i < 67 implies ('0' <= #[trigger] value[i] && value[i] <= '9')
            || ('a' <= value[i] && value[i] <= 'f') by {
            assert(is_lower_hex(hex[i - 3]));
        }
    }
    if value.len() == 67 && value[0] == 'b' && value[1] == '3' && value[2] == ':' && forall|i: int|
        3 <= i < 67 ==> ('0' <= #[trigger] value[i] && value[i] <= '9') || ('a' <= value[i]
            && value[i] <= 'f') {
        assert(head == "b3:"@);
        assert forall|i: int| 0 <= i < hex.len() implies is_lower_hex(#[trigger] hex[i]) by {
            assert(hex[i] == value[i + 3]);
        }
    }
}

} // verus!
