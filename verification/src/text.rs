//! Bytes as text: lossy decoding of UTF-8.

use vstd::prelude::*;
use vstd::utf8::{
    decode_utf8, is_continuation_byte, length_of_first_scalar, pop_first_scalar, valid_first_scalar,
    valid_utf8,
};

verus! {

/// The text that `String::from_utf8_lossy` makes of bytes that are not
/// well-formed UTF-8: the well-formed stretches decoded, and U+FFFD put in
/// for each ill-formed one. How the ill-formed stretches are cut is the
/// standard library's affair and is not spelled out here.
pub uninterp spec fn lossy_decoding(bytes: Seq<u8>) -> Seq<char>;

/// The text that a byte sequence is measured as: its decoding where it is
/// well-formed UTF-8, the lossy decoding where it is not.
pub open spec fn decoded_text(bytes: Seq<u8>) -> Seq<char> {
    if valid_utf8(bytes) {
        decode_utf8(bytes)
    } else {
        lossy_decoding(bytes)
    }
}

/// Calls `String::from_utf8_lossy` and takes the text as an owned string.
/// Trusted: well-formed UTF-8 comes back decoded as it stands; for other
/// bytes the result is the one named `lossy_decoding`. The call never fails.
#[verifier::external_body]
fn from_utf8_lossy(bytes: &[u8]) -> (text: String)
    ensures
        text@ == if valid_utf8(bytes@) {
            decode_utf8(bytes@)
        } else {
            lossy_decoding(bytes@)
        },
{
    String::from_utf8_lossy(bytes).into_owned()
}

/// Decodes `bytes` as text, replacing what is not well-formed UTF-8.
pub fn decode_lossy(bytes: &[u8]) -> (text: String)
    ensures
        text@ == decoded_text(bytes@),
{
    from_utf8_lossy(bytes)
}

/// Empty input decodes to empty text.
pub proof fn lemma_decoded_empty()
    ensures
        decoded_text(Seq::<u8>::empty()) == Seq::<char>::empty(),
{
    assert(valid_utf8(Seq::<u8>::empty()));
    assert(decode_utf8(Seq::<u8>::empty()) =~= Seq::<char>::empty());
}

/// The number of bytes that start a character: all bytes but the
/// continuation bytes `0x80..=0xBF`.
pub open spec fn leading_bytes(bytes: Seq<u8>) -> nat
    decreases bytes.len(),
{
    if bytes.len() == 0 {
        0
    } else {
        leading_bytes(bytes.drop_first()) + if is_continuation_byte(bytes[0]) {
            0nat
        } else {
            1nat
        }
    }
}

/// Continuation bytes at the front start no character.
proof fn lemma_skip_continuation(bytes: Seq<u8>, k: int)
    requires
        0 <= k <= bytes.len(),
        forall|i: int| 0 <= i < k ==> is_continuation_byte(bytes[i]),
    ensures
        leading_bytes(bytes) == leading_bytes(bytes.subrange(k, bytes.len() as int)),
    decreases k,
{
    if k == 0 {
        assert(bytes.subrange(0, bytes.len() as int) =~= bytes);
    } else {
        let rest = bytes.drop_first();
        assert forall|i: int| 0 <= i < k - 1 implies is_continuation_byte(rest[i]) by {
            assert(rest[i] == bytes[i + 1]);
        }
        lemma_skip_continuation(rest, k - 1);
        assert(rest.subrange(k - 1, rest.len() as int) =~= bytes.subrange(k, bytes.len() as int));
    }
}

/// Well-formed UTF-8 holds as many characters as it has bytes that start
/// one: a character of several bytes counts once.
pub proof fn lemma_chars_of_well_formed(bytes: Seq<u8>)
    requires
        valid_utf8(bytes),
    ensures
        decoded_text(bytes).len() == leading_bytes(bytes),
        decoded_text(bytes).len() <= bytes.len(),
    decreases bytes.len(),
{
    if bytes.len() > 0 {
        let width = length_of_first_scalar(bytes);
        let rest = pop_first_scalar(bytes);
        assert(valid_first_scalar(bytes));
        assert(valid_utf8(rest));
        assert(rest.len() == bytes.len() - width);
        lemma_chars_of_well_formed(rest);
        assert(decode_utf8(bytes).len() == 1 + decode_utf8(rest).len());
        let after_first = bytes.drop_first();
        assert forall|i: int| 0 <= i < width - 1 implies is_continuation_byte(after_first[i]) by {
            assert(after_first[i] == bytes[i + 1]);
        }
        lemma_skip_continuation(after_first, width - 1);
        assert(after_first.subrange(width - 1, after_first.len() as int) =~= rest);
    }
}

/// ASCII bytes are well-formed UTF-8.
pub proof fn lemma_ascii_well_formed(bytes: Seq<u8>)
    requires
        forall|i: int| 0 <= i < bytes.len() ==> bytes[i] < 0x80,
    ensures
        valid_utf8(bytes),
    decreases bytes.len(),
{
    if bytes.len() > 0 {
        let first = bytes[0];
        assert(first & 0x7F <= 0x7F) by (bit_vector);
        assert(valid_first_scalar(bytes));
        let rest = pop_first_scalar(bytes);
        assert forall|i: int| 0 <= i < rest.len() implies rest[i] < 0x80 by {
            assert(rest[i] == bytes[i + 1]);
        }
        lemma_ascii_well_formed(rest);
    }
}

/// ASCII bytes start a character each.
proof fn lemma_ascii_leading(bytes: Seq<u8>)
    requires
        forall|i: int| 0 <= i < bytes.len() ==> bytes[i] < 0x80,
    ensures
        leading_bytes(bytes) == bytes.len(),
    decreases bytes.len(),
{
    if bytes.len() > 0 {
        let rest = bytes.drop_first();
        assert forall|i: int| 0 <= i < rest.len() implies rest[i] < 0x80 by {
            assert(rest[i] == bytes[i + 1]);
        }
        lemma_ascii_leading(rest);
    }
}

/// ASCII text has one character for each byte.
pub proof fn lemma_chars_of_ascii(bytes: Seq<u8>)
    requires
        forall|i: int| 0 <= i < bytes.len() ==> bytes[i] < 0x80,
    ensures
        decoded_text(bytes).len() == bytes.len(),
{
    lemma_ascii_well_formed(bytes);
    lemma_chars_of_well_formed(bytes);
    lemma_ascii_leading(bytes);
}

} // verus!
