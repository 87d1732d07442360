//! Composition of a route's absolute path from the context prefix and the
//! route's path suffix.

use vstd::prelude::*;
use vstd::string::StringSliceAdditionalSpecFns;
use vstd::utf8::*;

verus! {

/// The byte that separates path segments.
pub const SEPARATOR: u8 = 0x2f;

/// The bytes of `prefix` joined with `suffix`.
///
/// A suffix that starts with the separator is absolute and stands alone.
/// Otherwise the suffix follows the prefix, with one separator in between
/// unless the prefix is empty or already ends with one. Nothing is
/// normalised: dot segments and trailing separators stay as they are.
pub open spec fn joined(prefix: Seq<u8>, suffix: Seq<u8>) -> Seq<u8> {
    if suffix.len() > 0 && suffix[0] == SEPARATOR {
        suffix
    } else if prefix.len() > 0 && prefix.last() != SEPARATOR {
        prefix + seq![SEPARATOR] + suffix
    } else {
        prefix + suffix
    }
}

/// The absolute path of a route as text: the context prefix joined with the
/// suffix, if the joined bytes are valid UTF-8.
pub open spec fn composed(prefix: Seq<char>, suffix: Seq<u8>) -> Option<Seq<char>> {
    let bytes = joined(encode_utf8(prefix), suffix);
    if valid_utf8(bytes) {
        Some(decode_utf8(bytes))
    } else {
        None
    }
}

/// The text of `prefix` joined with the text of `suffix`, by the rule of
/// [`joined`].
pub open spec fn joined_text(prefix: Seq<char>, suffix: Seq<char>) -> Seq<char> {
    if suffix.len() > 0 && suffix[0] == '/' {
        suffix
    } else if prefix.len() > 0 && prefix.last() != '/' {
        prefix + seq!['/'] + suffix
    } else {
        prefix + suffix
    }
}

/// The encoding of a character starts with the separator only if the
/// character is the separator, and so for its end.
proof fn separator_stands_alone(scalar: u32)
    requires
        is_scalar(scalar),
    ensures
        encode_scalar(scalar).len() > 0,
        encode_scalar(scalar)[0] == SEPARATOR <==> scalar == 0x2f,
        encode_scalar(scalar).last() == SEPARATOR <==> scalar == 0x2f,
{
    let first: u8 = ((scalar >> 6) & 0x1F) as u8;
    let second: u8 = ((scalar >> 12) & 0x0F) as u8;
    let third: u8 = ((scalar >> 18) & 0x7) as u8;
    let low: u8 = (scalar & 0x3F) as u8;
    assert(scalar <= 0x7F ==> (((scalar & 0x7F) as u8 == 0x2fu8) <==> scalar == 0x2f))
        by (bit_vector);
    assert((0xC0u8 | first) != 0x2fu8) by (bit_vector);
    assert((0xE0u8 | second) != 0x2fu8) by (bit_vector);
    assert((0xF0u8 | third) != 0x2fu8) by (bit_vector);
    assert((0x80u8 | low) != 0x2fu8) by (bit_vector);
}

/// The encoding of a text that is put together from two is put together
/// from their encodings.
pub proof fn encoding_of_joined(left: Seq<char>, right: Seq<char>)
    ensures
        encode_utf8(left + right) == encode_utf8(left) + encode_utf8(right),
    decreases left.len(),
{
    if left.len() == 0 {
        assert(left + right =~= right);
        assert(encode_utf8(left) + encode_utf8(right) =~= encode_utf8(right));
    } else {
        encoding_of_joined(left.drop_first(), right);
        assert((left + right).drop_first() =~= left.drop_first() + right);
        assert(encode_utf8(left + right) =~= encode_utf8(left) + encode_utf8(right));
    }
}

/// The separator is the one character with the separator's code.
proof fn is_separator(mark: char)
    ensures
        mark == '/' <==> mark as u32 == 0x2f,
{
    char_u32_cast(mark, mark as u32);
    char_u32_cast('/', 0x2fu32);
}

/// The encoding of a text of one character is the encoding of the character.
proof fn encoding_of_one(only: char)
    ensures
        encode_utf8(seq![only]) == encode_scalar(only as u32),
{
    let one = seq![only];
    assert(one.drop_first() =~= Seq::<char>::empty());
    assert(encode_utf8(one.drop_first()) =~= Seq::<u8>::empty());
    assert(encode_utf8(one) =~= encode_scalar(one[0] as u32) + encode_utf8(one.drop_first()));
}

/// A suffix that is text always composes, and to the text of the prefix
/// joined with it: `/api` and `request_info` give `/api/request_info`.
pub proof fn text_composes(prefix: Seq<char>, suffix: Seq<char>)
    ensures
        composed(prefix, encode_utf8(suffix)) == Some(joined_text(prefix, suffix)),
{
    let before = encode_utf8(prefix);
    let after = encode_utf8(suffix);
    let text = joined_text(prefix, suffix);
    if suffix.len() > 0 {
        let head = suffix[0];
        char_is_scalar(head);
        separator_stands_alone(head as u32);
        assert(after == encode_scalar(head as u32) + encode_utf8(suffix.drop_first()));
        assert(after[0] == encode_scalar(head as u32)[0]);
        is_separator(head);
    } else {
        assert(after.len() == 0);
    }
    if prefix.len() > 0 {
        let last = prefix.last();
        char_is_scalar(last);
        separator_stands_alone(last as u32);
        assert(prefix =~= prefix.drop_last() + seq![last]);
        encoding_of_joined(prefix.drop_last(), seq![last]);
        encoding_of_one(last);
        assert(before.last() == encode_scalar(last as u32).last());
        is_separator(last);
    } else {
        assert(before.len() == 0);
    }
    let mark = seq!['/'];
    assert(encode_utf8(mark) =~= seq![SEPARATOR]) by {
        encoding_of_one('/');
        assert('/' as u32 == 0x2fu32);
        assert((0x2fu32 & 0x7F) as u8 == 0x2fu8) by (bit_vector);
    }
    encoding_of_joined(prefix, mark);
    encoding_of_joined(prefix + mark, suffix);
    encoding_of_joined(prefix, suffix);
    assert(joined(before, after) == encode_utf8(text));
    encode_utf8_valid_utf8(text);
    encode_utf8_decode_utf8(text);
}

/// Joins the bytes of a prefix and a suffix.
pub fn join(prefix: &[u8], suffix: &[u8]) -> (bytes: Vec<u8>)
    ensures
        bytes@ == joined(prefix@, suffix@),
{
    let mut bytes: Vec<u8> = Vec::new();
    let absolute = suffix.len() > 0 && suffix[0] == SEPARATOR;
    if !absolute {
        bytes.extend_from_slice(prefix);
        if prefix.len() > 0 && prefix[prefix.len() - 1] != SEPARATOR {
            bytes.push(SEPARATOR);
        }
    }
    bytes.extend_from_slice(suffix);
    bytes
}

/// Whether two strings are the same text.
pub fn same_text(left: &str, right: &str) -> (same: bool)
    ensures
        same == (left@ == right@),
{
    let a = left.as_bytes();
    let b = right.as_bytes();
    if a.len() != b.len() {
        return false;
    }
    let mut at: usize = 0;
    while at < a.len()
        invariant
            at <= a.len(),
            a.len() == b.len(),
            a@ == encode_utf8(left@),
            b@ == encode_utf8(right@),
            forall|i: int| 0 <= i < at ==> a@[i] == b@[i],
        decreases a.len() - at,
    {
        if a[at] != b[at] {
            return false;
        }
        at += 1;
    }
    proof {
        assert(a@ =~= b@);
        encode_utf8_decode_utf8(left@);
        encode_utf8_decode_utf8(right@);
    }
    true
}

/// Decodes bytes as UTF-8 text.
///
/// Calls `String::from_utf8`. The contract claims what its documentation
/// says: it succeeds exactly on valid UTF-8, and the text it gives is the one
/// that the bytes encode.
#[verifier::external_body]
pub(crate) fn text_of(bytes: Vec<u8>) -> (text: Option<String>)
    ensures
        text is Some <==> valid_utf8(bytes@),
        text matches Some(t) ==> t@ == decode_utf8(bytes@),
{
    String::from_utf8(bytes).ok()
}

/// Composes the absolute path of a route from the context prefix and the
/// route's path suffix. Gives `None` when the result is not valid text.
pub fn compose(prefix: &str, suffix: &[u8]) -> (path: Option<String>)
    ensures
        match path {
            Some(p) => composed(prefix@, suffix@) == Some(p@),
            None => composed(prefix@, suffix@) is None,
        },
{
    text_of(join(prefix.as_bytes(), suffix))
}

} // verus!
