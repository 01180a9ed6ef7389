//! Byte offsets into UTF-8 text, stated over the characters it encodes.

use vstd::prelude::*;
use vstd::string::*;
use vstd::utf8::*;

verus! {

/// Number of bytes that encode `ch`.
pub open spec fn char_len(ch: char) -> nat {
    encode_scalar(ch as u32).len()
}

/// Number of bytes that encode `chars`.
pub open spec fn byte_len(chars: Seq<char>) -> nat {
    encode_utf8(chars).len()
}

/// Byte offset at which the character with index `k` starts: the number of
/// bytes that encode the `k` characters before it.
pub open spec fn byte_offset(chars: Seq<char>, k: int) -> nat {
    byte_len(chars.take(k))
}

/// A character takes one to four bytes, and an ASCII character takes one.
pub proof fn lemma_char_len_bounds(ch: char)
    ensures
        1 <= char_len(ch) <= 4,
        (ch as u32) < 0x80 ==> char_len(ch) == 1,
{
}

/// The encoding of a concatenation is the concatenation of the encodings.
pub proof fn lemma_encode_concat(a: Seq<char>, b: Seq<char>)
    ensures
        encode_utf8(a + b) == encode_utf8(a) + encode_utf8(b),
    decreases a.len(),
{
    if a.len() > 0 {
        let head = encode_scalar(a[0] as u32);
        lemma_encode_concat(a.drop_first(), b);
        assert((a + b).drop_first() == a.drop_first() + b);
        assert(head + (encode_utf8(a.drop_first()) + encode_utf8(b)) == (head + encode_utf8(
            a.drop_first(),
        )) + encode_utf8(b));
    }
}

/// Lengths in bytes add up over a concatenation.
pub proof fn lemma_byte_len_concat(a: Seq<char>, b: Seq<char>)
    ensures
        byte_len(a + b) == byte_len(a) + byte_len(b),
{
    lemma_encode_concat(a, b);
}

/// A single character is encoded by its own bytes.
pub proof fn lemma_byte_len_single(ch: char)
    ensures
        byte_len(seq![ch]) == char_len(ch),
{
    let one = seq![ch];
    assert(encode_utf8(one.drop_first()) == Seq::<u8>::empty());
    assert(encode_utf8(one) == encode_scalar(ch as u32) + encode_utf8(one.drop_first()));
}

/// The next character starts where this one starts, plus this one's bytes.
pub proof fn lemma_byte_offset_step(chars: Seq<char>, k: int)
    requires
        0 <= k < chars.len(),
    ensures
        byte_offset(chars, k + 1) == byte_offset(chars, k) + char_len(chars[k]),
{
    assert(chars.take(k + 1) == chars.take(k) + seq![chars[k]]);
    lemma_byte_len_concat(chars.take(k), seq![chars[k]]);
    lemma_byte_len_single(chars[k]);
}

/// Offsets grow with the index, by at least one byte for each character.
pub proof fn lemma_byte_offset_grows(chars: Seq<char>, j: int, k: int)
    requires
        0 <= j <= k <= chars.len(),
    ensures
        byte_offset(chars, j) + (k - j) <= byte_offset(chars, k),
        byte_offset(chars, 0) == 0,
        byte_offset(chars, chars.len() as int) == byte_len(chars),
    decreases k - j,
{
    assert(chars.take(chars.len() as int) == chars);
    if j < k {
        lemma_byte_offset_grows(chars, j, k - 1);
        lemma_byte_offset_step(chars, k - 1);
    }
}

/// Splitting the bytes at the offset of a character splits the text at that
/// character, and that offset is a character boundary.
pub proof fn lemma_split_at_offset(chars: Seq<char>, k: int)
    requires
        0 <= k <= chars.len(),
    ensures
        byte_offset(chars, k) <= byte_len(chars),
        byte_len(chars) == byte_offset(chars, k) + byte_len(chars.skip(k)),
        encode_utf8(chars).subrange(0, byte_offset(chars, k) as int) == encode_utf8(
            chars.take(k),
        ),
        encode_utf8(chars).subrange(byte_offset(chars, k) as int, byte_len(chars) as int)
            == encode_utf8(chars.skip(k)),
        is_char_boundary(encode_utf8(chars), byte_offset(chars, k) as int),
{
    assert(chars == chars.take(k) + chars.skip(k));
    lemma_encode_concat(chars.take(k), chars.skip(k));
    lemma_boundary_after(chars.take(k), chars.skip(k));
}

/// The end of a first part is a character boundary of the whole.
proof fn lemma_boundary_after(a: Seq<char>, b: Seq<char>)
    ensures
        is_char_boundary(encode_utf8(a + b), byte_len(a) as int),
    decreases a.len(),
{
    broadcast use encode_utf8_valid_utf8;

    let whole = encode_utf8(a + b);
    if a.len() > 0 {
        let first = a.drop_first();
        assert((a + b).drop_first() == first + b);
        encode_utf8_first_scalar(a + b);
        assert(pop_first_scalar(whole) == encode_utf8(first + b));
        lemma_boundary_after(first, b);
    }
}

/// A text of ASCII characters takes one byte for each character.
pub proof fn lemma_byte_len_ascii(chars: Seq<char>)
    requires
        is_ascii_chars(chars),
    ensures
        byte_len(chars) == chars.len(),
{
    is_ascii_chars_encode_utf8(chars);
}

/// Two texts with the same bytes are the same text.
pub proof fn lemma_same_bytes_same_chars(a: Seq<char>, b: Seq<char>)
    requires
        encode_utf8(a) == encode_utf8(b),
    ensures
        a == b,
{
    encode_utf8_decode_utf8(a);
    encode_utf8_decode_utf8(b);
}

/// Number of bytes that encode `ch`.
pub fn len_utf8(ch: char) -> (n: usize)
    ensures
        n == char_len(ch),
        1 <= n <= 4,
{
    let code: u32 = ch as u32;
    if code < 0x80 {
        1
    } else if code < 0x800 {
        2
    } else if code < 0x10000 {
        3
    } else {
        4
    }
}

/// The text cut in two at the byte offset `at`, which is where the character
/// with index `k` starts.
pub(crate) fn split_text<'a>(text: &'a str, at: usize, Ghost(k): Ghost<int>) -> (parts: (&'a str, &'a str))
    requires
        0 <= k <= text@.len(),
        at == byte_offset(text@, k),
    ensures
        parts.0@ == text@.take(k),
        parts.1@ == text@.skip(k),
{
    proof {
        lemma_split_at_offset(text@, k);
    }
    let parts = text.split_at(at);
    proof {
        lemma_same_bytes_same_chars(parts.0@, text@.take(k));
        lemma_same_bytes_same_chars(parts.1@, text@.skip(k));
    }
    parts
}

} // verus!
