use vstd::prelude::*;
use vstd::utf8::*;

verus! {

/// Whether a character is white space, as Unicode defines it.
pub uninterp spec fn is_whitespace_char(c: char) -> bool;

/// Whether a character is a letter or a number, as Unicode defines them.
pub uninterp spec fn is_alphanumeric_char(c: char) -> bool;

/// `char::is_whitespace` of the standard library. It is a function of the
/// character alone, the Unicode property `White_Space`; the contract gives
/// that function a name and says no more of it.
#[verifier::external_body]
pub(crate) fn is_whitespace(c: char) -> (r: bool)
    ensures
        r == is_whitespace_char(c),
{
    c.is_whitespace()
}

/// `char::is_alphanumeric` of the standard library. It is a function of the
/// character alone, the Unicode properties `Alphabetic` and the number
/// categories; the contract gives that function a name and says no more of it.
#[verifier::external_body]
pub(crate) fn is_alphanumeric(c: char) -> (r: bool)
    ensures
        r == is_alphanumeric_char(c),
{
    c.is_alphanumeric()
}

/// Whether a character is one of the first 128, for which the lexer decides
/// by itself what is white space and what is a letter or a digit.
pub open spec fn is_plain(c: char) -> bool {
    c <= '\u{7f}'
}

/// Whether the lexer passes over a character as white space: of the first 128
/// characters the blank and the five from the tabulator to the carriage
/// return, of the others those that Unicode calls white space.
pub open spec fn is_blank(c: char) -> bool {
    if is_plain(c) {
        c == ' ' || ('\t' <= c <= '\r')
    } else {
        is_whitespace_char(c)
    }
}

/// Whether a character can stand in a word behind its first character: of the
/// first 128 characters the letters, the digits and the underscore, of the
/// others those that Unicode calls letters or numbers.
pub open spec fn is_word_char(c: char) -> bool {
    if is_plain(c) {
        ('a' <= c <= 'z') || ('A' <= c <= 'Z') || ('0' <= c <= '9') || c == '_'
    } else {
        is_alphanumeric_char(c)
    }
}

/// Whether the lexer passes over `c` as white space, given what the standard
/// library says of it. For the first 128 characters the lexer does not go by
/// what it is told.
pub fn blank_given(c: char, white_space: bool) -> (r: bool)
    ensures
        r == if is_plain(c) {
            c == ' ' || ('\t' <= c <= '\r')
        } else {
            white_space
        },
{
    if c <= '\u{7f}' {
        c == ' ' || ('\t' <= c && c <= '\r')
    } else {
        white_space
    }
}

/// Whether `c` can stand in a word behind its first character, given what the
/// standard library says of it. For the first 128 characters the lexer does
/// not go by what it is told.
pub fn word_char_given(c: char, alphanumeric: bool) -> (r: bool)
    ensures
        r == if is_plain(c) {
            ('a' <= c <= 'z') || ('A' <= c <= 'Z') || ('0' <= c <= '9') || c == '_'
        } else {
            alphanumeric
        },
{
    if c <= '\u{7f}' {
        ('a' <= c && c <= 'z') || ('A' <= c && c <= 'Z') || ('0' <= c && c <= '9') || c == '_'
    } else {
        alphanumeric
    }
}

/// Whether the lexer passes over a character as white space.
pub fn blank(c: char) -> (r: bool)
    ensures
        r == is_blank(c),
{
    blank_given(c, is_whitespace(c))
}

/// Whether a character can stand in a word behind its first character.
pub fn word_char(c: char) -> (r: bool)
    ensures
        r == is_word_char(c),
{
    word_char_given(c, is_alphanumeric(c))
}

/// The number of bytes that the first `i` characters of `src` take in UTF-8.
pub open spec fn byte_offset(src: Seq<char>, i: int) -> int {
    encode_utf8(src.take(i)).len() as int
}

/// The encoding of two texts joined is the two encodings joined.
pub proof fn lemma_encode_concat(a: Seq<char>, b: Seq<char>)
    ensures
        encode_utf8(a + b) == encode_utf8(a) + encode_utf8(b),
    decreases a.len(),
{
    if a.len() == 0 {
        assert(a + b =~= b);
        assert(encode_utf8(a) + encode_utf8(b) =~= encode_utf8(b));
    } else {
        assert((a + b).drop_first() =~= a.drop_first() + b);
        lemma_encode_concat(a.drop_first(), b);
        assert(encode_utf8(a + b) =~= encode_utf8(a) + encode_utf8(b));
    }
}

/// One character more takes the bytes of its encoding more, and no prefix
/// takes more bytes than the whole text.
pub proof fn lemma_byte_offset_step(src: Seq<char>, i: int)
    requires
        0 <= i < src.len(),
    ensures
        byte_offset(src, i + 1) == byte_offset(src, i) + encode_scalar(src[i] as u32).len(),
        byte_offset(src, i + 1) <= encode_utf8(src).len(),
{
    let one = seq![src[i]];
    assert(src.take(i + 1) =~= src.take(i) + one);
    lemma_encode_concat(src.take(i), one);
    assert(one.drop_first() =~= Seq::<char>::empty());
    assert(encode_utf8(one.drop_first()) =~= Seq::<u8>::empty());
    assert(encode_utf8(one) == encode_scalar(one[0] as u32) + encode_utf8(one.drop_first()));
    assert(encode_utf8(one) =~= encode_scalar(src[i] as u32));
    assert(src =~= src.take(i + 1) + src.skip(i + 1));
    lemma_encode_concat(src.take(i + 1), src.skip(i + 1));
}

/// The bytes between two places of a text are the encoding of the characters
/// between them.
pub proof fn lemma_bytes_between(src: Seq<char>, i: int, j: int)
    requires
        0 <= i <= j <= src.len(),
    ensures
        byte_offset(src, i) <= byte_offset(src, j) <= encode_utf8(src).len(),
        encode_utf8(src).subrange(byte_offset(src, i), byte_offset(src, j)) == encode_utf8(
            src.subrange(i, j),
        ),
        encode_utf8(src).subrange(byte_offset(src, i), encode_utf8(src).len() as int)
            == encode_utf8(src.skip(i)),
        byte_offset(src.skip(i), j - i) == byte_offset(src, j) - byte_offset(src, i),
{
    let head = src.take(i);
    let mid = src.subrange(i, j);
    let tail = src.skip(j);
    assert(src.take(j) =~= head + mid);
    assert(src =~= src.take(j) + tail);
    assert(src.skip(i) =~= mid + tail);
    assert(src.skip(i).take(j - i) =~= mid);
    lemma_encode_concat(head, mid);
    lemma_encode_concat(src.take(j), tail);
    lemma_encode_concat(mid, tail);
    let whole = encode_utf8(src);
    assert(whole =~= encode_utf8(head) + encode_utf8(mid) + encode_utf8(tail));
    assert(whole.subrange(byte_offset(src, i), byte_offset(src, j)) =~= encode_utf8(mid));
    assert(whole.subrange(byte_offset(src, i), whole.len() as int) =~= encode_utf8(mid)
        + encode_utf8(tail));
}

/// The place in the bytes of a text where a character begins, or where the
/// text ends, is a boundary between characters.
pub proof fn lemma_offset_is_boundary(src: Seq<char>, i: int)
    requires
        0 <= i <= src.len(),
    ensures
        is_char_boundary(encode_utf8(src), byte_offset(src, i)),
    decreases i,
{
    let bytes = encode_utf8(src);
    encode_utf8_valid_utf8(src);
    if i == 0 {
        assert(src.take(0) =~= Seq::<char>::empty());
    } else {
        let first = seq![src[0]];
        let others = src.drop_first();
        encode_utf8_first_scalar(src);
        assert(pop_first_scalar(bytes) =~= encode_utf8(others));
        lemma_offset_is_boundary(others, i - 1);
        assert(src.take(i) =~= first + others.take(i - 1));
        lemma_encode_concat(first, others.take(i - 1));
        assert(first.drop_first() =~= Seq::<char>::empty());
        assert(encode_utf8(first.drop_first()) =~= Seq::<u8>::empty());
        assert(encode_utf8(first) =~= encode_scalar(src[0] as u32));
        lemma_bytes_between(src, 0, i);
        assert(byte_offset(src, i) == length_of_first_scalar(bytes) + byte_offset(others, i - 1));
        encode_utf8_valid_utf8(others);
    }
}

/// The number of bytes that a character takes in UTF-8.
pub fn utf8_width(c: char) -> (w: usize)
    ensures
        w == encode_scalar(c as u32).len(),
        1 <= w <= 4,
{
    proof {
        char_is_scalar(c);
    }
    let v = c as u32;
    if v <= 0x7F {
        1
    } else if v <= 0x7FF {
        2
    } else if v <= 0xFFFF {
        3
    } else {
        4
    }
}

} // verus!
