//! Telling captions from other text: a text is taken for a caption when it
//! begins like the caption of a figure or a table.

use crate::strings::chars_of;
use vstd::prelude::*;

verus! {

/// The characters that Unicode lists as white space.
pub open spec fn is_white_space(c: char) -> bool {
    let n = c as u32;
    (0x09 <= n <= 0x0D) || n == 0x20 || n == 0x85 || n == 0xA0 || n == 0x1680 || (0x2000 <= n
        <= 0x200A) || n == 0x2028 || n == 0x2029 || n == 0x202F || n == 0x205F || n == 0x3000
}

/// What may stand before the first word of a caption: white space and
/// opening brackets.
pub open spec fn is_opening(c: char) -> bool {
    is_white_space(c) || c == '(' || c == '['
}

/// How many characters at the start of `text` are white space or opening
/// brackets.
pub open spec fn leading_openings(text: Seq<char>) -> int
    decreases text.len(),
{
    if text.len() > 0 && is_opening(text[0]) {
        1 + leading_openings(text.drop_first())
    } else {
        0
    }
}

/// The text without the white space and opening brackets at its start.
pub open spec fn stripped(text: Seq<char>) -> Seq<char> {
    text.skip(leading_openings(text))
}

/// The lower-case form of a text, as `str::to_lowercase` gives it.
pub uninterp spec fn lowercase_of(text: Seq<char>) -> Seq<char>;

/// `str::to_lowercase` gives the lower-case form of the text, which depends
/// on the text alone and is named by [`lowercase_of`].
#[verifier::external_body]
fn lowercase(text: &str) -> (lower: String)
    ensures
        lower@ == lowercase_of(text@),
{
    text.to_lowercase()
}

/// The words with which a caption begins, in lower case.
pub open spec fn caption_prefixes() -> Seq<Seq<char>> {
    seq![
        seq!['f', 'i', 'g', ' '],
        seq!['f', 'i', 'g', '.'],
        seq!['f', 'i', 'g', '('],
        seq!['f', 'i', 'g', 'u', 'r', 'e'],
        seq!['t', 'a', 'b', 'l', 'e'],
    ]
}

/// The text begins with one of the words of a caption.
pub open spec fn begins_like_caption(lower: Seq<char>) -> bool {
    exists|k: int|
        0 <= k < caption_prefixes().len() && (#[trigger] caption_prefixes()[k]).is_prefix_of(lower)
}

/// The first character of a caption in Japanese: the sign for a figure or
/// the sign for a table.
pub open spec fn is_caption_sign(c: char) -> bool {
    c == '\u{56F3}' || c == '\u{8868}'
}

/// A text reads like a caption when, white space and opening brackets at
/// its start aside, it begins with the sign for a figure or a table, or in
/// any capitals with `fig` before a space, a full stop or a bracket, with
/// `figure`, or with `table`. Nothing is taken off its end.
pub open spec fn caption_like(text: Seq<char>) -> bool {
    let core = stripped(text);
    core.len() > 0 && (is_caption_sign(core[0]) || begins_like_caption(lowercase_of(core)))
}

/// Tells whether a character is white space.
pub fn char_is_white_space(c: char) -> (r: bool)
    ensures
        r == is_white_space(c),
{
    let n = c as u32;
    (0x09 <= n && n <= 0x0D) || n == 0x20 || n == 0x85 || n == 0xA0 || n == 0x1680 || (0x2000 <= n
        && n <= 0x200A) || n == 0x2028 || n == 0x2029 || n == 0x202F || n == 0x205F || n == 0x3000
}

/// Tells whether `text` begins with `prefix`.
fn begins_with(text: &Vec<char>, prefix: &Vec<char>) -> (r: bool)
    ensures
        r == prefix@.is_prefix_of(text@),
{
    if prefix.len() > text.len() {
        return false;
    }
    let mut i: usize = 0;
    while i < prefix.len()
        invariant
            i <= prefix@.len() <= text@.len(),
            forall|j: int| 0 <= j < i ==> prefix@[j] == text@[j],
        decreases prefix@.len() - i,
    {
        if prefix[i] != text[i] {
            assert(text@.subrange(0, prefix@.len() as int)[i as int] != prefix@[i as int]);
            return false;
        }
        i += 1;
    }
    assert(prefix@ =~= text@.subrange(0, prefix@.len() as int));
    true
}

/// Tells whether a text in lower case begins with one of the words of a
/// caption.
pub fn has_caption_prefix(lower: &Vec<char>) -> (r: bool)
    ensures
        r == begins_like_caption(lower@),
{
    let fig_space = vec!['f', 'i', 'g', ' '];
    let fig_stop = vec!['f', 'i', 'g', '.'];
    let fig_bracket = vec!['f', 'i', 'g', '('];
    let figure = vec!['f', 'i', 'g', 'u', 'r', 'e'];
    let table = vec!['t', 'a', 'b', 'l', 'e'];
    proof {
        assert(fig_space@ =~= caption_prefixes()[0]);
        assert(fig_stop@ =~= caption_prefixes()[1]);
        assert(fig_bracket@ =~= caption_prefixes()[2]);
        assert(figure@ =~= caption_prefixes()[3]);
        assert(table@ =~= caption_prefixes()[4]);
    }
    begins_with(lower, &fig_space) || begins_with(lower, &fig_stop) || begins_with(
        lower,
        &fig_bracket,
    ) || begins_with(lower, &figure) || begins_with(lower, &table)
}

/// Tells whether a text reads like a caption.
pub fn looks_like_caption(text: &str) -> (r: bool)
    ensures
        r == caption_like(text@),
{
    let chars = chars_of(text);
    let len = chars.len();
    let mut start: usize = 0;
    assert(chars@.skip(0) =~= chars@);
    while start < len && (char_is_white_space(chars[start]) || chars[start] == '(' || chars[start]
        == '[')
        invariant
            len == chars@.len(),
            start <= len,
            leading_openings(chars@) == start + leading_openings(chars@.skip(start as int)),
        decreases len - start,
    {
        proof {
            assert(chars@.skip(start as int).drop_first() =~= chars@.skip(start + 1));
        }
        start += 1;
    }
    assert(leading_openings(chars@) == start);
    assert(stripped(chars@) =~= chars@.subrange(start as int, len as int));
    let end: usize = len;
    if start == end {
        return false;
    }
    let first = chars[start];
    if first == '\u{56F3}' || first == '\u{8868}' {
        return true;
    }
    let mut core = String::new();
    let mut i: usize = start;
    while i < end
        invariant
            start <= i <= end <= chars@.len(),
            core@ == chars@.subrange(start as int, i as int),
        decreases end - i,
    {
        core.push(chars[i]);
        assert(chars@.subrange(start as int, i + 1) =~= chars@.subrange(start as int, i as int).push(
            chars@[i as int],
        ));
        i += 1;
    }
    let lower = lowercase(core.as_str());
    let lower_chars = chars_of(lower.as_str());
    has_caption_prefix(&lower_chars)
}

} // verus!
