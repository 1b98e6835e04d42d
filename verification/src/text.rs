//! White space in lyric text.

use vstd::prelude::*;

verus! {

/// Whether `c` has the Unicode property `White_Space`.
pub open spec fn white_space(c: char) -> bool {
    let code = c as u32;
    ||| 0x09 <= code <= 0x0D
    ||| code == 0x20
    ||| code == 0x85
    ||| code == 0xA0
    ||| code == 0x1680
    ||| 0x2000 <= code <= 0x200A
    ||| code == 0x2028
    ||| code == 0x2029
    ||| code == 0x202F
    ||| code == 0x205F
    ||| code == 0x3000
}

/// Whether `text` holds nothing but white space, so that trimming it
/// leaves nothing. The empty text is blank.
pub open spec fn blank(text: Seq<char>) -> bool {
    forall|i: int| 0 <= i < text.len() ==> white_space(#[trigger] text[i])
}

/// Tells whether `c` is white space.
pub fn is_white_space(c: char) -> (yes: bool)
    ensures
        yes == white_space(c),
{
    let code: u32 = c as u32;
    (0x09 <= code && code <= 0x0D) || code == 0x20 || code == 0x85 || code == 0xA0
        || code == 0x1680 || (0x2000 <= code && code <= 0x200A) || code == 0x2028
        || code == 0x2029 || code == 0x202F || code == 0x205F || code == 0x3000
}

/// Tells whether `text` is blank.
pub fn is_blank(text: &str) -> (yes: bool)
    ensures
        yes == blank(text@),
{
    for c in it: text.chars()
        invariant
            it.seq() == text@,
            forall|i: int| 0 <= i < it.index() ==> white_space(#[trigger] text@[i]),
    {
        if !is_white_space(c) {
            return false;
        }
    }
    true
}

} // verus!
