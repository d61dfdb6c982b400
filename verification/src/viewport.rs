//! The part of a draft that fits a box of a given width, with the caret in
//! sight.

use vstd::prelude::*;
use crate::json::Text;
use crate::text::{chars_of, string_of};

verus! {

/// Where the visible part of a text of `total` characters starts in a box
/// of `width` characters. A text that fits starts at its first character.
/// Else the caret is held in the middle of the box, and the box does not
/// reach beyond the end of the text.
pub open spec fn window_start(total: int, width: int, caret: int) -> int {
    if total <= width {
        0
    } else {
        let start = if caret > width / 2 {
            caret - width / 2
        } else {
            0
        };
        if start + width > total {
            total - width
        } else {
            start
        }
    }
}

/// The visible part of a text in a box of `width` characters.
pub open spec fn window_text(text: Text, width: int, caret: int) -> Text {
    let start = window_start(text.len() as int, width, caret);
    let end = if start + width < text.len() {
        start + width
    } else {
        text.len() as int
    };
    text.subrange(start, end)
}

/// The column of the caret inside the box.
pub open spec fn window_caret(total: int, width: int, caret: int) -> int {
    let start = window_start(total, width, caret);
    if caret > start {
        caret - start
    } else {
        0
    }
}

/// A caret inside the text is inside the box, and the box lies inside the
/// text, or starts at its first character.
pub proof fn lemma_caret_in_sight(total: int, width: int, caret: int)
    requires
        0 <= width,
        0 <= caret <= total,
    ensures
        0 <= window_start(total, width, caret) <= caret,
        caret <= window_start(total, width, caret) + width,
        total > width ==> window_start(total, width, caret) + width <= total,
        window_caret(total, width, caret) == caret - window_start(total, width, caret),
{
}

/// Where the visible part of the draft starts.
pub fn scroll_offset(total_len: usize, inner_width: usize, cursor_pos: usize) -> (start: usize)
    ensures
        start == window_start(total_len as int, inner_width as int, cursor_pos as int),
        start <= total_len,
{
    if total_len <= inner_width {
        0
    } else {
        let center = inner_width / 2;
        let start: usize = if cursor_pos > center {
            cursor_pos - center
        } else {
            0
        };
        if start > total_len - inner_width {
            total_len - inner_width
        } else {
            start
        }
    }
}

/// The visible part of the draft in a box of `inner_width` characters, and
/// the column of the caret in it.
pub fn visible_input(input: &str, inner_width: usize, cursor_pos: usize) -> (out: (String, usize))
    ensures
        out.0@ == window_text(input@, inner_width as int, cursor_pos as int),
        out.1 == window_caret(input@.len() as int, inner_width as int, cursor_pos as int),
{
    let chars = chars_of(input);
    let start = scroll_offset(chars.len(), inner_width, cursor_pos);
    let end: usize = if inner_width < chars.len() - start {
        start + inner_width
    } else {
        chars.len()
    };
    let mut shown: Vec<char> = Vec::new();
    let mut i: usize = start;
    while i < end
        invariant
            start <= i <= end <= chars.len(),
            shown@ == chars@.subrange(start as int, i as int),
        decreases end - i,
    {
        shown.push(chars[i]);
        i += 1;
    }
    let column: usize = if cursor_pos > start {
        cursor_pos - start
    } else {
        0
    };
    (string_of(&shown), column)
}

} // verus!
