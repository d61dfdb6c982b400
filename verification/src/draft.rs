//! The draft of a field edit: a text and a caret, both counted in characters.

use vstd::prelude::*;
use crate::json::Text;
use crate::keys::Key;
use crate::text::{chars_of, string_of};

verus! {

/// `String::pop` takes the last character off, if there is one.
pub assume_specification[ String::pop ](s: &mut String) -> (last: Option<char>)
    ensures
        old(s)@.len() == 0 ==> last is None && final(s)@ == old(s)@,
        old(s)@.len() > 0 ==> last == Some(old(s)@.last()) && final(s)@ == old(s)@.drop_last(),
;

/// A caret held inside a text of `len` characters.
pub open spec fn clamped(caret: int, len: int) -> int {
    if caret < 0 {
        0
    } else if caret > len {
        len
    } else {
        caret
    }
}

/// The draft after an editing key: the text and the caret. The caret moves
/// by whole characters and stops at both ends; a character is inserted at
/// the caret, which then stands behind it; backspace removes the character
/// before the caret, delete the one at the caret. Other keys change nothing.
pub open spec fn draft_after(text: Text, caret: int, key: Key) -> (Text, int) {
    let at = clamped(caret, text.len() as int);
    match key {
        Key::Left => (text, if at > 0 {
            at - 1
        } else {
            at
        }),
        Key::Right => (text, if at < text.len() {
            at + 1
        } else {
            at
        }),
        Key::Home => (text, 0),
        Key::End => (text, text.len() as int),
        Key::Char(c) => (text.insert(at, c), at + 1),
        Key::Backspace => if at > 0 {
            (text.remove(at - 1), at - 1)
        } else {
            (text, at)
        },
        Key::Delete => if at < text.len() {
            (text.remove(at), at)
        } else {
            (text, at)
        },
        _ => (text, at),
    }
}

/// The caret stays inside the text.
pub proof fn lemma_draft_caret(text: Text, caret: int, key: Key)
    ensures
        0 <= draft_after(text, caret, key).1 <= draft_after(text, caret, key).0.len(),
{
}

/// Applies one editing key to a draft.
pub fn edit_draft(input: &str, cursor_pos: usize, key: Key) -> (out: (String, usize))
    ensures
        (out.0@, out.1 as int) == draft_after(input@, cursor_pos as int, key),
        out.1 <= out.0@.len(),
{
    let mut chars = chars_of(input);
    let at: usize = if cursor_pos > chars.len() {
        chars.len()
    } else {
        cursor_pos
    };
    match key {
        Key::Left => (string_of(&chars), if at > 0 {
            at - 1
        } else {
            at
        }),
        Key::Right => {
            let next: usize = if at < chars.len() {
                at + 1
            } else {
                at
            };
            (string_of(&chars), next)
        },
        Key::Home => (string_of(&chars), 0),
        Key::End => (string_of(&chars), chars.len()),
        Key::Char(c) => {
            chars.insert(at, c);
            assert(at < chars.len());
            (string_of(&chars), at + 1)
        },
        Key::Backspace => if at > 0 {
            chars.remove(at - 1);
            (string_of(&chars), at - 1)
        } else {
            (string_of(&chars), at)
        },
        Key::Delete => if at < chars.len() {
            chars.remove(at);
            (string_of(&chars), at)
        } else {
            (string_of(&chars), at)
        },
        _ => (string_of(&chars), at),
    }
}

} // verus!
