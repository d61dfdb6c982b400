//! The completion ledger: the keys whose translation was confirmed.
//!
//! The structured ledger is a record of keys and a time stamp; the caller
//! reads the clock and hands the stamp in. The legacy ledger is one text:
//! keys joined by `;`, read with the white space around each key dropped
//! and empty pieces left out.

use vstd::prelude::*;
use crate::entries::{toggled, Entry, EntryView};
use crate::json::Text;
use crate::text::{chars_of, lemma_chars_view, string_of};

verus! {

/// The structured ledger of one document.
#[derive(Clone, Debug, PartialEq, Eq)]
pub struct TranslatedKeysData {
    pub keys: Vec<String>,
    pub last_updated: String,
}

/// The structured ledger as contracts see it.
pub struct LedgerView {
    pub keys: Seq<Text>,
    pub last_updated: Text,
}

impl View for TranslatedKeysData {
    type V = LedgerView;

    open spec fn view(&self) -> LedgerView {
        LedgerView { keys: self.keys.deep_view(), last_updated: self.last_updated@ }
    }
}

impl DeepView for TranslatedKeysData {
    type V = LedgerView;

    open spec fn deep_view(&self) -> LedgerView {
        self@
    }
}

/// Whether a character beyond ASCII has the Unicode property `White_Space`,
/// as `char::is_whitespace` tells.
pub uninterp spec fn unicode_white_space(c: char) -> bool;

/// Whether a character is an ASCII character.
pub open spec fn is_ascii_char(c: char) -> bool {
    c as u32 <= 0x7f
}

/// Whether a character is white space: of the ASCII characters the space
/// and the five controls from tab to carriage return, and beyond ASCII what
/// Unicode gives the property `White_Space`.
pub open spec fn is_white_space(c: char) -> bool {
    if is_ascii_char(c) {
        c == ' ' || 0x09 <= c as u32 <= 0x0d
    } else {
        unicode_white_space(c)
    }
}

/// `char::is_whitespace` tells whether a character has the Unicode property
/// `White_Space`: a function of the character alone, and in ASCII true of
/// the space and of tab, line feed, vertical tab, form feed and carriage
/// return only.
pub assume_specification[ char::is_whitespace ](c: char) -> (b: bool)
    ensures
        b == is_white_space(c),
        !is_ascii_char(c) ==> b == unicode_white_space(c),
;

/// The pieces of `s` between the separators: one more than there are
/// separators, in order, each possibly empty.
pub open spec fn split_on(s: Text, sep: char) -> Seq<Text>
    decreases s.len(),
{
    if s.len() == 0 {
        seq![Seq::empty()]
    } else {
        let before = split_on(s.drop_last(), sep);
        if s.last() == sep {
            before.push(Seq::empty())
        } else {
            before.drop_last().push(before.last().push(s.last()))
        }
    }
}

/// `s` without the white space at its start.
pub open spec fn trim_start(s: Text) -> Text
    decreases s.len(),
{
    if s.len() > 0 && is_white_space(s.first()) {
        trim_start(s.drop_first())
    } else {
        s
    }
}

/// `s` without the white space at its end.
pub open spec fn trim_end(s: Text) -> Text
    decreases s.len(),
{
    if s.len() > 0 && is_white_space(s.last()) {
        trim_end(s.drop_last())
    } else {
        s
    }
}

/// `s` without the white space at its start and at its end.
pub open spec fn trimmed(s: Text) -> Text {
    trim_end(trim_start(s))
}

/// The pieces trimmed, without those that are then empty.
pub open spec fn kept_keys(pieces: Seq<Text>) -> Seq<Text>
    decreases pieces.len(),
{
    if pieces.len() == 0 {
        Seq::empty()
    } else {
        let before = kept_keys(pieces.drop_last());
        let key = trimmed(pieces.last());
        if key.len() > 0 {
            before.push(key)
        } else {
            before
        }
    }
}

/// The keys of a legacy ledger.
pub open spec fn legacy_keys(content: Text) -> Seq<Text> {
    kept_keys(split_on(content, ';'))
}

/// The keys of the entries that are marked as translated, in order.
pub open spec fn completed_keys(entries: Seq<EntryView>) -> Seq<Text>
    decreases entries.len(),
{
    if entries.len() == 0 {
        Seq::empty()
    } else if entries.last().is_translated {
        completed_keys(entries.drop_last()).push(entries.last().key)
    } else {
        completed_keys(entries.drop_last())
    }
}

/// The keys that a reopened document is merged with: those of the structured
/// ledger where there is one, else those of the legacy ledger, else none.
pub open spec fn merged_keys(structured: Option<LedgerView>, legacy: Option<Text>) -> Seq<Text> {
    match structured {
        Some(ledger) => ledger.keys,
        None => match legacy {
            Some(content) => legacy_keys(content),
            None => Seq::empty(),
        },
    }
}

proof fn lemma_trim_start(s: Text, start: int)
    requires
        0 <= start <= s.len(),
        forall|k: int| 0 <= k < start ==> is_white_space(s[k]),
        start < s.len() ==> !is_white_space(s[start]),
    ensures
        trim_start(s) == s.subrange(start, s.len() as int),
    decreases start,
{
    if start == 0 {
        assert(s.subrange(0, s.len() as int) == s);
    } else {
        let rest = s.drop_first();
        assert forall|k: int| 0 <= k < start - 1 implies is_white_space(rest[k]) by {
            assert(rest[k] == s[k + 1]);
        }
        lemma_trim_start(rest, start - 1);
        assert(rest.subrange(start - 1, rest.len() as int) == s.subrange(start, s.len() as int));
    }
}

proof fn lemma_trim_end(s: Text, end: int)
    requires
        0 <= end <= s.len(),
        forall|k: int| end <= k < s.len() ==> is_white_space(s[k]),
        end > 0 ==> !is_white_space(s[end - 1]),
    ensures
        trim_end(s) == s.subrange(0, end),
    decreases s.len() - end,
{
    if end == s.len() {
        assert(s.subrange(0, s.len() as int) == s);
    } else {
        let rest = s.drop_last();
        lemma_trim_end(rest, end);
        assert(rest.subrange(0, end) == s.subrange(0, end));
    }
}

/// The characters without the white space at either end.
pub fn trim_chars(piece: &Vec<char>) -> (out: Vec<char>)
    ensures
        out@ == trimmed(piece@),
{
    let mut start: usize = 0;
    while start < piece.len() && piece[start].is_whitespace()
        invariant
            start <= piece.len(),
            forall|k: int| 0 <= k < start ==> is_white_space(piece@[k]),
        decreases piece.len() - start,
    {
        start += 1;
    }
    let mut end: usize = piece.len();
    while end > start && piece[end - 1].is_whitespace()
        invariant
            start <= end <= piece.len(),
            forall|k: int| end <= k < piece.len() ==> is_white_space(piece@[k]),
        decreases end,
    {
        end -= 1;
    }
    let ghost middle = piece@.subrange(start as int, piece.len() as int);
    proof {
        lemma_trim_start(piece@, start as int);
        lemma_trim_end(middle, end - start);
        assert(middle.subrange(0, end - start) == piece@.subrange(start as int, end as int));
    }
    let mut out: Vec<char> = Vec::new();
    let mut i: usize = start;
    while i < end
        invariant
            start <= i <= end <= piece.len(),
            out@ == piece@.subrange(start as int, i as int),
        decreases end - i,
    {
        out.push(piece[i]);
        i += 1;
    }
    out
}

/// The pieces of a text between the separators.
pub fn split_chars(s: &Vec<char>, sep: char) -> (pieces: Vec<Vec<char>>)
    ensures
        pieces.deep_view() == split_on(s@, sep),
{
    let mut done: Vec<Vec<char>> = Vec::new();
    let mut current: Vec<char> = Vec::new();
    let mut i: usize = 0;
    assert(done.deep_view().push(current@) == split_on(s@.take(0), sep));
    while i < s.len()
        invariant
            i <= s.len(),
            done.deep_view().push(current@) == split_on(s@.take(i as int), sep),
        decreases s.len() - i,
    {
        let ghost before = split_on(s@.take(i as int), sep);
        let ghost closed = done.deep_view();
        let ghost open = current@;
        proof {
            assert(s@.take(i + 1).drop_last() == s@.take(i as int));
            assert(before.drop_last() == closed);
            assert(before.last() == open);
        }
        if s[i] == sep {
            proof {
                lemma_chars_view(current);
            }
            done.push(current);
            current = Vec::new();
            assert(done.deep_view() == closed.push(open));
        } else {
            current.push(s[i]);
        }
        i += 1;
    }
    let ghost closed = done.deep_view();
    let ghost open = current@;
    proof {
        lemma_chars_view(current);
    }
    done.push(current);
    assert(done.deep_view() == closed.push(open));
    assert(s@.take(s.len() as int) == s@);
    done
}

/// The keys of a legacy ledger: the pieces between `;`, trimmed, without the
/// empty ones.
pub fn parse_legacy_ledger(content: &str) -> (keys: Vec<String>)
    ensures
        keys.deep_view() == legacy_keys(content@),
{
    let chars = chars_of(content);
    let pieces = split_chars(&chars, ';');
    let mut keys: Vec<String> = Vec::new();
    let mut i: usize = 0;
    while i < pieces.len()
        invariant
            i <= pieces.len(),
            keys.deep_view() == kept_keys(pieces.deep_view().take(i as int)),
        decreases pieces.len() - i,
    {
        let ghost before = keys.deep_view();
        proof {
            let upto = pieces.deep_view().take(i + 1);
            assert(upto.drop_last() == pieces.deep_view().take(i as int));
            assert(upto.last() == pieces[i as int]@);
        }
        let key = trim_chars(&pieces[i]);
        if key.len() > 0 {
            let text = string_of(&key);
            keys.push(text);
            assert(keys.deep_view() == before.push(key@));
        }
        i += 1;
    }
    assert(pieces.deep_view().take(pieces.len() as int) == pieces.deep_view());
    keys
}

/// The keys of the entries that are marked as translated.
pub fn collect_completed_keys(entries: &Vec<Entry>) -> (keys: Vec<String>)
    ensures
        keys.deep_view() == completed_keys(entries.deep_view()),
{
    let mut keys: Vec<String> = Vec::new();
    let mut i: usize = 0;
    while i < entries.len()
        invariant
            i <= entries.len(),
            keys.deep_view() == completed_keys(entries.deep_view().take(i as int)),
        decreases entries.len() - i,
    {
        let ghost before = keys.deep_view();
        proof {
            let upto = entries.deep_view().take(i + 1);
            assert(upto.drop_last() == entries.deep_view().take(i as int));
            assert(upto.last() == entries[i as int]@);
        }
        if entries[i].is_translated {
            let key = entries[i].key.clone();
            keys.push(key);
            assert(keys.deep_view() == before.push(entries[i as int].key@));
        }
        i += 1;
    }
    assert(entries.deep_view().take(entries.len() as int) == entries.deep_view());
    keys
}

/// The keys to merge into a reopened document: the structured ledger is
/// preferred, the legacy ledger is read where there is no structured one, and
/// with neither there are no keys.
pub fn load_translated_keys(structured: Option<&TranslatedKeysData>, legacy: Option<&str>) -> (keys:
    Vec<String>)
    ensures
        keys.deep_view() == merged_keys(
            match structured {
                Some(ledger) => Some(ledger@),
                None => None,
            },
            match legacy {
                Some(content) => Some(content@),
                None => None,
            },
        ),
{
    match structured {
        Some(ledger) => {
            let keys = ledger.keys.clone();
            assert(keys.deep_view() == ledger.keys.deep_view());
            keys
        },
        None => match legacy {
            Some(content) => parse_legacy_ledger(content),
            None => {
                let keys: Vec<String> = Vec::new();
                assert(keys.deep_view() == Seq::<Text>::empty());
                keys
            },
        },
    }
}

/// The keys that the entries would have marked once the mark of entry
/// `index` were flipped. The entries themselves stay as they are.
pub fn collect_keys_after_toggle(entries: &Vec<Entry>, index: usize) -> (keys: Vec<String>)
    ensures
        keys.deep_view() == completed_keys(toggled(entries.deep_view(), index as int)),
{
    let ghost after = toggled(entries.deep_view(), index as int);
    let mut keys: Vec<String> = Vec::new();
    let mut i: usize = 0;
    while i < entries.len()
        invariant
            i <= entries.len(),
            after == toggled(entries.deep_view(), index as int),
            keys.deep_view() == completed_keys(after.take(i as int)),
        decreases entries.len() - i,
    {
        let ghost before = keys.deep_view();
        proof {
            let upto = after.take(i + 1);
            assert(upto.drop_last() == after.take(i as int));
            assert(upto.last() == after[i as int]);
            assert(after[i as int].key == entries[i as int].key@);
        }
        let marked = if i == index {
            !entries[i].is_translated
        } else {
            entries[i].is_translated
        };
        if marked {
            let key = entries[i].key.clone();
            keys.push(key);
            assert(keys.deep_view() == before.push(entries[i as int].key@));
        }
        i += 1;
    }
    assert(after.take(entries.len() as int) == after);
    keys
}

/// The structured ledger with the given keys, stamped with `last_updated`.
pub fn ledger_record(keys: Vec<String>, last_updated: String) -> (data: TranslatedKeysData)
    ensures
        data@ == (LedgerView { keys: keys.deep_view(), last_updated: last_updated@ }),
{
    TranslatedKeysData { keys, last_updated }
}

} // verus!
