//! How the snapshot of a document is named, and how such a name is told
//! from that of a source document.

use vstd::prelude::*;
use crate::json::Text;
use crate::text::{append_chars, chars_of, matches_at, occurs_at, string_of};

verus! {

/// The ending of every snapshot name for the given suffix: `_`, the suffix,
/// and `.json`.
pub open spec fn snapshot_ending(suffix: Text) -> Text {
    seq!['_'] + suffix + seq!['.', 'j', 's', 'o', 'n']
}

/// The file name of the snapshot of the document whose name, without its
/// extension, is `stem`.
pub open spec fn snapshot_name(stem: Text, suffix: Text) -> Text {
    stem + snapshot_ending(suffix)
}

/// `name` ends with `ending`.
pub open spec fn ends_with(name: Text, ending: Text) -> bool {
    ending.len() <= name.len() && name.subrange(name.len() - ending.len(), name.len() as int)
        == ending
}

/// The name of a snapshot ends as snapshot names do: a snapshot is never
/// taken for a source document.
pub proof fn lemma_snapshot_is_told(stem: Text, suffix: Text)
    ensures
        ends_with(snapshot_name(stem, suffix), snapshot_ending(suffix)),
{
    let name = snapshot_name(stem, suffix);
    let ending = snapshot_ending(suffix);
    assert(name.subrange(name.len() - ending.len(), name.len() as int) =~= ending);
}

fn ending_chars(translation_suffix: &str) -> (ending: Vec<char>)
    ensures
        ending@ == snapshot_ending(translation_suffix@),
{
    let mut ending: Vec<char> = Vec::new();
    ending.push('_');
    let suffix = chars_of(translation_suffix);
    append_chars(&mut ending, &suffix);
    ending.push('.');
    ending.push('j');
    ending.push('s');
    ending.push('o');
    ending.push('n');
    assert(ending@ =~= snapshot_ending(translation_suffix@));
    ending
}

/// The file name of the snapshot of a document, from the name of the
/// document without its extension.
pub fn snapshot_file_name(stem: &str, translation_suffix: &str) -> (name: String)
    ensures
        name@ == snapshot_name(stem@, translation_suffix@),
{
    let mut name = chars_of(stem);
    let ending = ending_chars(translation_suffix);
    append_chars(&mut name, &ending);
    string_of(&name)
}

/// Whether a file name is that of a snapshot, which the list of source
/// documents leaves out.
pub fn is_snapshot_name(file_name: &str, translation_suffix: &str) -> (told: bool)
    ensures
        told == ends_with(file_name@, snapshot_ending(translation_suffix@)),
{
    let name = chars_of(file_name);
    let ending = ending_chars(translation_suffix);
    if ending.len() > name.len() {
        return false;
    }
    let at: usize = name.len() - ending.len();
    assert(occurs_at(name@, ending@, at as int) == ends_with(name@, ending@));
    matches_at(&name, &ending, at)
}

} // verus!
