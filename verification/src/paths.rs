//! Storage paths and limits.
use vstd::prelude::*;

use crate::text::{fmt_int, push_int_padded, push_str};

verus! {

pub const NOTES_DIR: &'static str = "notes";

pub const INDEX_FILE: &'static str = "notes/index.csv";

pub const INDEX_TMP: &'static str = "notes/index.tmp";

pub const TAG_FILE: &'static str = "notes/tags.txt";

pub const TAG_TMP: &'static str = "notes/tags.tmp";

pub const MAX_TAGS: usize = 20;

/// Each file and its temporary twin are different paths.
pub proof fn lemma_store_paths_distinct()
    ensures
        INDEX_FILE@ != INDEX_TMP@,
        TAG_FILE@ != TAG_TMP@,
{
    reveal_strlit("notes/index.csv");
    reveal_strlit("notes/index.tmp");
    reveal_strlit("notes/tags.txt");
    reveal_strlit("notes/tags.tmp");
    assert(INDEX_FILE@[12] != INDEX_TMP@[12]);
    assert(TAG_FILE@[12] != TAG_TMP@[12]);
}

/// A note's files are none of the store's own files, and the note's `.wav`
/// and `.txt` differ.
pub proof fn lemma_note_paths_distinct(num: i32)
    ensures
        note_path_spec(num, "wav"@) != note_path_spec(num, "txt"@),
        note_path_spec(num, "wav"@) != INDEX_FILE@,
        note_path_spec(num, "wav"@) != INDEX_TMP@,
        note_path_spec(num, "txt"@) != INDEX_FILE@,
        note_path_spec(num, "txt"@) != INDEX_TMP@,
{
    reveal_strlit("notes/index.csv");
    reveal_strlit("notes/index.tmp");
    reveal_strlit("notes/note_");
    reveal_strlit(".");
    reveal_strlit("wav");
    reveal_strlit("txt");
    let w = note_path_spec(num, "wav"@);
    let t = note_path_spec(num, "txt"@);
    assert(w[6] == 'n' && t[6] == 'n');
    assert(INDEX_FILE@[6] == 'i' && INDEX_TMP@[6] == 'i');
    assert(w.len() == t.len());
    assert(w[w.len() - 3] == 'w' && t[t.len() - 3] == 't');
}

/// A note's `.wav` is never any note's `.txt`.
pub proof fn lemma_wav_not_txt(a: i32, b: i32)
    ensures
        note_path_spec(a, "wav"@) != note_path_spec(b, "txt"@),
{
    reveal_strlit("wav");
    reveal_strlit("txt");
    let w = note_path_spec(a, "wav"@);
    let t = note_path_spec(b, "txt"@);
    assert(w[w.len() - 3] == 'w' && t[t.len() - 3] == 't');
}

pub const MAX_TAG_LEN: usize = 31;

pub const DEFAULT_TAGS: [&'static str; 5] = ["Note", "Work", "Idea", "Buy", "Private"];

/// `notes/note_NNN.ext` with the number zero-padded to three places.
pub open spec fn note_path_spec(num: i32, ext: Seq<char>) -> Seq<char> {
    "notes/note_"@ + fmt_int(num as int, 3) + "."@ + ext
}

/// Build path for a note file: `notes/note_NNN.ext`
pub fn note_path(num: i32, ext: &str) -> (p: String)
    ensures
        p@ == note_path_spec(num, ext@),
{
    let mut p = String::new();
    push_str(&mut p, "notes/note_");
    push_int_padded(&mut p, num as i64, 3);
    push_str(&mut p, ".");
    push_str(&mut p, ext);
    assert(p@ =~= note_path_spec(num, ext@));
    p
}

} // verus!
