//! Note storage: index, tags and per-note metadata on a pluggable file store.
use vstd::prelude::*;

use crate::error::{CoreError, CoreResult};
use crate::text::owned;
use vstd::utf8::{decode_utf8, encode_utf8, valid_utf8};
use vstd::string::StringSliceAdditionalSpecFns;

pub mod index;
pub mod mem;
pub mod meta;
pub mod tags;

pub use meta::{read_note_meta_value, save_tag, write_note_meta};
pub use tags::{add_custom_tag, delete_tag, load_tags, save_tags, TagStore};
pub use index::{
    add_to_index, delete_note, load_index, next_note_number, save_index, update_index_has_text,
    IndexStore, NoteEntry,
};

verus! {

/// The text a file holds, when it is there.
pub open spec fn file_text(files: Map<Seq<char>, Seq<u8>>, path: Seq<char>) -> Option<Seq<char>> {
    if files.contains_key(path) {
        Some(decode_utf8(files[path]))
    } else {
        None
    }
}

/// The file, when there, holds UTF-8 text.
pub open spec fn text_file_ok(files: Map<Seq<char>, Seq<u8>>, path: Seq<char>) -> bool {
    files.contains_key(path) ==> valid_utf8(files[path])
}

/// The files after an atomic write of `data` to `path` through `tmp`.
pub open spec fn after_atomic_write(
    files: Map<Seq<char>, Seq<u8>>,
    path: Seq<char>,
    tmp: Seq<char>,
    data: Seq<u8>,
) -> Map<Seq<char>, Seq<u8>> {
    files.remove(tmp).insert(path, data)
}

/// A call that changes, or tries to change, a store's files.
pub enum StoreCall {
    /// Create or replace a file with these bytes.
    Write(Seq<char>, Seq<u8>),
    /// Remove a file.
    Remove(Seq<char>),
    /// Move a file from the first path to the second.
    Rename(Seq<char>, Seq<char>),
}

/// The calls an atomic write of `data` to `path` through `tmp` makes on a
/// store holding `files`, when each of them succeeds: remove a stale `tmp`,
/// write `tmp`, remove `path` when it is there, rename `tmp` to `path`.
pub open spec fn atomic_plan(
    files: Map<Seq<char>, Seq<u8>>,
    path: Seq<char>,
    tmp: Seq<char>,
    data: Seq<u8>,
) -> Seq<StoreCall> {
    let after_write = files.remove(tmp).insert(tmp, data);
    (if files.contains_key(tmp) {
        seq![StoreCall::Remove(tmp)]
    } else {
        Seq::empty()
    }) + seq![StoreCall::Write(tmp, data)] + (if after_write.contains_key(path) {
        seq![StoreCall::Remove(path)]
    } else {
        Seq::empty()
    }) + seq![StoreCall::Rename(tmp, path)]
}

/// The calls `made` follow `plan` in order, as far as they go, and every call
/// but the last one made succeeded: nothing is called after a failure.
pub open spec fn follows_plan(made: Seq<(StoreCall, CoreResult<()>)>, plan: Seq<StoreCall>) -> bool {
    &&& made.len() <= plan.len()
    &&& forall|i: int| 0 <= i < made.len() ==> (#[trigger] made[i]).0 == plan[i]
    &&& forall|i: int| 0 <= i < made.len() - 1 ==> (#[trigger] made[i]).1 is Ok
}

/// What an atomic write made of the store's calls, from `c0` to `c1`: the
/// calls it added follow the plan, it succeeded exactly when the whole plan
/// went through, and a failed call's error is the one returned.
pub open spec fn atomic_calls(
    c0: Seq<(StoreCall, CoreResult<()>)>,
    c1: Seq<(StoreCall, CoreResult<()>)>,
    files: Map<Seq<char>, Seq<u8>>,
    path: Seq<char>,
    tmp: Seq<char>,
    data: Seq<u8>,
    r: CoreResult<()>,
) -> bool {
    let plan = atomic_plan(files, path, tmp, data);
    let made = c1.skip(c0.len() as int);
    &&& c0.len() <= c1.len()
    &&& c1.take(c0.len() as int) == c0
    &&& follows_plan(made, plan)
    &&& (r is Ok <==> made.len() == plan.len() && made.last().1 is Ok)
    &&& (made.len() > 0 && made.last().1 is Err ==> r == made.last().1)
}

/// In an atomic write to `path` through another path `tmp`, the target is
/// removed only after a call that wrote `data` to `tmp` succeeded.
pub proof fn lemma_target_removed_after_write(
    made: Seq<(StoreCall, CoreResult<()>)>,
    files: Map<Seq<char>, Seq<u8>>,
    path: Seq<char>,
    tmp: Seq<char>,
    data: Seq<u8>,
)
    requires
        path != tmp,
        follows_plan(made, atomic_plan(files, path, tmp, data)),
    ensures
        forall|i: int|
            0 <= i < made.len() && (#[trigger] made[i]).0 == StoreCall::Remove(path) ==> exists|j: int|
                0 <= j < i && made[j].0 == StoreCall::Write(tmp, data) && made[j].1 is Ok,
{
    let plan = atomic_plan(files, path, tmp, data);
    let k: int = if files.contains_key(tmp) { 1 } else { 0 };
    assert(plan[k] == StoreCall::Write(tmp, data));
    assert forall|i: int|
        0 <= i < made.len() && (#[trigger] made[i]).0 == StoreCall::Remove(path) implies exists|j: int|
            0 <= j < i && made[j].0 == StoreCall::Write(tmp, data) && made[j].1 is Ok by {
        assert(made[i].0 == plan[i]);
        if k == 1 {
            assert(plan[0] == StoreCall::Remove(tmp));
        }
        assert(i > k);
        assert(made[k].0 == plan[k]);
        assert(made[k].1 is Ok);

    }
}

/// Trait for filesystem I/O — implemented by the host mock and the SD adapter (firmware).
///
/// Its contracts speak of `files`, the store's contents by path, and of
/// `reliable`, a store on which no call fails. `MemStorage` defines both and is
/// verified against them. An implementation outside the verified library that
/// keeps the defaults (an empty map, never reliable) cannot meet the contracts
/// on the contents: for it they are a protocol it is trusted to follow, and
/// nothing here checks it.
pub trait FileStorage {
    /// The files the store holds: path to bytes.
    closed spec fn files(&self) -> Map<Seq<char>, Seq<u8>> {
        Map::empty()
    }

    /// No call on the store fails for a reason of its own (no I/O fault).
    closed spec fn reliable(&self) -> bool {
        false
    }

    /// Every call made to change the store, with its result, oldest first.
    closed spec fn calls(&self) -> Seq<(StoreCall, CoreResult<()>)> {
        Seq::empty()
    }

    /// The file's text; `None` when it is missing. Bytes that are not UTF-8
    /// are an error.
    fn read_to_string(&self, path: &str) -> (r: CoreResult<Option<String>>)
        ensures
            r matches Ok(Some(s)) ==> self.files().contains_key(path@) && self.files()[path@] == encode_utf8(s@),
            r matches Ok(None) ==> !self.files().contains_key(path@),
            self.reliable() && text_file_ok(self.files(), path@) ==> r is Ok,
    ;

    /// The file's bytes; `None` when it is missing.
    fn read_bytes(&self, path: &str) -> (r: CoreResult<Option<Vec<u8>>>)
        ensures
            r matches Ok(Some(b)) ==> self.files().contains_key(path@) && self.files()[path@] == b@,
            r matches Ok(None) ==> !self.files().contains_key(path@),
            self.reliable() ==> r is Ok,
    ;

    /// Create or replace the file.
    fn write_bytes(&mut self, path: &str, data: &[u8]) -> (r: CoreResult<()>)
        ensures
            r is Ok ==> final(self).files() == old(self).files().insert(path@, data@),
            old(self).reliable() ==> r is Ok,
            final(self).reliable() == old(self).reliable(),
            final(self).calls() == old(self).calls().push((StoreCall::Write(path@, data@), r)),
    ;

    fn path_exists(&self, path: &str) -> (r: CoreResult<bool>)
        ensures
            r matches Ok(b) ==> b == self.files().contains_key(path@),
            self.reliable() ==> r is Ok,
    ;

    /// Remove the file; a missing file is no error.
    fn remove(&mut self, path: &str) -> (r: CoreResult<()>)
        ensures
            r is Ok ==> final(self).files() == old(self).files().remove(path@),
            old(self).reliable() ==> r is Ok,
            final(self).reliable() == old(self).reliable(),
            final(self).calls() == old(self).calls().push((StoreCall::Remove(path@), r)),
    ;

    /// Move `from` to `to`, replacing `to`; a missing `from` is an error.
    fn rename(&mut self, from: &str, to: &str) -> (r: CoreResult<()>)
        ensures
            r is Ok ==> old(self).files().contains_key(from@) && final(self).files() == old(self).files().remove(
                from@,
            ).insert(to@, old(self).files()[from@]),
            old(self).reliable() && old(self).files().contains_key(from@) ==> r is Ok,
            final(self).reliable() == old(self).reliable(),
            final(self).calls() == old(self).calls().push((StoreCall::Rename(from@, to@), r)),
    ;

    /// Atomic write: write to `tmp_path`, remove `path`, rename tmp → path.
    /// The calls follow `atomic_plan` and stop at the first failure, whose
    /// error is returned; so `path` is removed only once `tmp_path` holds
    /// `data` (see `lemma_target_removed_after_write`).
    fn atomic_write(&mut self, path: &str, tmp_path: &str, data: &[u8]) -> (r: CoreResult<()>)
        ensures
            r is Ok ==> path@ != tmp_path@ && final(self).files() == after_atomic_write(
                old(self).files(),
                path@,
                tmp_path@,
                data@,
            ),
            old(self).reliable() && path@ != tmp_path@ ==> r is Ok,
            final(self).reliable() == old(self).reliable(),
            atomic_calls(old(self).calls(), final(self).calls(), old(self).files(), path@, tmp_path@, data@, r),
    {
        let ghost c0 = self.calls();
        let ghost n0 = c0.len() as int;
        assert(self.calls().skip(n0) =~= Seq::<(StoreCall, CoreResult<()>)>::empty());
        assert(self.calls().take(n0) =~= c0);
        let had_tmp = match self.path_exists(tmp_path) {
            Ok(b) => b,
            Err(e) => return Err(e),
        };
        if had_tmp {
            let r1 = self.remove(tmp_path);
            assert(self.calls().skip(n0) =~= seq![(StoreCall::Remove(tmp_path@), r1)]);
            assert(self.calls().take(n0) =~= c0);
            if r1.is_err() {
                return r1;
            }
        }
        let ghost m1 = self.calls().skip(n0);
        let r2 = self.write_bytes(tmp_path, data);
        assert(self.calls().skip(n0) =~= m1.push((StoreCall::Write(tmp_path@, data@), r2)));
        assert(self.calls().take(n0) =~= c0);
        if r2.is_err() {
            return r2;
        }
        let had_path = match self.path_exists(path) {
            Ok(b) => b,
            Err(e) => return Err(e),
        };
        if had_path {
            let ghost m2 = self.calls().skip(n0);
            let r3 = self.remove(path);
            assert(self.calls().skip(n0) =~= m2.push((StoreCall::Remove(path@), r3)));
            assert(self.calls().take(n0) =~= c0);
            if r3.is_err() {
                return r3;
            }
        }
        let ghost f2 = self.files();
        let ghost m3 = self.calls().skip(n0);
        let r4 = self.rename(tmp_path, path);
        assert(self.calls().skip(n0) =~= m3.push((StoreCall::Rename(tmp_path@, path@), r4)));
        assert(self.calls().take(n0) =~= c0);
        if r4.is_err() {
            return r4;
        }
        proof {
            if path@ == tmp_path@ {
                assert(!f2.contains_key(tmp_path@));
            }
            assert(self.files() =~= after_atomic_write(old(self).files(), path@, tmp_path@, data@));
        }
        Ok(())
    }

    /// Write `content`'s UTF-8 bytes.
    fn write_string(&mut self, path: &str, content: &str) -> (r: CoreResult<()>)
        ensures
            r is Ok ==> final(self).files() == old(self).files().insert(path@, encode_utf8(content@)),
            old(self).reliable() ==> r is Ok,
            final(self).reliable() == old(self).reliable(),
            final(self).calls() == old(self).calls().push((StoreCall::Write(path@, encode_utf8(content@)), r)),
    {
        self.write_bytes(path, content.as_bytes())
    }

    /// Atomic write of `content`'s UTF-8 bytes.
    fn atomic_write_string(&mut self, path: &str, tmp_path: &str, content: &str) -> (r: CoreResult<()>)
        ensures
            r is Ok ==> path@ != tmp_path@ && final(self).files() == after_atomic_write(
                old(self).files(),
                path@,
                tmp_path@,
                encode_utf8(content@),
            ),
            old(self).reliable() && path@ != tmp_path@ ==> r is Ok,
            final(self).reliable() == old(self).reliable(),
            atomic_calls(
                old(self).calls(),
                final(self).calls(),
                old(self).files(),
                path@,
                tmp_path@,
                encode_utf8(content@),
                r,
            ),
    {
        self.atomic_write(path, tmp_path, content.as_bytes())
    }
}

/// A storage error carrying `msg`.
pub fn storage_err(msg: &str) -> (e: CoreError)
    ensures
        e matches CoreError::Storage(m) && m@ == msg@,
{
    CoreError::Storage(owned(msg))
}

} // verus!
