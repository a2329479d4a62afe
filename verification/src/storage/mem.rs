//! An in-memory file store on which no call fails.
use vstd::prelude::*;
use vstd::string::StringSliceAdditionalSpecFns;
use vstd::utf8::valid_utf8;

use crate::error::{CoreError, CoreResult};
use crate::network::portal::lossy_text;
use crate::text::{owned, str_eq};

use super::{FileStorage, StoreCall};

verus! {

/// The files held by `es`, later entries winning.
pub open spec fn entry_map(es: Seq<(String, Vec<u8>)>) -> Map<Seq<char>, Seq<u8>>
    decreases es.len(),
{
    if es.len() == 0 {
        Map::empty()
    } else {
        entry_map(es.drop_last()).insert(es.last().0@, es.last().1@)
    }
}

/// The index of the last entry for `p`, when there is one.
pub open spec fn last_for(es: Seq<(String, Vec<u8>)>, p: Seq<char>) -> Option<int>
    decreases es.len(),
{
    if es.len() == 0 {
        None
    } else if es.last().0@ == p {
        Some(es.len() - 1)
    } else {
        last_for(es.drop_last(), p)
    }
}

proof fn lemma_last_for(es: Seq<(String, Vec<u8>)>, p: Seq<char>)
    ensures
        match last_for(es, p) {
            Some(i) => 0 <= i < es.len() && es[i].0@ == p && entry_map(es).contains_key(p) && entry_map(es)[p]
                == es[i].1@,
            None => !entry_map(es).contains_key(p),
        },
    decreases es.len(),
{
    if es.len() > 0 {
        lemma_last_for(es.drop_last(), p);
    }
}

/// Files in memory: no call fails, and a read gives back what was written.
pub struct MemStorage {
    pub entries: Vec<(String, Vec<u8>)>,
    /// Every call made to change the store, with its result.
    pub log: Ghost<Seq<(StoreCall, CoreResult<()>)>>,
}

impl MemStorage {
    /// An empty store.
    pub fn new() -> (m: Self)
        ensures
            m.files() == Map::<Seq<char>, Seq<u8>>::empty(),
            m.reliable(),
            m.calls() == Seq::<(StoreCall, CoreResult<()>)>::empty(),
    {
        MemStorage { entries: Vec::new(), log: Ghost(Seq::empty()) }
    }

    /// The last entry for `path`.
    fn find(&self, path: &str) -> (r: Option<usize>)
        ensures
            match r {
                Some(i) => last_for(self.entries@, path@) == Some(i as int) && i < self.entries@.len(),
                None => last_for(self.entries@, path@) is None,
            },
    {
        let mut i: usize = self.entries.len();
        assert(self.entries@.take(i as int) =~= self.entries@);
        while i > 0
            invariant
                i <= self.entries@.len(),
                last_for(self.entries@, path@) == last_for(self.entries@.take(i as int), path@),
            decreases i,
        {
            let ghost t = self.entries@.take(i as int);
            assert(t.drop_last() =~= self.entries@.take(i - 1));
            if str_eq(self.entries[i - 1].0.as_str(), path) {
                return Some(i - 1);
            }
            i -= 1;
        }
        assert(self.entries@.take(0).len() == 0);
        None
    }

    /// Drop every entry for `path`.
    fn drop_path(&mut self, path: &str)
        ensures
            final(self).files() == old(self).files().remove(path@),
            final(self).log == old(self).log,
    {
        let ghost es = self.entries@;
        let mut kept: Vec<(String, Vec<u8>)> = Vec::new();
        let mut old_entries: Vec<(String, Vec<u8>)> = Vec::new();
        std::mem::swap(&mut old_entries, &mut self.entries);
        assert(old_entries@ == es);
        let mut i: usize = 0;
        while i < old_entries.len()
            invariant
                old_entries@ == es,
                i <= es.len(),
                entry_map(kept@) == entry_map(es.take(i as int)).remove(path@),
            decreases es.len() - i,
        {
            let ghost t = es.take(i + 1);
            assert(t.drop_last() =~= es.take(i as int));
            let e = &old_entries[i];
            if !str_eq(e.0.as_str(), path) {
                let ghost k2 = kept@;
                let copy = (owned(e.0.as_str()), copy_bytes(&e.1));
                kept.push(copy);
                assert(kept@.drop_last() =~= k2);
                assert(entry_map(kept@) =~= entry_map(es.take(i + 1)).remove(path@));
            } else {
                assert(entry_map(kept@) =~= entry_map(es.take(i + 1)).remove(path@));
            }
            i += 1;
        }
        assert(es.take(es.len() as int) =~= es);
        self.entries = kept;
    }
}

/// A copy of the bytes.
fn copy_bytes(src: &Vec<u8>) -> (out: Vec<u8>)
    ensures
        out@ == src@,
{
    let mut out: Vec<u8> = Vec::new();
    let mut k: usize = 0;
    while k < src.len()
        invariant
            k <= src@.len(),
            out@ == src@.take(k as int),
        decreases src@.len() - k,
    {
        out.push(src[k]);
        k += 1;
        assert(out@ =~= src@.take(k as int));
    }
    assert(src@.take(src@.len() as int) =~= src@);
    out
}

impl FileStorage for MemStorage {
    open spec fn files(&self) -> Map<Seq<char>, Seq<u8>> {
        entry_map(self.entries@)
    }

    open spec fn reliable(&self) -> bool {
        true
    }

    open spec fn calls(&self) -> Seq<(StoreCall, CoreResult<()>)> {
        self.log@
    }

    fn read_to_string(&self, path: &str) -> (r: CoreResult<Option<String>>) {
        broadcast use vstd::utf8::decode_utf8_encode_utf8;
        proof {
            lemma_last_for(self.entries@, path@);
        }
        match self.find(path) {
            Some(i) => {
                let bytes = self.entries[i].1.as_slice();
                assert(self.files()[path@] == bytes@);
                let s = lossy_text(bytes);
                let back = s.as_str().as_bytes();
                assert(valid_utf8(bytes@) ==> back@ == bytes@);
                if back.len() != bytes.len() {
                    return Err(CoreError::Storage(owned("not UTF-8")));
                }
                let mut k: usize = 0;
                while k < bytes.len()
                    invariant
                        back@.len() == bytes@.len(),
                        valid_utf8(bytes@) ==> back@ == bytes@,
                        self.files().contains_key(path@) && self.files()[path@] == bytes@,
                        k <= bytes@.len(),
                        forall|j: int| 0 <= j < k ==> back@[j] == bytes@[j],
                    decreases bytes@.len() - k,
                {
                    if back[k] != bytes[k] {
                        return Err(CoreError::Storage(owned("not UTF-8")));
                    }
                    k += 1;
                }
                assert(back@ =~= bytes@);
                Ok(Some(s))
            },
            None => Ok(None),
        }
    }

    fn read_bytes(&self, path: &str) -> (r: CoreResult<Option<Vec<u8>>>) {
        proof {
            lemma_last_for(self.entries@, path@);
        }
        match self.find(path) {
            Some(i) => {
                assert(self.files()[path@] == self.entries@[i as int].1@);
                Ok(Some(copy_bytes(&self.entries[i].1)))
            },
            None => Ok(None),
        }
    }

    fn write_bytes(&mut self, path: &str, data: &[u8]) -> (r: CoreResult<()>) {
        let mut v: Vec<u8> = Vec::new();
        let mut k: usize = 0;
        while k < data.len()
            invariant
                k <= data@.len(),
                v@ == data@.take(k as int),
            decreases data@.len() - k,
        {
            v.push(data[k]);
            k += 1;
            assert(v@ =~= data@.take(k as int));
        }
        assert(data@.take(data@.len() as int) =~= data@);
        let ghost es = self.entries@;
        self.entries.push((owned(path), v));
        assert(self.entries@.drop_last() =~= es);
        self.log = Ghost(self.log@.push((StoreCall::Write(path@, data@), Ok(()))));
        Ok(())
    }

    fn path_exists(&self, path: &str) -> (r: CoreResult<bool>) {
        proof {
            lemma_last_for(self.entries@, path@);
        }
        Ok(self.find(path).is_some())
    }

    fn remove(&mut self, path: &str) -> (r: CoreResult<()>) {
        self.drop_path(path);
        self.log = Ghost(self.log@.push((StoreCall::Remove(path@), Ok(()))));
        Ok(())
    }

    fn rename(&mut self, from: &str, to: &str) -> (r: CoreResult<()>) {
        let data = match self.read_bytes(from) {
            Ok(Some(d)) => d,
            Ok(None) => {
                let e = CoreError::Storage(owned("rename source missing"));
                self.log = Ghost(self.log@.push((StoreCall::Rename(from@, to@), Err(e))));
                return Err(e);
            },
            Err(e) => {
                self.log = Ghost(self.log@.push((StoreCall::Rename(from@, to@), Err(e))));
                return Err(e);
            },
        };
        self.drop_path(from);
        let ghost es = self.entries@;
        self.entries.push((owned(to), data));
        assert(self.entries@.drop_last() =~= es);
        self.log = Ghost(self.log@.push((StoreCall::Rename(from@, to@), Ok(()))));
        Ok(())
    }
}

} // verus!
