//! A filesystem written down as a table, for callers that have its answers at
//! hand before they resolve a path.

use crate::path::same_spelling;
use crate::resolver::{answer_view, Answer, Filesystem};
use vstd::prelude::*;
use vstd::slice::slice_to_vec;

verus! {

/// One path that exists, with the filesystem's answer to making it canonical.
struct Entry {
    path: Vec<u8>,
    answer: Result<Vec<u8>, String>,
}

/// The table that a list of entries stands for. A later entry for a path
/// replaces an earlier one.
spec fn table_of(entries: Seq<Entry>) -> Map<Seq<u8>, Answer>
    decreases entries.len(),
{
    if entries.len() == 0 {
        Map::empty()
    } else {
        table_of(entries.drop_last()).insert(entries.last().path@, answer_view(entries.last().answer))
    }
}

/// The reason that a snapshot gives for a path that it does not hold.
pub const NOT_FOUND: &'static str = "No such file or directory";

/// A record of the paths that exist, each with its canonical form or the
/// reason why it has none. Paths are told apart by their spelling. A path that
/// is not recorded does not exist.
pub struct Snapshot {
    entries: Vec<Entry>,
}

impl View for Snapshot {
    type V = Filesystem;

    /// The filesystem that the snapshot stands for.
    open spec fn view(&self) -> Filesystem {
        Filesystem {
            present: |path: Seq<u8>| self.table().contains_key(path),
            canonical: |path: Seq<u8>|
                if self.table().contains_key(path) {
                    self.table()[path]
                } else {
                    Err(NOT_FOUND@)
                },
        }
    }
}

impl Snapshot {
    /// The recorded paths and the answer for each.
    pub closed spec fn table(&self) -> Map<Seq<u8>, Answer> {
        table_of(self.entries@)
    }

    /// A snapshot of a filesystem in which nothing exists.
    pub fn new() -> (r: Snapshot)
        ensures
            r.table() == Map::<Seq<u8>, Answer>::empty(),
    {
        Snapshot { entries: Vec::new() }
    }

    /// Records that `path` exists and that `canonical` is its canonical form.
    pub fn record(&mut self, path: &[u8], canonical: &[u8])
        ensures
            final(self).table() == old(self).table().insert(path@, Answer::Ok(canonical@)),
    {
        let ghost before = self.entries@;
        self.entries.push(Entry { path: slice_to_vec(path), answer: Ok(slice_to_vec(canonical)) });
        proof {
            assert(self.entries@.drop_last() == before);
        }
    }

    /// Records that `path` exists but cannot be made canonical, for `reason`.
    pub fn record_failure(&mut self, path: &[u8], reason: &str)
        ensures
            final(self).table() == old(self).table().insert(path@, Answer::Err(reason@)),
    {
        let ghost before = self.entries@;
        self.entries.push(Entry { path: slice_to_vec(path), answer: Err(String::from_str(reason)) });
        proof {
            assert(self.entries@.drop_last() == before);
        }
    }

    /// The index of the entry that answers for `path`, if there is one.
    fn find(&self, path: &[u8]) -> (r: Option<usize>)
        ensures
            match r {
                Some(k) => {
                    &&& k < self.entries@.len()
                    &&& self.table().contains_key(path@)
                    &&& self.table()[path@] == answer_view(self.entries@[k as int].answer)
                },
                None => !self.table().contains_key(path@),
            },
    {
        let mut k = self.entries.len();
        proof {
            assert(self.entries@.take(k as int) == self.entries@);
        }
        while k > 0
            invariant
                k <= self.entries@.len(),
                self.table().contains_key(path@) == table_of(
                    self.entries@.take(k as int),
                ).contains_key(path@),
                self.table().contains_key(path@) ==> self.table()[path@] == table_of(
                    self.entries@.take(k as int),
                )[path@],
            decreases k,
        {
            let ghost upto = self.entries@.take(k as int);
            k -= 1;
            proof {
                assert(upto.drop_last() == self.entries@.take(k as int));
                assert(upto.last() == self.entries@[k as int]);
            }
            if same_spelling(self.entries[k].path.as_slice(), path) {
                return Some(k);
            }
        }
        None
    }

    /// Whether `path` exists.
    pub fn is_present(&self, path: &[u8]) -> (r: bool)
        ensures
            r == (self@.present)(path@),
    {
        self.find(path).is_some()
    }

    /// The canonical form of `path`, or the reason why it has none.
    pub fn canonicalize(&self, path: &[u8]) -> (r: Result<Vec<u8>, String>)
        ensures
            answer_view(r) == (self@.canonical)(path@),
    {
        match self.find(path) {
            Some(k) => match &self.entries[k].answer {
                Ok(canonical) => Ok(canonical.clone()),
                Err(reason) => Err(reason.clone()),
            },
            None => Err(String::from_str(NOT_FOUND)),
        }
    }
}

} // verus!
