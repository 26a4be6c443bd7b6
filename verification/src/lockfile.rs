//! The lockfile: the persisted set of (relative path, last-known source
//! timestamp) records that one output directory was bootstrapped from.
//! The old lockfile of a run is only read, the new one only appended to.

use vstd::prelude::*;

verus! {

/// One tracked file: its root-relative path and the source modification
/// timestamp (milliseconds since the epoch) recorded for it.
pub struct FileRecord {
    pub path: String,
    pub date: u64,
}

/// An ordered set of file records, keyed by relative path.
pub struct Lockfile {
    pub files: Vec<FileRecord>,
}

/// The timestamp recorded for `path`, first record wins.
pub open spec fn lookup_record(files: Seq<FileRecord>, path: Seq<char>) -> Option<u64>
    decreases files.len(),
{
    if files.len() == 0 {
        None
    } else if files[0].path@ == path {
        Some(files[0].date)
    } else {
        lookup_record(files.skip(1), path)
    }
}

/// A path none of the records carries is not in the lockfile.
pub proof fn lemma_lookup_absent(files: Seq<FileRecord>, path: Seq<char>)
    requires
        forall|k: int| 0 <= k < files.len() ==> files[k].path@ != path,
    ensures
        lookup_record(files, path) is None,
    decreases files.len(),
{
    if files.len() > 0 {
        lemma_lookup_absent(files.skip(1), path);
    }
}

/// With pairwise distinct paths, the record that carries `path` answers
/// the lookup.
pub proof fn lemma_lookup_distinct(files: Seq<FileRecord>, i: int)
    requires
        0 <= i < files.len(),
        forall|a: int, b: int|
            0 <= a < b < files.len() ==> files[a].path@ != files[b].path@,
    ensures
        lookup_record(files, files[i].path@) == Some(files[i].date),
    decreases files.len(),
{
    if i > 0 {
        assert(files[0].path@ != files[i].path@);
        lemma_lookup_distinct(files.skip(1), i - 1);
    }
}

impl Lockfile {
    /// The recorded timestamp of `path`, as a spec-level map.
    pub open spec fn time_of(&self, path: Seq<char>) -> Option<u64> {
        lookup_record(self.files@, path)
    }

    /// An empty lockfile, the starting point of every run's new lockfile
    /// and the old lockfile of an output directory without one.
    pub fn new() -> (r: Lockfile)
        ensures
            r.files@.len() == 0,
    {
        Lockfile { files: Vec::new() }
    }

    /// Looks the recorded timestamp of `path` up.
    pub fn get_time(&self, path: &str) -> (r: Option<u64>)
        ensures
            r == self.time_of(path@),
    {
        let n = self.files.len();
        let mut i: usize = 0;
        proof {
            assert(self.files@.skip(0) =~= self.files@);
        }
        while i < n
            invariant
                0 <= i <= n,
                n == self.files@.len(),
                lookup_record(self.files@, path@) == lookup_record(
                    self.files@.skip(i as int),
                    path@,
                ),
            decreases n - i,
        {
            proof {
                assert(self.files@.skip(i as int).skip(1) =~= self.files@.skip(i + 1));
            }
            if crate::text::str_eq(self.files[i].path.as_str(), path) {
                return Some(self.files[i].date);
            }
            i += 1;
        }
        None
    }
}

} // verus!
