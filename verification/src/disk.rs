//! A model of the relevant local disk state: which files exist and how many
//! bytes each holds. The engine never touches the filesystem itself; callers
//! probe the real disk, hand the observations in, and apply the returned
//! plans. Re-deriving state from a fresh `DiskState` on every check is what
//! makes repeated acquisition idempotent.
use vstd::prelude::*;

verus! {

/// Files known to exist, newest observation first; the first entry for a
/// path wins, so recording a path again models an overwrite.
#[derive(Debug, Clone)]
pub struct DiskState {
    pub files: Vec<(String, u64)>,
}

/// The size of the first entry for `path`, or `None` when absent.
pub open spec fn spec_lookup(files: Seq<(String, u64)>, path: Seq<char>) -> Option<u64>
    decreases files.len(),
{
    if files.len() == 0 {
        Option::None
    } else if files[0].0@ == path {
        Option::Some(files[0].1)
    } else {
        spec_lookup(files.skip(1), path)
    }
}

impl DiskState {
    /// The recorded size of `path`, if present.
    pub open spec fn spec_file_size(&self, path: Seq<char>) -> Option<u64> {
        spec_lookup(self.files@, path)
    }

    /// Whether `path` is present.
    pub open spec fn spec_has(&self, path: Seq<char>) -> bool {
        self.spec_file_size(path) is Some
    }

    /// An empty disk: nothing is present.
    pub fn new() -> (r: DiskState)
        ensures
            forall|p: Seq<char>| !r.spec_has(p),
    {
        DiskState { files: Vec::new() }
    }

    /// Looks up the recorded size of `path`.
    pub fn file_size(&self, path: &str) -> (r: Option<u64>)
        ensures
            r == self.spec_file_size(path@),
    {
        let mut i: usize = 0;
        proof {
            assert(self.files@.skip(0) =~= self.files@);
        }
        while i < self.files.len()
            invariant
                i <= self.files@.len(),
                spec_lookup(self.files@, path@) == spec_lookup(
                    self.files@.skip(i as int),
                    path@,
                ),
            decreases self.files@.len() - i,
        {
            proof {
                assert(self.files@.skip(i as int)[0] == self.files@[i as int]);
                assert(self.files@.skip(i as int).skip(1) =~= self.files@.skip(i + 1));
            }
            if crate::text::str_eq(self.files[i].0.as_str(), path) {
                return Some(self.files[i].1);
            }
            i += 1;
        }
        proof {
            assert(self.files@.skip(self.files@.len() as int) =~= Seq::<(String, u64)>::empty());
        }
        None
    }

    /// Whether `path` is present.
    pub fn has_file(&self, path: &str) -> (r: bool)
        ensures
            r == self.spec_has(path@),
    {
        self.file_size(path).is_some()
    }

    /// Records that `path` now exists with `size` bytes, shadowing any
    /// earlier observation of the same path.
    pub fn record(&mut self, path: String, size: u64)
        ensures
            final(self).spec_file_size(path@) == Option::Some(size),
            forall|p: Seq<char>|
                p != path@ ==> final(self).spec_file_size(p) == old(self).spec_file_size(p),
    {
        let ghost prev = self.files@;
        self.files.insert(0, (path, size));
        proof {
            assert(self.files@[0].0@ == path@);
            assert(self.files@.skip(1) =~= prev);
            assert forall|p: Seq<char>| p != path@ implies spec_lookup(self.files@, p)
                == spec_lookup(prev, p) by {
                assert(self.files@[0].0@ != p);
            }
        }
    }
}

/// Whether the file at `path` passes the cheap integrity check: it exists,
/// and when `expected_size` is nonzero its recorded size matches.
pub open spec fn spec_file_ok(disk: &DiskState, path: Seq<char>, expected_size: u64) -> bool {
    match disk.spec_file_size(path) {
        Option::None => false,
        Option::Some(sz) => expected_size == 0 || sz == expected_size,
    }
}

/// Verifies that a file exists and is not broken, by expected size; a zero
/// `expected_size` skips the size comparison.
pub fn verify_file_existence(path_str: &String, expected_size: u64, disk: &DiskState) -> (r: bool)
    ensures
        r == spec_file_ok(disk, path_str@, expected_size),
{
    match disk.file_size(path_str.as_str()) {
        Option::None => false,
        Option::Some(sz) => expected_size == 0 || sz == expected_size,
    }
}

} // verus!
