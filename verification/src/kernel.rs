//! The kernel: a 26-slot drive table indexed by `A..Z`, the mount
//! call, and the path-resolution algorithm that walks a `LETTER:/a/b/c`
//! path one component at a time, using only the operations the drive's
//! table exposes.
//!
//! Paths are resolved byte-wise.  `:` and `/` are ASCII, so splitting
//! on their byte values agrees with splitting the character string.

use vstd::prelude::*;
use vstd::string::StringSliceAdditionalSpecFns;

use crate::vfs::{
    spec_dir_create, spec_dir_find, spec_dir_mkdir, spec_entry_open, spec_entry_open_dir,
    spec_file_read, spec_file_write, BackendModel, DirEntry, Directory, Drive, DriveModel, File,
    FsError, FsResult,
};

verus! {

/// Index of the first occurrence of `c` in `s`, if any.
pub open spec fn spec_find_byte(s: Seq<u8>, c: u8) -> Option<int>
    decreases s.len(),
{
    if s.len() == 0 {
        None
    } else if s[0] == c {
        Some(0)
    } else {
        match spec_find_byte(s.skip(1), c) {
            None => None,
            Some(i) => Some(i + 1),
        }
    }
}

/// Index of the last occurrence of `c` in `s`, if any.
pub open spec fn spec_rfind_byte(s: Seq<u8>, c: u8) -> Option<int>
    decreases s.len(),
{
    if s.len() == 0 {
        None
    } else if s[s.len() - 1] == c {
        Some(s.len() - 1)
    } else {
        spec_rfind_byte(s.drop_last(), c)
    }
}

/// What a found index means: it is in range, it carries `c`, and
/// nothing before it does; `None` means `c` does not occur at all.
pub proof fn lemma_find_byte_characterization(s: Seq<u8>, c: u8)
    ensures
        match spec_find_byte(s, c) {
            None => forall|t: int| 0 <= t < s.len() ==> s[t] != c,
            Some(i) => 0 <= i < s.len() && s[i] == c && forall|t: int| 0 <= t < i ==> s[t] != c,
        },
    decreases s.len(),
{
    if s.len() > 0 && s[0] != c {
        lemma_find_byte_characterization(s.skip(1), c);
        let rest = s.skip(1);
        assert(forall|t: int| 0 <= t < rest.len() ==> rest[t] == s[t + 1]);
        match spec_find_byte(rest, c) {
            None => {
                assert forall|t: int| 0 <= t < s.len() implies s[t] != c by {
                    if t > 0 {
                        assert(rest[t - 1] != c);
                    }
                }
            },
            Some(i) => {
                assert forall|t: int| 0 <= t < i + 1 implies s[t] != c by {
                    if t > 0 {
                        assert(rest[t - 1] != c);
                    }
                }
            },
        }
    }
}

/// The exact index `spec_find_byte` returns, given a witness.
pub proof fn lemma_find_byte_is(s: Seq<u8>, c: u8, i: int)
    requires
        0 <= i < s.len(),
        s[i] == c,
        forall|t: int| 0 <= t < i ==> s[t] != c,
    ensures
        spec_find_byte(s, c) == Some(i),
{
    lemma_find_byte_characterization(s, c);
}

/// `spec_find_byte` misses exactly when `c` does not occur.
pub proof fn lemma_find_byte_none(s: Seq<u8>, c: u8)
    requires
        forall|t: int| 0 <= t < s.len() ==> s[t] != c,
    ensures
        spec_find_byte(s, c) == None::<int>,
{
    lemma_find_byte_characterization(s, c);
}

/// The symmetric characterization for the last occurrence.
pub proof fn lemma_rfind_byte_characterization(s: Seq<u8>, c: u8)
    ensures
        match spec_rfind_byte(s, c) {
            None => forall|t: int| 0 <= t < s.len() ==> s[t] != c,
            Some(i) => 0 <= i < s.len() && s[i] == c && forall|t: int| i < t < s.len() ==> s[t] != c,
        },
    decreases s.len(),
{
    if s.len() > 0 && s[s.len() - 1] != c {
        lemma_rfind_byte_characterization(s.drop_last(), c);
        let head = s.drop_last();
        assert(forall|t: int| 0 <= t < head.len() ==> head[t] == s[t]);
    }
}

/// The exact index `spec_rfind_byte` returns, given a witness.
pub proof fn lemma_rfind_byte_is(s: Seq<u8>, c: u8, i: int)
    requires
        0 <= i < s.len(),
        s[i] == c,
        forall|t: int| i < t < s.len() ==> s[t] != c,
    ensures
        spec_rfind_byte(s, c) == Some(i),
{
    lemma_rfind_byte_characterization(s, c);
}

/// Split at the first occurrence of `c`: the part before it and the
/// part after it, the separator dropped.
pub open spec fn spec_split_once(s: Seq<u8>, c: u8) -> Option<(Seq<u8>, Seq<u8>)> {
    match spec_find_byte(s, c) {
        None => None,
        Some(i) => if 0 <= i < s.len() {
            Some((s.subrange(0, i), s.subrange(i + 1, s.len() as int)))
        } else {
            None
        },
    }
}

/// Find the first occurrence of `c` in `s[lo..hi]`.
fn find_byte_in(s: &[u8], lo: usize, hi: usize, c: u8) -> (r: Option<usize>)
    requires
        lo <= hi <= s@.len(),
    ensures
        match spec_find_byte(s@.subrange(lo as int, hi as int), c) {
            None => r is None,
            Some(i) => r == Some((lo + i) as usize),
        },
{
    let ghost sub = s@.subrange(lo as int, hi as int);
    let mut j = lo;
    while j < hi
        invariant
            lo <= j <= hi <= s@.len(),
            sub == s@.subrange(lo as int, hi as int),
            forall|t: int| lo <= t < j ==> s@[t] != c,
        decreases hi - j,
    {
        if *vstd::slice::slice_index_get(s, j) == c {
            proof {
                assert(sub[j - lo] == c);
                assert forall|t: int| 0 <= t < j - lo implies sub[t] != c by {
                    assert(sub[t] == s@[lo + t]);
                }
                lemma_find_byte_is(sub, c, j - lo);
            }
            return Some(j);
        }
        j = j + 1;
    }
    proof {
        assert forall|t: int| 0 <= t < sub.len() implies sub[t] != c by {
            assert(sub[t] == s@[lo + t]);
        }
        lemma_find_byte_none(sub, c);
    }
    None
}

/// Find the last occurrence of `c` in `s`.
fn rfind_byte(s: &[u8], c: u8) -> (r: Option<usize>)
    ensures
        match spec_rfind_byte(s@, c) {
            None => r is None,
            Some(i) => r == Some(i as usize),
        },
        r matches Some(j) ==> j < s@.len(),
{
    let mut j = s.len();
    while j > 0
        invariant
            j <= s@.len(),
            forall|t: int| j <= t < s@.len() ==> s@[t] != c,
        decreases j,
    {
        j = j - 1;
        if *vstd::slice::slice_index_get(s, j) == c {
            proof {
                lemma_rfind_byte_is(s@, c, j as int);
            }
            return Some(j);
        }
    }
    proof {
        lemma_rfind_byte_characterization(s@, c);
    }
    None
}

/// Walk `rest` one component at a time from the open directory `dir`:
/// each `/`-separated component is looked up and re-opened as a
/// directory, and the final segment is looked up and returned as the
/// terminal entry.  An empty component is looked up literally.
pub open spec fn spec_resolve_components(b: BackendModel, dir: Directory, rest: Seq<u8>) -> FsResult<
    DirEntry,
>
    decreases rest.len(),
{
    match spec_split_once(rest, 47u8) {
        None => spec_dir_find(b, dir, rest),
        Some((comp, tail)) => match spec_dir_find(b, dir, comp) {
            Err(e) => Err(e),
            Ok(ent) => match spec_entry_open_dir(b, ent) {
                Err(e) => Err(e),
                Ok(d2) => spec_resolve_components(b, d2, tail),
            },
        },
    }
}

/// The drive slot a parsed path addresses: its first byte, offset from
/// the letter `A`.  Meaningful once the path has passed the drive
/// letter checks.
pub open spec fn spec_path_drive(p: Seq<u8>) -> int {
    p[0] as int - 65
}

/// What resolving `p` against the drive table `k` returns.
///
/// The path splits at the first `:`; the left part must be a single
/// byte in `A..Z` naming a mounted drive, the rest must start with `/`.
/// An empty rest denotes the drive's root, with no traversal; one
/// trailing `/` is tolerated; everything else is walked component by
/// component over the drive's own operations.
pub open spec fn spec_vfs_find(k: Seq<Option<DriveModel>>, p: Seq<u8>) -> FsResult<DirEntry> {
    match spec_split_once(p, 58u8) {
        None => Err(FsError::InvalidPath),
        Some((drv, rest0)) => if drv.len() != 1 {
            Err(FsError::InvalidDrive)
        } else if drv[0] < 65 || drv[0] > 90 {
            Err(FsError::InvalidDrive)
        } else if !(0 <= spec_path_drive(p) < k.len() && k[spec_path_drive(p)] is Some) {
            Err(FsError::MissingDrive)
        } else {
            let drive = k[spec_path_drive(p)]->Some_0;
            if rest0.len() == 0 || rest0[0] != 47 {
                Err(FsError::InvalidPath)
            } else {
                let rest = rest0.skip(1);
                if rest.len() == 0 {
                    Ok(drive.root)
                } else {
                    let rest2 = if rest[rest.len() - 1] == 47 {
                        rest.drop_last()
                    } else {
                        rest
                    };
                    match spec_entry_open_dir(drive.backend, drive.root) {
                        Err(e) => Err(e),
                        Ok(dir) => spec_resolve_components(drive.backend, dir, rest2),
                    }
                }
            }
        },
    }
}

/// The kernel: at most one mounted drive for each letter `A..Z`.
pub struct Kernel {
    drives: Vec<Option<Drive>>,
}

impl View for Kernel {
    type V = Seq<Option<DriveModel>>;

    closed spec fn view(&self) -> Seq<Option<DriveModel>> {
        self.drives@.map_values(
            |od: Option<Drive>|
                match od {
                    Some(d) => Some(d@),
                    None => None,
                },
        )
    }
}

impl Kernel {
    /// One slot for each letter, and every mounted drive well formed.
    pub open spec fn wf(self) -> bool {
        &&& self@.len() == 26
        &&& forall|i: int|
            0 <= i < 26 ==> match #[trigger] self@[i] {
                Some(d) => d.wf(),
                None => true,
            }
    }

    /// An empty drive table: nothing mounted anywhere.
    pub fn new() -> (r: Kernel)
        ensures
            r.wf(),
            r@.len() == 26,
            forall|i: int| 0 <= i < 26 ==> r@[i] is None,
    {
        let mut drives: Vec<Option<Drive>> = Vec::new();
        let mut i: usize = 0;
        while i < 26
            invariant
            0 <= i <= 26,
            drives@.len() == i,
            forall|t: int| 0 <= t < i ==> drives@[t] is None,
            decreases 26 - i,
        {
            drives.push(None);
            i = i + 1;
        }
        let r = Kernel { drives };
        proof {
            assert(forall|t: int| 0 <= t < 26 ==> r@[t] is None);
        }
        r
    }

    /// Resolve a path, given as bytes, to its terminal entry.
    fn vfs_find_raw(&self, path: &[u8]) -> (r: FsResult<DirEntry>)
        requires
            self.wf(),
        ensures
            r == spec_vfs_find(self@, path@),
            r matches Ok(e) ==> {
                let di = spec_path_drive(path@);
                &&& 0 <= di < 26
                &&& self@[di] is Some
                &&& self@[di]->Some_0.backend.valid_entry(e)
            },
    {
        let n = path.len();
        proof {
            assert(path@.subrange(0, n as int) =~= path@);
        }
        let ci = match find_byte_in(path, 0, n, 58u8) {
            None => {
                return Err(FsError::InvalidPath);
            },
            Some(ci) => ci,
        };
        proof {
            lemma_find_byte_characterization(path@, 58u8);
            assert(path@.subrange(0, ci as int).len() == ci as int);
        }
        if ci != 1 {
            return Err(FsError::InvalidDrive);
        }
        proof {
            assert(path@.subrange(0, 1)[0] == path@[0]);
        }
        let c = *vstd::slice::slice_index_get(path, 0);
        if c < 65 || c > 90 {
            return Err(FsError::InvalidDrive);
        }
        let di: usize = (c - 65) as usize;
        let drive = match &self.drives[di] {
            None => {
                proof {
                    assert(self@[di as int] is None);
                }
                return Err(FsError::MissingDrive);
            },
            Some(drive) => drive,
        };
        proof {
            assert(self@[di as int] == Some(drive@));
            assert(drive@.wf());
        }
        let ghost rest0 = path@.subrange(2, n as int);
        if n == 2 || *vstd::slice::slice_index_get(path, 2) != 47 {
            proof {
                assert(rest0.len() == 0 || rest0[0] == path@[2]);
            }
            return Err(FsError::InvalidPath);
        }
        let mut lo: usize = 3;
        let mut hi: usize = n;
        proof {
            assert(rest0[0] == path@[2] && rest0[0] == 47);
            assert(rest0.skip(1) =~= path@.subrange(3, n as int));
        }
        if lo == hi {
            return Ok(drive.root);
        }
        if *vstd::slice::slice_index_get(path, hi - 1) == 47 {
            hi = hi - 1;
            proof {
                let rest = path@.subrange(3, n as int);
                assert(rest[rest.len() - 1] == path@[n - 1]);
                assert(rest.drop_last() =~= path@.subrange(3, hi as int));
            }
        } else {
            proof {
                let rest = path@.subrange(3, n as int);
                assert(rest[rest.len() - 1] == path@[n - 1]);
            }
        }
        let ghost rest2 = path@.subrange(lo as int, hi as int);
        let ghost bm = drive@.backend;
        let mut dir = match drive.root.open_dir(&drive.backend) {
            Err(e) => {
                return Err(e);
            },
            Ok(d) => d,
        };
        loop
            invariant
                self.wf(),
                lo <= hi <= path@.len(),
                bm == drive@.backend,
                bm.wf(),
                bm.valid_dir(dir),
                0 <= spec_path_drive(path@) < 26,
                self@[spec_path_drive(path@)] == Some(drive@),
                spec_resolve_components(bm, dir, path@.subrange(lo as int, hi as int))
                    == spec_vfs_find(self@, path@),
            decreases hi - lo,
        {
            let ghost seg = path@.subrange(lo as int, hi as int);
            match find_byte_in(path, lo, hi, 47u8) {
                None => {
                    let r = dir.find_raw(&drive.backend, vstd::slice::slice_subrange(path, lo, hi));
                    return r;
                },
                Some(k) => {
                    proof {
                        lemma_find_byte_characterization(seg, 47u8);
                        assert(seg.subrange(0, k - lo) =~= path@.subrange(lo as int, k as int));
                        assert(seg.subrange(k - lo + 1, seg.len() as int) =~= path@.subrange(
                            k as int + 1,
                            hi as int,
                        ));
                    }
                    let ent = match dir.find_raw(
                        &drive.backend,
                        vstd::slice::slice_subrange(path, lo, k),
                    ) {
                        Err(e) => {
                            return Err(e);
                        },
                        Ok(ent) => ent,
                    };
                    dir = match ent.open_dir(&drive.backend) {
                        Err(e) => {
                            return Err(e);
                        },
                        Ok(d) => d,
                    };
                    lo = k + 1;
                },
            }
        }
    }

    /// Resolve a path to its terminal directory entry.  `LETTER:/`
    /// resolves to the drive's root without any traversal.
    pub fn vfs_find(&self, path: &str) -> (r: FsResult<DirEntry>)
        requires
            self.wf(),
        ensures
            r == spec_vfs_find(self@, path.spec_bytes()),
    {
        self.vfs_find_raw(path.as_bytes())
    }

    /// Resolve the parent of `path` to an open directory and run `op`
    /// on it; shared shape of `vfs_create` and `vfs_mkdir`.
    fn parent_dir_mutation(&mut self, path: &[u8], mk: bool) -> (r: FsResult<()>)
        requires
            old(self).wf(),
        ensures
            final(self).wf(),
            ({
                let step = if mk {
                    spec_vfs_mkdir(old(self)@, path@)
                } else {
                    spec_vfs_create(old(self)@, path@)
                };
                r == step.0 && final(self)@ == step.1
            }),
    {
        let pn = match vfs_path_split_parent(path) {
            Err(e) => {
                return Err(e);
            },
            Ok(t) => t,
        };
        let pp = pn.0;
        let name = pn.1;
        let ent = match self.vfs_find_raw(pp) {
            Err(e) => {
                return Err(e);
            },
            Ok(ent) => ent,
        };
        proof {
            lemma_find_byte_characterization(pp@, 58u8);
            assert(pp@.subrange(0, 1)[0] == pp@[0]);
        }
        let c = *vstd::slice::slice_index_get(pp, 0);
        let di: usize = (c - 65) as usize;
        let ghost k = self@;
        let slot = &mut self.drives[di];
        match slot {
            None => {
                proof {
                    assert(false);
                }
                Err(FsError::MissingDrive)
            },
            Some(drive) => {
                let ghost dm = drive@;
                let res = match ent.open_dir(&drive.backend) {
                    Err(e) => Err(e),
                    Ok(mut dir) => {
                        if mk {
                            dir.mkdir_raw(&mut drive.backend, name)
                        } else {
                            dir.create_raw(&mut drive.backend, name)
                        }
                    },
                };
                proof {
                    let step = if mk {
                        spec_vfs_mkdir(k, path@)
                    } else {
                        spec_vfs_create(k, path@)
                    };
                    assert(drive@.wf()) by {
                        match spec_entry_open_dir(dm.backend, ent) {
                            Err(e) => {},
                            Ok(dir0) => {
                                assert(dm.backend.valid_dir(dir0));
                            },
                        }
                    }
                    assert(self@ =~= step.1);
                }
                res
            },
        }
    }

    /// Create an empty file at `path`: the parent path (everything up
    /// to the last `/`) is resolved and opened as a directory, and the
    /// backend's `create` gets the final component as the new name.
    pub fn vfs_create(&mut self, path: &str) -> (r: FsResult<()>)
        requires
            old(self).wf(),
        ensures
            final(self).wf(),
            r == spec_vfs_create(old(self)@, path.spec_bytes()).0,
            final(self)@ == spec_vfs_create(old(self)@, path.spec_bytes()).1,
    {
        self.parent_dir_mutation(path.as_bytes(), false)
    }

    /// Create an empty subdirectory at `path`, as `vfs_create` does
    /// for files.
    pub fn vfs_mkdir(&mut self, path: &str) -> (r: FsResult<()>)
        requires
            old(self).wf(),
        ensures
            final(self).wf(),
            r == spec_vfs_mkdir(old(self)@, path.spec_bytes()).0,
            final(self)@ == spec_vfs_mkdir(old(self)@, path.spec_bytes()).1,
    {
        self.parent_dir_mutation(path.as_bytes(), true)
    }

    /// Resolve `path` and open the terminal entry as a file.
    pub fn vfs_open(&self, path: &str) -> (r: FsResult<File>)
        requires
            self.wf(),
        ensures
            r == spec_vfs_open(self@, path.spec_bytes()),
    {
        let bytes = path.as_bytes();
        let ent = match self.vfs_find_raw(bytes) {
            Err(e) => {
                return Err(e);
            },
            Ok(ent) => ent,
        };
        proof {
            lemma_find_byte_characterization(bytes@, 58u8);
            assert(bytes@.subrange(0, 1)[0] == bytes@[0]);
        }
        let c = *vstd::slice::slice_index_get(bytes, 0);
        let di: usize = (c - 65) as usize;
        match &self.drives[di] {
            None => {
                proof {
                    assert(false);
                }
                Err(FsError::MissingDrive)
            },
            Some(drive) => ent.open(&drive.backend),
        }
    }

    /// Mount `drive` under `letter`.  Fails with `InvalidDrive`
    /// outside `A..Z` and with `AlreadyExists` on an occupied slot,
    /// leaving the table unchanged in both cases.
    pub fn mount_drive(&mut self, letter: char, drive: Drive) -> (r: FsResult<()>)
        requires
            old(self).wf(),
            drive@.wf(),
        ensures
            final(self).wf(),
            r == spec_mount(old(self)@, letter, drive@).0,
            final(self)@ == spec_mount(old(self)@, letter, drive@).1,
    {
        let lu = letter as u32;
        if lu < 65 || lu > 90 {
            return Err(FsError::InvalidDrive);
        }
        let di: usize = (lu - 65) as usize;
        let ghost k = self@;
        let slot = &mut self.drives[di];
        match slot {
            Some(_) => {
                proof {
                    assert(self@ =~= k);
                }
                Err(FsError::AlreadyExists)
            },
            None => {
                *slot = Some(drive);
                proof {
                    assert(self@ =~= k.update(di as int, Some(drive@)));
                }
                Ok(())
            },
        }
    }

    /// Clear `letter`'s slot and hand the drive back to the caller.
    /// Fails with `InvalidDrive` outside `A..Z` and with
    /// `MissingDrive` on an empty slot.
    pub fn unmount_drive(&mut self, letter: char) -> (r: FsResult<Drive>)
        requires
            old(self).wf(),
        ensures
            final(self).wf(),
            final(self)@ == spec_unmount(old(self)@, letter).1,
            match (r, spec_unmount(old(self)@, letter).0) {
                (Ok(d), Ok(dm)) => d@ == dm && d@.wf(),
                (Err(e1), Err(e2)) => e1 == e2,
                _ => false,
            },
    {
        let lu = letter as u32;
        if lu < 65 || lu > 90 {
            return Err(FsError::InvalidDrive);
        }
        let di: usize = (lu - 65) as usize;
        let ghost k = self@;
        let slot = &mut self.drives[di];
        match slot {
            None => {
                proof {
                    assert(self@ =~= k);
                }
                Err(FsError::MissingDrive)
            },
            Some(_) => {
                let taken = slot.take();
                proof {
                    assert(self@ =~= k.update(di as int, None));
                }
                match taken {
                    Some(d) => Ok(d),
                    None => {
                        proof {
                            assert(false);
                        }
                        Err(FsError::MissingDrive)
                    },
                }
            },
        }
    }
}

/// Split a path into parent (everything up to and including the last
/// `/`) and final component; `InvalidPath` when there is no `/` or the
/// final component is empty.
pub open spec fn spec_split_parent(p: Seq<u8>) -> FsResult<(Seq<u8>, Seq<u8>)> {
    match spec_rfind_byte(p, 47u8) {
        None => Err(FsError::InvalidPath),
        Some(a) => if 0 <= a < p.len() {
            if a + 1 == p.len() {
                Err(FsError::InvalidPath)
            } else {
                Ok((p.subrange(0, a + 1), p.subrange(a + 1, p.len() as int)))
            }
        } else {
            Err(FsError::InvalidPath)
        },
    }
}

/// Result and new drive table of `vfs_create` at `path`.
pub open spec fn spec_vfs_create(k: Seq<Option<DriveModel>>, p: Seq<u8>) -> (FsResult<()>, Seq<
    Option<DriveModel>,
>) {
    match spec_split_parent(p) {
        Err(e) => (Err(e), k),
        Ok((pp, name)) => match spec_vfs_find(k, pp) {
            Err(e) => (Err(e), k),
            Ok(ent) => {
                let di = spec_path_drive(pp);
                let drive = k[di]->Some_0;
                match spec_entry_open_dir(drive.backend, ent) {
                    Err(e) => (Err(e), k),
                    Ok(dir) => {
                        let step = spec_dir_create(drive.backend, dir, name);
                        (
                            step.0,
                            k.update(
                                di,
                                Some(DriveModel { root: drive.root, fsops: drive.fsops, backend: step.1 }),
                            ),
                        )
                    },
                }
            },
        },
    }
}

/// Result and new drive table of `vfs_mkdir` at `path`.
pub open spec fn spec_vfs_mkdir(k: Seq<Option<DriveModel>>, p: Seq<u8>) -> (FsResult<()>, Seq<
    Option<DriveModel>,
>) {
    match spec_split_parent(p) {
        Err(e) => (Err(e), k),
        Ok((pp, name)) => match spec_vfs_find(k, pp) {
            Err(e) => (Err(e), k),
            Ok(ent) => {
                let di = spec_path_drive(pp);
                let drive = k[di]->Some_0;
                match spec_entry_open_dir(drive.backend, ent) {
                    Err(e) => (Err(e), k),
                    Ok(dir) => {
                        let step = spec_dir_mkdir(drive.backend, dir, name);
                        (
                            step.0,
                            k.update(
                                di,
                                Some(DriveModel { root: drive.root, fsops: drive.fsops, backend: step.1 }),
                            ),
                        )
                    },
                }
            },
        },
    }
}

/// What `vfs_open` at `path` returns.
pub open spec fn spec_vfs_open(k: Seq<Option<DriveModel>>, p: Seq<u8>) -> FsResult<File> {
    match spec_vfs_find(k, p) {
        Err(e) => Err(e),
        Ok(ent) => spec_entry_open(k[spec_path_drive(p)]->Some_0.backend, ent),
    }
}

/// Result and new drive table of mounting `d` under `letter`.
pub open spec fn spec_mount(k: Seq<Option<DriveModel>>, letter: char, d: DriveModel) -> (FsResult<
    (),
>, Seq<Option<DriveModel>>) {
    if (letter as int) < 65 || (letter as int) > 90 {
        (Err(FsError::InvalidDrive), k)
    } else {
        let di = letter as int - 65;
        if k[di] is Some {
            (Err(FsError::AlreadyExists), k)
        } else {
            (Ok(()), k.update(di, Some(d)))
        }
    }
}

/// Result and new drive table of unmounting `letter`.
pub open spec fn spec_unmount(k: Seq<Option<DriveModel>>, letter: char) -> (FsResult<DriveModel>, Seq<
    Option<DriveModel>,
>) {
    if (letter as int) < 65 || (letter as int) > 90 {
        (Err(FsError::InvalidDrive), k)
    } else {
        let di = letter as int - 65;
        if k[di] is None {
            (Err(FsError::MissingDrive), k)
        } else {
            (Ok(k[di]->Some_0), k.update(di, None))
        }
    }
}

/// Resolving `LETTER:/` on a mounted, well-formed drive whose table
/// has the `open_dir` slot returns the drive's root, and opening that
/// root as a directory never errors.
pub proof fn lemma_resolve_root(k: Seq<Option<DriveModel>>, letter: u8)
    requires
        k.len() == 26,
        65 <= letter <= 90,
        k[letter - 65] is Some,
        k[letter - 65]->Some_0.wf(),
        k[letter - 65]->Some_0.root.fsops.open_dir,
    ensures
        spec_vfs_find(k, seq![letter, 58u8, 47u8]) == Ok::<DirEntry, FsError>(
            k[letter - 65]->Some_0.root,
        ),
        spec_entry_open_dir(k[letter - 65]->Some_0.backend, k[letter - 65]->Some_0.root) is Ok,
{
    let p = seq![letter, 58u8, 47u8];
    assert(p[0] == letter && p[1] == 58u8 && p[2] == 47u8);
    lemma_find_byte_is(p, 58u8, 1);
    let drv = p.subrange(0, 1);
    let rest0 = p.subrange(2, 3);
    assert(drv.len() == 1 && drv[0] == letter);
    assert(rest0.len() == 1 && rest0[0] == 47u8);
    assert(rest0.skip(1).len() == 0);
    let drive = k[letter - 65]->Some_0;
    match drive.backend {
        BackendModel::Tmpfs(m) => {
            assert(m.ents[drive.root.private as int].kind is Directory);
        },
    }
}

/// Mounting outside `A..Z` fails with `InvalidDrive`; mounting a
/// letter that a first mount just filled fails with `AlreadyExists`.
/// Both failures leave the drive table exactly as it was.
pub proof fn lemma_mount_errors(
    k: Seq<Option<DriveModel>>,
    letter: char,
    d1: DriveModel,
    d2: DriveModel,
)
    requires
        k.len() == 26,
    ensures
        ((letter as int) < 65 || (letter as int) > 90) ==> spec_mount(k, letter, d1) == (
            Err::<(), FsError>(FsError::InvalidDrive),
            k,
        ),
        (65 <= (letter as int) <= 90 && spec_mount(k, letter, d1).0 is Ok) ==> spec_mount(
            spec_mount(k, letter, d1).1,
            letter,
            d2,
        ) == (Err::<(), FsError>(FsError::AlreadyExists), spec_mount(k, letter, d1).1),
{
}

/// Resolution of `L:/d/f` in the state a fresh drive reaches after
/// `mkdir` of `d` and `create` of `f`: two directory nodes (root and
/// `d`), three entries (root, `d`, `f`), and `f` denoting file node 0.
/// Parametric in the file contents, so it covers the states both
/// before and after a write.
proof fn lemma_resolve_file_path(
    k: Seq<Option<DriveModel>>,
    letter: u8,
    d: Seq<u8>,
    f: Seq<u8>,
    m: crate::tmpfs::FsModel,
)
    requires
        k.len() == 26,
        65 <= letter <= 90,
        d.len() > 0,
        f.len() > 0,
        forall|t: int| 0 <= t < d.len() ==> d[t] != 47,
        forall|t: int| 0 <= t < f.len() ==> f[t] != 47,
        k[letter - 65] matches Some(dm) && dm == (DriveModel {
            root: DirEntry { fsops: crate::tmpfs::spec_tmpfs_fsops(), private: 0 },
            fsops: crate::tmpfs::spec_tmpfs_fsops(),
            backend: BackendModel::Tmpfs(m),
        }),
        m.dirs.len() == 2,
        m.ents.len() == 3,
        m.dirs[0] == seq![DirEntry { fsops: crate::tmpfs::spec_tmpfs_fsops(), private: 1 }],
        m.dirs[1] == seq![DirEntry { fsops: crate::tmpfs::spec_tmpfs_fsops(), private: 2 }],
        m.ents[0].kind == (crate::tmpfs::TmpfsDirEntryKind::Directory {
            dir: Directory { fsops: crate::tmpfs::spec_tmpfs_fsops(), private: 0 },
        }),
        m.ents[1].name == d,
        m.ents[1].kind == (crate::tmpfs::TmpfsDirEntryKind::Directory {
            dir: Directory { fsops: crate::tmpfs::spec_tmpfs_fsops(), private: 1 },
        }),
        m.ents[2].name == f,
        m.ents[2].kind == (crate::tmpfs::TmpfsDirEntryKind::File {
            file: File { fsops: crate::tmpfs::spec_tmpfs_fsops(), private: 0 },
        }),
    ensures
        spec_vfs_find(k, seq![letter, 58u8, 47u8] + d + seq![47u8] + f) == Ok::<DirEntry, FsError>(
            DirEntry { fsops: crate::tmpfs::spec_tmpfs_fsops(), private: 2 },
        ),
        spec_vfs_open(k, seq![letter, 58u8, 47u8] + d + seq![47u8] + f) == Ok::<File, FsError>(
            File { fsops: crate::tmpfs::spec_tmpfs_fsops(), private: 0 },
        ),
{
    let ops = crate::tmpfs::spec_tmpfs_fsops();
    let root = DirEntry { fsops: ops, private: 0 };
    let dir0 = Directory { fsops: ops, private: 0 };
    let h1 = DirEntry { fsops: ops, private: 1 };
    let dir1 = Directory { fsops: ops, private: 1 };
    let h2 = DirEntry { fsops: ops, private: 2 };
    let file0 = File { fsops: ops, private: 0 };
    let b = BackendModel::Tmpfs(m);
    let p = seq![letter, 58u8, 47u8] + d + seq![47u8] + f;
    let n = p.len() as int;
    assert(n == 4 + d.len() + f.len());
    assert(p[0] == letter && p[1] == 58u8 && p[2] == 47u8);
    assert(forall|t: int| 0 <= t < d.len() ==> p[3 + t] == d[t]);
    assert(p[3 + d.len() as int] == 47u8);
    assert(forall|t: int| 0 <= t < f.len() ==> p[4 + d.len() + t] == f[t]);
    lemma_find_byte_is(p, 58u8, 1);
    let drv = p.subrange(0, 1);
    assert(drv.len() == 1 && drv[0] == letter);
    let rest0 = p.subrange(2, n);
    assert(rest0[0] == 47u8);
    let rest = rest0.skip(1);
    assert(rest =~= p.subrange(3, n));
    assert(rest.len() == d.len() + 1 + f.len());
    assert(rest[rest.len() - 1] == f[f.len() - 1]);
    assert(rest[rest.len() - 1] != 47u8);
    // first traversal step: the component `d`, then the tail `f`
    assert(rest[d.len() as int] == p[3 + d.len() as int]);
    assert forall|t: int| 0 <= t < d.len() implies rest[t] != 47u8 by {
        assert(rest[t] == d[t]);
    }
    lemma_find_byte_is(rest, 47u8, d.len() as int);
    let comp = rest.subrange(0, d.len() as int);
    let tail = rest.subrange(d.len() as int + 1, rest.len() as int);
    assert(comp =~= d);
    assert(tail =~= f);
    // the root opens as directory node 0
    assert(spec_entry_open_dir(b, root) == Ok::<Directory, FsError>(dir0));
    // `d` is found in the root directory and opens as directory node 1
    assert(m.dirs[dir0.private as int] == seq![h1]);
    assert(m.ents[h1.private as int].name == d);
    assert(seq![h1][0] == h1);
    assert(spec_dir_find(b, dir0, d) == Ok::<DirEntry, FsError>(h1));
    assert(spec_entry_open_dir(b, h1) == Ok::<Directory, FsError>(dir1));
    // `f` is found in `d` as the terminal entry
    lemma_find_byte_none(f, 47u8);
    assert(seq![h2][0] == h2);
    assert(spec_dir_find(b, dir1, f) == Ok::<DirEntry, FsError>(h2));
    assert(spec_resolve_components(b, dir1, f) == Ok::<DirEntry, FsError>(h2));
    assert(spec_resolve_components(b, dir0, rest) == Ok::<DirEntry, FsError>(h2));
    assert(spec_vfs_find(k, p) == Ok::<DirEntry, FsError>(h2));
    // and the terminal entry opens as file node 0
    assert(spec_entry_open(b, h2) == Ok::<File, FsError>(file0));
    assert(spec_path_drive(p) == letter - 65);
}

/// The round-trip law.  On a freshly mounted empty drive: make a
/// directory `d`, create a file `f` inside it, open it, write any
/// bytes, reopen it, and a read through a buffer at least as large as
/// what was written hands back exactly the bytes written.  The names
/// may be anything nonempty that contains no `/`.
pub proof fn lemma_round_trip(
    k1: Seq<Option<DriveModel>>,
    letter: u8,
    d: Seq<u8>,
    f: Seq<u8>,
    data: Seq<u8>,
    cap: nat,
)
    requires
        k1.len() == 26,
        65 <= letter <= 90,
        k1[letter - 65] == Some(crate::tmpfs::spec_tmpfs_drive()),
        d.len() > 0,
        f.len() > 0,
        forall|t: int| 0 <= t < d.len() ==> d[t] != 47,
        forall|t: int| 0 <= t < f.len() ==> f[t] != 47,
        cap >= data.len(),
        data.len() <= usize::MAX,
    ensures
        ({
            let di = letter - 65;
            let p_dir = seq![letter, 58u8, 47u8] + d;
            let p_file = seq![letter, 58u8, 47u8] + d + seq![47u8] + f;
            let s_mk = spec_vfs_mkdir(k1, p_dir);
            let s_cr = spec_vfs_create(s_mk.1, p_file);
            let opened = spec_vfs_open(s_cr.1, p_file);
            let dm = s_cr.1[di as int]->Some_0;
            let w = spec_file_write(dm.backend, opened->Ok_0, data);
            let k4 = s_cr.1.update(
                di as int,
                Some(DriveModel { root: dm.root, fsops: dm.fsops, backend: w.1 }),
            );
            let reopened = spec_vfs_open(k4, p_file);
            let rd = spec_file_read(w.1, reopened->Ok_0, cap);
            &&& s_mk.0 == Ok::<(), FsError>(())
            &&& s_cr.0 == Ok::<(), FsError>(())
            &&& opened is Ok
            &&& w.0 == Ok::<usize, FsError>(data.len() as usize)
            &&& reopened == opened
            &&& rd == Ok::<Seq<u8>, FsError>(data)
        }),
{
    let ops = crate::tmpfs::spec_tmpfs_fsops();
    let root = DirEntry { fsops: ops, private: 0 };
    let dir0 = Directory { fsops: ops, private: 0 };
    let h1 = DirEntry { fsops: ops, private: 1 };
    let dir1 = Directory { fsops: ops, private: 1 };
    let h2 = DirEntry { fsops: ops, private: 2 };
    let file0 = File { fsops: ops, private: 0 };
    let m0 = crate::tmpfs::spec_tmpfs_drive().backend->Tmpfs_0;
    let b0 = BackendModel::Tmpfs(m0);
    let di = letter - 65;
    let p_dir = seq![letter, 58u8, 47u8] + d;
    let p_file = seq![letter, 58u8, 47u8] + d + seq![47u8] + f;
    // the fresh drive is well formed
    assert(crate::tmpfs::spec_tmpfs_drive().wf()) by {
        assert(m0.dirs.len() == 1 && m0.dirs[0].len() == 0);
        assert(m0.ents.len() == 1 && m0.ents[0].kind == (crate::tmpfs::TmpfsDirEntryKind::Directory {
            dir: dir0,
        }));
        assert forall|dd: int, j: int|
            0 <= dd < m0.dirs.len() && 0 <= j < m0.dirs[dd].len() implies #[trigger] m0.dirs[dd][
            j
        ].private < m0.ents.len() by {
            assert(m0.dirs[dd].len() == 0);
        }
    }
    // `mkdir L:/d` resolves the parent to the root and appends to it
    assert(p_dir[0] == letter && p_dir[1] == 58u8 && p_dir[2] == 47u8);
    assert(forall|t: int| 0 <= t < d.len() ==> p_dir[3 + t] == d[t]);
    assert forall|t: int| 2 < t < p_dir.len() implies p_dir[t] != 47u8 by {
        assert(p_dir[t] == d[t - 3]);
    }
    lemma_rfind_byte_is(p_dir, 47u8, 2);
    let pp = p_dir.subrange(0, 3);
    let name = p_dir.subrange(3, p_dir.len() as int);
    assert(pp =~= seq![letter, 58u8, 47u8]);
    assert(name =~= d);
    lemma_resolve_root(k1, letter);
    assert(spec_vfs_find(k1, pp) == Ok::<DirEntry, FsError>(root));
    assert(spec_path_drive(pp) == di);
    assert(spec_entry_open_dir(b0, root) == Ok::<Directory, FsError>(dir0));
    let m1 = crate::tmpfs::spec_tmpfs_mkdir(m0, dir0, d);
    let b1 = BackendModel::Tmpfs(m1);
    let s_mk = spec_vfs_mkdir(k1, p_dir);
    assert(s_mk.0 == Ok::<(), FsError>(()));
    let k2 = s_mk.1;
    assert(k2 == k1.update(di as int, Some(DriveModel { root, fsops: ops, backend: b1 })));
    assert(m1.dirs.len() == 2);
    assert(m1.dirs[0] == seq![h1]) by {
        assert(m0.dirs[0].push(h1) =~= seq![h1]);
    }
    assert(m1.dirs[1] == Seq::<DirEntry>::empty());
    assert(m1.ents.len() == 2);
    assert(m1.ents[0] == m0.ents[0]);
    assert(m1.ents[1] == (crate::tmpfs::TmpfsDirEntryModel {
        name: d,
        kind: crate::tmpfs::TmpfsDirEntryKind::Directory { dir: dir1 },
    }));
    assert(m1.files.len() == 0);
    // `create L:/d/f` resolves the parent `L:/d/` down to `d`
    assert(p_file[0] == letter && p_file[1] == 58u8 && p_file[2] == 47u8);
    assert(forall|t: int| 0 <= t < d.len() ==> p_file[3 + t] == d[t]);
    assert(p_file[3 + d.len() as int] == 47u8);
    assert(forall|t: int| 0 <= t < f.len() ==> p_file[4 + d.len() + t] == f[t]);
    assert forall|t: int| 3 + d.len() < t < p_file.len() implies p_file[t] != 47u8 by {
        assert(p_file[t] == f[t - 4 - d.len()]);
    }
    lemma_rfind_byte_is(p_file, 47u8, 3 + d.len() as int);
    let pp2 = p_file.subrange(0, 4 + d.len() as int);
    let name2 = p_file.subrange(4 + d.len() as int, p_file.len() as int);
    assert(name2 =~= f);
    assert(pp2[0] == letter && pp2[1] == 58u8 && pp2[2] == 47u8);
    lemma_find_byte_is(pp2, 58u8, 1);
    assert(pp2.subrange(0, 1).len() == 1 && pp2.subrange(0, 1)[0] == letter);
    assert(spec_path_drive(pp2) == di);
    assert(k2[di as int] is Some);
    let rest0_2 = pp2.subrange(2, pp2.len() as int);
    assert(rest0_2[0] == 47u8);
    let rest_2 = rest0_2.skip(1);
    assert(rest_2 =~= d + seq![47u8]);
    assert(rest_2[rest_2.len() - 1] == 47u8);
    assert(rest_2.drop_last() =~= d);
    assert(spec_entry_open_dir(b1, root) == Ok::<Directory, FsError>(dir0));
    lemma_find_byte_none(d, 47u8);
    assert(seq![h1][0] == h1);
    assert(crate::tmpfs::spec_find_entry(seq![h1], m1.ents, d) == Ok::<DirEntry, FsError>(h1));
    assert(spec_dir_find(b1, dir0, d) == Ok::<DirEntry, FsError>(h1));
    assert(spec_resolve_components(b1, dir0, d) == Ok::<DirEntry, FsError>(h1));
    assert(spec_vfs_find(k2, pp2) == Ok::<DirEntry, FsError>(h1));
    assert(spec_entry_open_dir(b1, h1) == Ok::<Directory, FsError>(dir1));
    let m2 = crate::tmpfs::spec_tmpfs_create(m1, dir1, f);
    let b2 = BackendModel::Tmpfs(m2);
    let s_cr = spec_vfs_create(k2, p_file);
    assert(s_cr.0 == Ok::<(), FsError>(()));
    let k3 = s_cr.1;
    assert(k3 == k2.update(di as int, Some(DriveModel { root, fsops: ops, backend: b2 })));
    assert(m2.dirs.len() == 2);
    assert(m2.dirs[0] == seq![h1]);
    assert(m2.dirs[1] == seq![h2]) by {
        assert(m1.dirs[1].push(h2) =~= seq![h2]);
    }
    assert(m2.ents.len() == 3);
    assert(m2.ents[0] == m0.ents[0]);
    assert(m2.ents[1] == m1.ents[1]);
    assert(m2.ents[2] == (crate::tmpfs::TmpfsDirEntryModel {
        name: f,
        kind: crate::tmpfs::TmpfsDirEntryKind::File { file: file0 },
    }));
    assert(m2.files.len() == 1 && m2.files[0] == Seq::<u8>::empty());
    // open, write, reopen, read
    lemma_resolve_file_path(k3, letter, d, f, m2);
    let opened = spec_vfs_open(k3, p_file);
    assert(opened == Ok::<File, FsError>(file0));
    let dm = k3[di as int]->Some_0;
    assert(dm == (DriveModel { root, fsops: ops, backend: b2 }));
    let w = spec_file_write(b2, file0, data);
    let m3 = crate::tmpfs::spec_tmpfs_write(m2, file0, data);
    assert(w == (Ok::<usize, FsError>(data.len() as usize), BackendModel::Tmpfs(m3)));
    assert(m3.dirs == m2.dirs && m3.ents == m2.ents);
    assert(m3.files[0] == data) by {
        assert(Seq::<u8>::empty() + data =~= data);
    }
    let k4 = k3.update(di as int, Some(DriveModel { root, fsops: ops, backend: w.1 }));
    lemma_resolve_file_path(k4, letter, d, f, m3);
    let reopened = spec_vfs_open(k4, p_file);
    assert(reopened == Ok::<File, FsError>(file0));
    let rd = spec_file_read(w.1, file0, cap);
    assert(crate::tmpfs::spec_tmpfs_read_len(m3, file0, cap) == data.len());
    assert(m3.files[0].take(data.len() as int) =~= data);
    assert(rd == Ok::<Seq<u8>, FsError>(data));
}

/// Split off the final path component for `vfs_create` / `vfs_mkdir`.
fn vfs_path_split_parent<'a>(path: &'a [u8]) -> (r: FsResult<(&'a [u8], &'a [u8])>)
    ensures
        match (r, spec_split_parent(path@)) {
            (Ok(t), Ok(s)) => t.0@ == s.0 && t.1@ == s.1,
            (Err(e1), Err(e2)) => e1 == e2,
            _ => false,
        },
{
    let a = match rfind_byte(path, 47u8) {
        None => {
            return Err(FsError::InvalidPath);
        },
        Some(a) => a,
    };
    proof {
        lemma_rfind_byte_characterization(path@, 47u8);
    }
    let n = path.len();
    if a + 1 == n {
        return Err(FsError::InvalidPath);
    }
    let p1 = vstd::slice::slice_subrange(path, 0, a + 1);
    let p2 = vstd::slice::slice_subrange(path, a + 1, n);
    Ok((p1, p2))
}

} // verus!
