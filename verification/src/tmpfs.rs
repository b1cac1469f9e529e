//! The in-memory reference backend.
//!
//! Nodes live in three arenas (directories, entries, files) owned by
//! [`TmpfsFs`]; a handle's opaque context is a stable index into the
//! arena that matches the handle's kind.  The arenas only grow, so a
//! handle, once valid, stays valid across every operation.

use vstd::prelude::*;

use crate::vfs::{
    Backend, BackendModel, DirEntry, Directory, Drive, DriveModel, File, FsError, FsOps, FsResult,
};

verus! {

/// A file node: the bytes stored so far.  Writes append.
pub struct TmpfsFile {
    pub data: Vec<u8>,
}

/// What a named entry denotes, holding the already-built handle for
/// the node it points at.
pub enum TmpfsDirEntryKind {
    Directory { dir: Directory },
    File { file: File },
}

/// An entry node: a name bound to a file or directory node.
pub struct TmpfsDirEntry {
    pub name: Vec<u8>,
    pub kind: TmpfsDirEntryKind,
}

/// A directory node: the entries it contains, in insertion order.
/// Duplicate names are allowed; lookup returns the first match.
pub struct TmpfsDirectory {
    pub entries: Vec<DirEntry>,
}

/// The whole backend state: three node arenas.
pub struct TmpfsFs {
    pub dirs: Vec<TmpfsDirectory>,
    pub ents: Vec<TmpfsDirEntry>,
    pub files: Vec<TmpfsFile>,
}

/// Mathematical model of an entry node.
pub struct TmpfsDirEntryModel {
    pub name: Seq<u8>,
    pub kind: TmpfsDirEntryKind,
}

/// Mathematical model of the backend state.
pub struct FsModel {
    pub dirs: Seq<Seq<DirEntry>>,
    pub ents: Seq<TmpfsDirEntryModel>,
    pub files: Seq<Seq<u8>>,
}

impl View for TmpfsFile {
    type V = Seq<u8>;

    open spec fn view(&self) -> Seq<u8> {
        self.data@
    }
}

impl View for TmpfsDirEntry {
    type V = TmpfsDirEntryModel;

    open spec fn view(&self) -> TmpfsDirEntryModel {
        TmpfsDirEntryModel { name: self.name@, kind: self.kind }
    }
}

impl View for TmpfsDirectory {
    type V = Seq<DirEntry>;

    open spec fn view(&self) -> Seq<DirEntry> {
        self.entries@
    }
}

impl View for TmpfsFs {
    type V = FsModel;

    open spec fn view(&self) -> FsModel {
        FsModel {
            dirs: self.dirs@.map_values(|d: TmpfsDirectory| d@),
            ents: self.ents@.map_values(|e: TmpfsDirEntry| e@),
            files: self.files@.map_values(|f: TmpfsFile| f@),
        }
    }
}

impl FsModel {
    /// Every index stored in the arenas addresses a node of the arena
    /// it is meant for: directory entries point at entry nodes, and
    /// entry nodes point at directory or file nodes matching their
    /// kind.
    pub open spec fn wf(self) -> bool {
        &&& forall|d: int, j: int|
            0 <= d < self.dirs.len() && 0 <= j < self.dirs[d].len()
                ==> #[trigger] self.dirs[d][j].private < self.ents.len()
        &&& forall|i: int|
            0 <= i < self.ents.len() ==> match #[trigger] self.ents[i].kind {
                TmpfsDirEntryKind::Directory { dir } => dir.private < self.dirs.len(),
                TmpfsDirEntryKind::File { file } => file.private < self.files.len(),
            }
    }
}

/// The operation table the tmpfs backend fills: everything except the
/// four teardown hooks, which it does not need (nodes are arena-owned
/// and reclaimed with the drive).
pub open spec fn spec_tmpfs_fsops() -> FsOps {
    FsOps {
        open_dir: true,
        create: true,
        mkdir: true,
        find: true,
        close_dir: false,
        cleanup_entry: false,
        unmount: false,
        open: true,
        close: false,
        write: true,
        read: true,
    }
}

/// Build the tmpfs operation table.
pub fn tmpfs_fsops() -> (r: FsOps)
    ensures
        r == spec_tmpfs_fsops(),
{
    FsOps {
        open_dir: true,
        create: true,
        mkdir: true,
        find: true,
        close_dir: false,
        cleanup_entry: false,
        unmount: false,
        open: true,
        close: false,
        write: true,
        read: true,
    }
}

/// What `open_dir` on `e` returns: the directory handle stored in the
/// entry node, or `IsNotDirectory` for a file entry.
pub open spec fn spec_tmpfs_open_dir(m: FsModel, e: DirEntry) -> FsResult<Directory> {
    match m.ents[e.private as int].kind {
        TmpfsDirEntryKind::Directory { dir } => Ok(dir),
        TmpfsDirEntryKind::File { file } => Err(FsError::IsNotDirectory),
    }
}

/// What `open` on `e` returns: the file handle stored in the entry
/// node, or `IsNotFile` for a directory entry.
pub open spec fn spec_tmpfs_open(m: FsModel, e: DirEntry) -> FsResult<File> {
    match m.ents[e.private as int].kind {
        TmpfsDirEntryKind::File { file } => Ok(file),
        TmpfsDirEntryKind::Directory { dir } => Err(FsError::IsNotFile),
    }
}

/// First entry of `entries` whose node is named `name`, scanning in
/// insertion order; `NotFound` when no entry matches.
pub open spec fn spec_find_entry(
    entries: Seq<DirEntry>,
    ents: Seq<TmpfsDirEntryModel>,
    name: Seq<u8>,
) -> FsResult<DirEntry>
    decreases entries.len(),
{
    if entries.len() == 0 {
        Err(FsError::NotFound)
    } else if ents[entries[0].private as int].name == name {
        Ok(entries[0])
    } else {
        spec_find_entry(entries.skip(1), ents, name)
    }
}

/// What `find` on directory `d` returns.
pub open spec fn spec_tmpfs_find(m: FsModel, d: Directory, name: Seq<u8>) -> FsResult<DirEntry> {
    spec_find_entry(m.dirs[d.private as int], m.ents, name)
}

/// The state after `create(d, name)`: a fresh empty file node, a fresh
/// entry node naming it, and the entry appended to `d`.  Duplicate
/// names are allowed; the earlier entry keeps shadowing the new one in
/// lookups, since `find` returns the first match in insertion order.
pub open spec fn spec_tmpfs_create(m: FsModel, d: Directory, name: Seq<u8>) -> FsModel {
    let file = (File { fsops: spec_tmpfs_fsops(), private: m.files.len() as usize });
    let ent = (TmpfsDirEntryModel { name, kind: TmpfsDirEntryKind::File { file } });
    let handle = (DirEntry { fsops: spec_tmpfs_fsops(), private: m.ents.len() as usize });
    FsModel {
        dirs: m.dirs.update(d.private as int, m.dirs[d.private as int].push(handle)),
        ents: m.ents.push(ent),
        files: m.files.push(Seq::empty()),
    }
}

/// The state after `mkdir(d, name)`: a fresh empty directory node, a
/// fresh entry node naming it, and the entry appended to `d`.
pub open spec fn spec_tmpfs_mkdir(m: FsModel, d: Directory, name: Seq<u8>) -> FsModel {
    let dir = (Directory { fsops: spec_tmpfs_fsops(), private: m.dirs.len() as usize });
    let ent = (TmpfsDirEntryModel { name, kind: TmpfsDirEntryKind::Directory { dir } });
    let handle = (DirEntry { fsops: spec_tmpfs_fsops(), private: m.ents.len() as usize });
    FsModel {
        dirs: m.dirs.update(d.private as int, m.dirs[d.private as int].push(handle)).push(
            Seq::empty(),
        ),
        ents: m.ents.push(ent),
        files: m.files,
    }
}

/// The state after `write(f, data)`: the bytes appended to `f`'s node.
pub open spec fn spec_tmpfs_write(m: FsModel, f: File, data: Seq<u8>) -> FsModel {
    FsModel {
        dirs: m.dirs,
        ents: m.ents,
        files: m.files.update(f.private as int, m.files[f.private as int] + data),
    }
}

/// How many bytes `read` hands back into a buffer of length `cap`: the
/// whole stored content, or the prefix that fits.
pub open spec fn spec_tmpfs_read_len(m: FsModel, f: File, cap: nat) -> nat {
    if cap < m.files[f.private as int].len() {
        cap
    } else {
        m.files[f.private as int].len()
    }
}

/// Open an entry as a directory.
pub fn tmpfs_open_dir(fs: &TmpfsFs, entry: &DirEntry) -> (r: FsResult<Directory>)
    requires
        entry.private < fs@.ents.len(),
    ensures
        r == spec_tmpfs_open_dir(fs@, *entry),
{
    let ent = &fs.ents[entry.private];
    match &ent.kind {
        TmpfsDirEntryKind::Directory { dir } => Ok(*dir),
        TmpfsDirEntryKind::File { file } => Err(FsError::IsNotDirectory),
    }
}

/// Open an entry as a file.
pub fn tmpfs_open(fs: &TmpfsFs, entry: &DirEntry) -> (r: FsResult<File>)
    requires
        entry.private < fs@.ents.len(),
    ensures
        r == spec_tmpfs_open(fs@, *entry),
{
    let ent = &fs.ents[entry.private];
    match &ent.kind {
        TmpfsDirEntryKind::File { file } => Ok(*file),
        TmpfsDirEntryKind::Directory { dir } => Err(FsError::IsNotFile),
    }
}

/// Byte-for-byte equality of two byte strings.
fn bytes_eq(a: &[u8], b: &[u8]) -> (r: bool)
    ensures
        r == (a@ == b@),
{
    if a.len() != b.len() {
        proof {
            assert(a@ != b@);
        }
        return false;
    }
    let n = a.len();
    let mut i: usize = 0;
    while i < n
        invariant
            n == a@.len() == b@.len(),
            0 <= i <= n,
            forall|t: int| 0 <= t < i ==> a@[t] == b@[t],
        decreases n - i,
    {
        if *vstd::slice::slice_index_get(a, i) != *vstd::slice::slice_index_get(b, i) {
            proof {
                assert(a@ != b@);
            }
            return false;
        }
        i = i + 1;
    }
    proof {
        assert(a@ =~= b@);
    }
    true
}

/// Look a single component name up in an open directory.
pub fn tmpfs_find(fs: &TmpfsFs, dir: &Directory, name: &[u8]) -> (r: FsResult<DirEntry>)
    requires
        fs@.wf(),
        dir.private < fs@.dirs.len(),
    ensures
        r == spec_tmpfs_find(fs@, *dir, name@),
{
    let entries = &fs.dirs[dir.private].entries;
    proof {
        assert(entries@ == fs@.dirs[dir.private as int]);
        assert(entries@.skip(0) =~= entries@);
    }
    let n = entries.len();
    let mut i: usize = 0;
    while i < n
        invariant
            fs@.wf(),
            dir.private < fs@.dirs.len(),
            entries@ == fs@.dirs[dir.private as int],
            n == entries@.len(),
            0 <= i <= n,
            spec_find_entry(entries@.skip(i as int), fs@.ents, name@) == spec_tmpfs_find(
                fs@,
                *dir,
                name@,
            ),
        decreases n - i,
    {
        let e: DirEntry = entries[i];
        proof {
            assert(entries@.skip(i as int)[0] == e);
            assert(fs@.ents[e.private as int] == fs.ents@[e.private as int]@);
        }
        if bytes_eq(fs.ents[e.private].name.as_slice(), name) {
            return Ok(e);
        }
        proof {
            assert(entries@.skip(i as int).skip(1) =~= entries@.skip(i as int + 1));
        }
        i = i + 1;
    }
    proof {
        assert(entries@.skip(n as int) =~= Seq::<DirEntry>::empty());
    }
    Err(FsError::NotFound)
}

/// Add a new empty file entry named `name` to `dir`.  The backend puts
/// no policy on duplicate names: a second entry with an existing name
/// is appended and stays shadowed by the first in lookups.
pub fn tmpfs_create(fs: &mut TmpfsFs, dir: &Directory, name: &[u8]) -> (r: FsResult<()>)
    requires
        dir.private < old(fs)@.dirs.len(),
    ensures
        r == Ok::<(), FsError>(()),
        final(fs)@ == spec_tmpfs_create(old(fs)@, *dir, name@),
{
    let ghost m = fs@;
    let fi = fs.files.len();
    fs.files.push(TmpfsFile { data: Vec::new() });
    let ei = fs.ents.len();
    let file = File { fsops: tmpfs_fsops(), private: fi };
    fs.ents.push(
        TmpfsDirEntry { name: vstd::slice::slice_to_vec(name), kind: TmpfsDirEntryKind::File { file } },
    );
    let handle = DirEntry { fsops: tmpfs_fsops(), private: ei };
    let d = &mut fs.dirs[dir.private];
    d.entries.push(handle);
    proof {
        let m2 = spec_tmpfs_create(m, *dir, name@);
        assert(fs@.files =~= m2.files);
        assert(fs@.ents =~= m2.ents);
        assert(fs@.dirs =~= m2.dirs);
        assert(fs@ =~= m2);
    }
    Ok(())
}

/// Add a new empty subdirectory entry named `name` to `dir`.
pub fn tmpfs_mkdir(fs: &mut TmpfsFs, dir: &Directory, name: &[u8]) -> (r: FsResult<()>)
    requires
        dir.private < old(fs)@.dirs.len(),
    ensures
        r == Ok::<(), FsError>(()),
        final(fs)@ == spec_tmpfs_mkdir(old(fs)@, *dir, name@),
{
    let ghost m = fs@;
    let di = fs.dirs.len();
    let sub = Directory { fsops: tmpfs_fsops(), private: di };
    let ei = fs.ents.len();
    fs.ents.push(
        TmpfsDirEntry {
            name: vstd::slice::slice_to_vec(name),
            kind: TmpfsDirEntryKind::Directory { dir: sub },
        },
    );
    let handle = DirEntry { fsops: tmpfs_fsops(), private: ei };
    let d = &mut fs.dirs[dir.private];
    d.entries.push(handle);
    fs.dirs.push(TmpfsDirectory { entries: Vec::new() });
    proof {
        let m2 = spec_tmpfs_mkdir(m, *dir, name@);
        assert(fs@.files =~= m2.files);
        assert(fs@.ents =~= m2.ents);
        assert(fs@.dirs =~= m2.dirs);
        assert(fs@ =~= m2);
    }
    Ok(())
}

/// Append `data` to the file node; the returned count is always the
/// whole of `data`.
pub fn tmpfs_write(fs: &mut TmpfsFs, file: &File, data: &[u8]) -> (r: FsResult<usize>)
    requires
        file.private < old(fs)@.files.len(),
    ensures
        r == Ok::<usize, FsError>(data@.len() as usize),
        final(fs)@ == spec_tmpfs_write(old(fs)@, *file, data@),
{
    let ghost m = fs@;
    let n = data.len();
    let f = &mut fs.files[file.private];
    f.data.extend_from_slice(data);
    proof {
        let m2 = spec_tmpfs_write(m, *file, data@);
        assert(fs@.files[file.private as int] =~= m2.files[file.private as int]);
        assert(fs@.files =~= m2.files);
        assert(fs@.ents =~= m2.ents);
        assert(fs@.dirs =~= m2.dirs);
        assert(fs@ =~= m2);
    }
    Ok(n)
}

/// Copy the stored bytes into the front of `data`: all of them, or the
/// prefix that fits.  The rest of the buffer is left as it was, and the
/// returned count never exceeds the buffer's length.
pub fn tmpfs_read(fs: &TmpfsFs, file: &File, data: &mut Vec<u8>) -> (r: FsResult<usize>)
    requires
        file.private < fs@.files.len(),
    ensures
        ({
            let bytes = fs@.files[file.private as int];
            let n = spec_tmpfs_read_len(fs@, *file, old(data)@.len() as nat);
            &&& r == Ok::<usize, FsError>(n as usize)
            &&& final(data)@ =~= bytes.take(n as int) + old(data)@.skip(n as int)
        }),
{
    let src = &fs.files[file.private];
    proof {
        assert(src@ == fs@.files[file.private as int]);
    }
    let n = if data.len() < src.data.len() {
        data.len()
    } else {
        src.data.len()
    };
    let mut i: usize = 0;
    while i < n
        invariant
            n <= data@.len(),
            n <= src.data@.len(),
            data@.len() == old(data)@.len(),
            0 <= i <= n,
            forall|t: int| 0 <= t < i ==> data@[t] == src.data@[t],
            forall|t: int| i <= t < data@.len() ==> data@[t] == old(data)@[t],
        decreases n - i,
    {
        let b = src.data[i];
        data[i] = b;
        i = i + 1;
    }
    proof {
        let bytes = fs@.files[file.private as int];
        assert(data@ =~= bytes.take(n as int) + old(data)@.skip(n as int));
    }
    Ok(n)
}

/// `create` preserves well-formedness: the fresh entry points at the
/// fresh file node, and every old index still lands in its arena.
pub proof fn lemma_tmpfs_create_wf(m: FsModel, d: Directory, name: Seq<u8>)
    requires
        m.wf(),
        d.private < m.dirs.len(),
    ensures
        spec_tmpfs_create(m, d, name).wf(),
        spec_tmpfs_create(m, d, name).dirs.len() == m.dirs.len(),
        spec_tmpfs_create(m, d, name).ents.len() == m.ents.len() + 1,
        spec_tmpfs_create(m, d, name).files.len() == m.files.len() + 1,
{
    let m2 = spec_tmpfs_create(m, d, name);
    assert forall|dd: int, j: int|
        0 <= dd < m2.dirs.len() && 0 <= j < m2.dirs[dd].len() implies #[trigger] m2.dirs[dd][j].private
        < m2.ents.len() by {
        if dd == d.private as int {
            if j < m.dirs[dd].len() {
                assert(m.dirs[dd][j].private < m.ents.len());
            }
        } else {
            assert(m.dirs[dd][j].private < m.ents.len());
        }
    }
}

/// `mkdir` preserves well-formedness in the same way.
pub proof fn lemma_tmpfs_mkdir_wf(m: FsModel, d: Directory, name: Seq<u8>)
    requires
        m.wf(),
        d.private < m.dirs.len(),
    ensures
        spec_tmpfs_mkdir(m, d, name).wf(),
        spec_tmpfs_mkdir(m, d, name).dirs.len() == m.dirs.len() + 1,
        spec_tmpfs_mkdir(m, d, name).ents.len() == m.ents.len() + 1,
        spec_tmpfs_mkdir(m, d, name).files.len() == m.files.len(),
{
    let m2 = spec_tmpfs_mkdir(m, d, name);
    assert forall|dd: int, j: int|
        0 <= dd < m2.dirs.len() && 0 <= j < m2.dirs[dd].len() implies #[trigger] m2.dirs[dd][j].private
        < m2.ents.len() by {
        if dd < m.dirs.len() {
            if dd == d.private as int {
                if j < m.dirs[dd].len() {
                    assert(m.dirs[dd][j].private < m.ents.len());
                }
            } else {
                assert(m.dirs[dd][j].private < m.ents.len());
            }
        }
    }
}

/// `write` preserves well-formedness: no index changes at all.
pub proof fn lemma_tmpfs_write_wf(m: FsModel, f: File, data: Seq<u8>)
    requires
        m.wf(),
        f.private < m.files.len(),
    ensures
        spec_tmpfs_write(m, f, data).wf(),
        spec_tmpfs_write(m, f, data).dirs == m.dirs,
        spec_tmpfs_write(m, f, data).ents == m.ents,
        spec_tmpfs_write(m, f, data).files.len() == m.files.len(),
{
}

/// Lookup succeeds exactly when some entry carries the name, and what
/// it returns is the first such entry in insertion order; the only
/// failure is `NotFound`.
pub proof fn lemma_find_entry_characterization(
    entries: Seq<DirEntry>,
    ents: Seq<TmpfsDirEntryModel>,
    name: Seq<u8>,
)
    ensures
        match spec_find_entry(entries, ents, name) {
            Err(e) => e == FsError::NotFound && forall|j: int|
                0 <= j < entries.len() ==> ents[#[trigger] entries[j].private as int].name != name,
            Ok(r) => exists|j: int|
                {
                    &&& 0 <= j < entries.len()
                    &&& #[trigger] entries[j] == r
                    &&& ents[r.private as int].name == name
                    &&& forall|t: int|
                        0 <= t < j ==> ents[#[trigger] entries[t].private as int].name != name
                },
        },
    decreases entries.len(),
{
    if entries.len() == 0 {
    } else if ents[entries[0].private as int].name == name {
        assert(entries[0] == spec_find_entry(entries, ents, name)->Ok_0);
    } else {
        lemma_find_entry_characterization(entries.skip(1), ents, name);
        let rest = entries.skip(1);
        match spec_find_entry(rest, ents, name) {
            Err(e) => {
                assert forall|j: int|
                    0 <= j < entries.len() implies ents[#[trigger] entries[j].private as int].name
                    != name by {
                    if j > 0 {
                        assert(rest[j - 1] == entries[j]);
                    }
                }
            },
            Ok(r) => {
                let j = choose|j: int|
                    {
                        &&& 0 <= j < rest.len()
                        &&& #[trigger] rest[j] == r
                        &&& ents[r.private as int].name == name
                        &&& forall|t: int|
                            0 <= t < j ==> ents[#[trigger] rest[t].private as int].name != name
                    };
                assert(entries[j + 1] == r);
                assert forall|t: int|
                    0 <= t < j + 1 implies ents[#[trigger] entries[t].private as int].name
                    != name by {
                    if t > 0 {
                        assert(rest[t - 1] == entries[t]);
                    }
                }
            },
        }
    }
}

/// Allocate an empty directory node and return its arena index.
fn tmpfs_empty_dir_private(fs: &mut TmpfsFs) -> (r: usize)
    ensures
        r == old(fs)@.dirs.len(),
        final(fs)@.dirs =~= old(fs)@.dirs.push(Seq::empty()),
        final(fs)@.ents == old(fs)@.ents,
        final(fs)@.files == old(fs)@.files,
{
    let r = fs.dirs.len();
    fs.dirs.push(TmpfsDirectory { entries: Vec::new() });
    proof {
        assert(fs@.dirs =~= old(fs)@.dirs.push(Seq::empty()));
        assert(fs@.ents =~= old(fs)@.ents);
        assert(fs@.files =~= old(fs)@.files);
    }
    r
}

/// Allocate an empty directory node and hand back an open handle on it.
fn tmpfs_empty_dir(fs: &mut TmpfsFs) -> (r: Directory)
    ensures
        r == (Directory { fsops: spec_tmpfs_fsops(), private: old(fs)@.dirs.len() as usize }),
        final(fs)@.dirs =~= old(fs)@.dirs.push(Seq::empty()),
        final(fs)@.ents == old(fs)@.ents,
        final(fs)@.files == old(fs)@.files,
{
    let private = tmpfs_empty_dir_private(fs);
    Directory { fsops: tmpfs_fsops(), private }
}

/// Build the root entry of a fresh filesystem: an entry named `/` that
/// denotes a new empty directory.
fn tmpfs_root(fs: &mut TmpfsFs) -> (r: DirEntry)
    ensures
        r == (DirEntry { fsops: spec_tmpfs_fsops(), private: old(fs)@.ents.len() as usize }),
        final(fs)@.dirs =~= old(fs)@.dirs.push(Seq::empty()),
        final(fs)@.ents =~= old(fs)@.ents.push(
            TmpfsDirEntryModel {
                name: seq![47u8],
                kind: TmpfsDirEntryKind::Directory {
                    dir: Directory { fsops: spec_tmpfs_fsops(), private: old(fs)@.dirs.len() as usize },
                },
            },
        ),
        final(fs)@.files == old(fs)@.files,
{
    let dir = tmpfs_empty_dir(fs);
    let private = fs.ents.len();
    let mut name: Vec<u8> = Vec::new();
    name.push(47u8);
    fs.ents.push(TmpfsDirEntry { name, kind: TmpfsDirEntryKind::Directory { dir } });
    proof {
        assert(seq![47u8] =~= Seq::<u8>::empty().push(47u8));
        assert(fs@.ents =~= old(fs)@.ents.push(
            TmpfsDirEntryModel {
                name: seq![47u8],
                kind: TmpfsDirEntryKind::Directory {
                    dir: Directory {
                        fsops: spec_tmpfs_fsops(),
                        private: old(fs)@.dirs.len() as usize,
                    },
                },
            },
        ));
        assert(fs@.files =~= old(fs)@.files);
    }
    DirEntry { fsops: tmpfs_fsops(), private }
}

/// The model of a freshly constructed tmpfs drive: one empty root
/// directory, one root entry named `/` denoting it, no files.
pub open spec fn spec_tmpfs_drive() -> DriveModel {
    DriveModel {
        root: DirEntry { fsops: spec_tmpfs_fsops(), private: 0 },
        fsops: spec_tmpfs_fsops(),
        backend: BackendModel::Tmpfs(
            FsModel {
                dirs: seq![Seq::empty()],
                ents: seq![
                    TmpfsDirEntryModel {
                        name: seq![47u8],
                        kind: TmpfsDirEntryKind::Directory {
                            dir: Directory { fsops: spec_tmpfs_fsops(), private: 0 },
                        },
                    },
                ],
                files: Seq::empty(),
            },
        ),
    }
}

/// A fresh, empty in-memory drive, ready to mount.
pub fn tmpfs_drive() -> (r: Drive)
    ensures
        r@ == spec_tmpfs_drive(),
        r@.wf(),
{
    let mut fs = TmpfsFs { dirs: Vec::new(), ents: Vec::new(), files: Vec::new() };
    let root = tmpfs_root(&mut fs);
    proof {
        assert(fs@.dirs =~= spec_tmpfs_drive().backend->Tmpfs_0.dirs);
        assert(fs@.ents =~= spec_tmpfs_drive().backend->Tmpfs_0.ents);
        assert(fs@.files =~= spec_tmpfs_drive().backend->Tmpfs_0.files);
        assert(fs@ =~= spec_tmpfs_drive().backend->Tmpfs_0);
    }
    Drive::new(root, tmpfs_fsops(), Backend::Tmpfs(fs))
}

} // verus!
