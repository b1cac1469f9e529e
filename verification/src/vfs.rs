//! The VFS framework: error taxonomy, the operation table, the three
//! handle kinds, the backend dispatch, and the drive type.
//!
//! A handle pairs an operation table with an opaque context.  The
//! context is a stable index into the owning backend's node arenas;
//! the framework never interprets it, it only passes it back to the
//! backend's own operations.

use vstd::prelude::*;
use vstd::string::StringSliceAdditionalSpecFns;

use crate::tmpfs;
use crate::tmpfs::{FsModel, TmpfsFs};

verus! {

/// Every failure the framework or a backend can surface.  Every
/// fallible step short-circuits: errors are forwarded unchanged, never
/// inspected or recovered from by the framework.
#[derive(Clone, Copy, Debug, PartialEq, Eq, Structural)]
pub enum FsError {
    /// Malformed path syntax: missing `:`, missing leading `/`, or an
    /// empty final component in a parent/name split.
    InvalidPath,
    /// The drive-letter token is not exactly one character in `A..Z`.
    InvalidDrive,
    /// The referenced drive letter has no mounted drive.
    MissingDrive,
    /// A mount was attempted on an occupied letter.
    AlreadyExists,
    /// The backend's operation table lacks the requested slot.
    Unsupported,
    /// The backend's `find` could not locate the named component.
    NotFound,
    /// `open_dir` was called on an entry that denotes a file.
    IsNotDirectory,
    /// `open` was called on an entry that denotes a directory.
    IsNotFile,
}

pub type FsResult<T> = Result<T, FsError>;

/// The operation table: the fixed set of optional operation slots a
/// backend may fill.  A slot that is `false` makes the corresponding
/// handle operation fail with [`FsError::Unsupported`]; this is the
/// extensibility mechanism (a read-only backend leaves `create`,
/// `mkdir` and `write` empty).  The four teardown slots (`close_dir`,
/// `cleanup_entry`, `unmount`, `close`) describe which release hooks a
/// backend has; no backend in this crate registers any.
#[derive(Clone, Copy, Debug, PartialEq, Eq, Structural)]
pub struct FsOps {
    pub open_dir: bool,
    pub create: bool,
    pub mkdir: bool,
    pub find: bool,
    pub close_dir: bool,
    pub cleanup_entry: bool,
    pub unmount: bool,
    pub open: bool,
    pub close: bool,
    pub write: bool,
    pub read: bool,
}

/// A handle to a named node of unknown-until-opened kind: the result
/// of a lookup, or a drive's root.  `private` is the backend-owned
/// context (an index into the backend's entry arena).
#[derive(Clone, Copy, Debug, PartialEq, Eq, Structural)]
pub struct DirEntry {
    pub fsops: FsOps,
    pub private: usize,
}

/// A handle to a directory node open for lookup, create and mkdir.
#[derive(Clone, Copy, Debug, PartialEq, Eq, Structural)]
pub struct Directory {
    pub fsops: FsOps,
    pub private: usize,
}

/// A handle to a file node open for read and write.
#[derive(Clone, Copy, Debug, PartialEq, Eq, Structural)]
pub struct File {
    pub fsops: FsOps,
    pub private: usize,
}

/// The closed set of backend states.  All backend-specific behaviour
/// is reached by matching on this value; the framework never branches
/// on backend identity anywhere else.
pub enum Backend {
    Tmpfs(TmpfsFs),
}

/// Mathematical model of a backend state.
pub enum BackendModel {
    Tmpfs(FsModel),
}

impl View for Backend {
    type V = BackendModel;

    open spec fn view(&self) -> BackendModel {
        match self {
            Backend::Tmpfs(fs) => BackendModel::Tmpfs(fs@),
        }
    }
}

impl BackendModel {
    /// All node indices stored inside the backend point at nodes of
    /// the arena they address.
    pub open spec fn wf(self) -> bool {
        match self {
            BackendModel::Tmpfs(m) => m.wf(),
        }
    }

    /// `e`'s context addresses an entry node of this backend.
    pub open spec fn valid_entry(self, e: DirEntry) -> bool {
        match self {
            BackendModel::Tmpfs(m) => e.private < m.ents.len(),
        }
    }

    /// `d`'s context addresses a directory node of this backend.
    pub open spec fn valid_dir(self, d: Directory) -> bool {
        match self {
            BackendModel::Tmpfs(m) => d.private < m.dirs.len(),
        }
    }

    /// `f`'s context addresses a file node of this backend.
    pub open spec fn valid_file(self, f: File) -> bool {
        match self {
            BackendModel::Tmpfs(m) => f.private < m.files.len(),
        }
    }

    /// The entry denotes a directory node.
    pub open spec fn entry_is_dir(self, e: DirEntry) -> bool {
        match self {
            BackendModel::Tmpfs(m) => m.ents[e.private as int].kind is Directory,
        }
    }
}

/// One mounted filesystem: the root entry the path walk starts from,
/// the backend's operation table, and the backend state itself.
pub struct Drive {
    pub root: DirEntry,
    pub fsops: FsOps,
    pub backend: Backend,
}

/// Mathematical model of a drive.
pub struct DriveModel {
    pub root: DirEntry,
    pub fsops: FsOps,
    pub backend: BackendModel,
}

impl View for Drive {
    type V = DriveModel;

    open spec fn view(&self) -> DriveModel {
        DriveModel { root: self.root, fsops: self.fsops, backend: self.backend@ }
    }
}

impl DriveModel {
    /// The backend is well formed and the root is a live entry that
    /// denotes a directory.
    pub open spec fn wf(self) -> bool {
        &&& self.backend.wf()
        &&& self.backend.valid_entry(self.root)
        &&& self.backend.entry_is_dir(self.root)
    }
}

impl Drive {
    /// Couple a root entry with an operation table and a backend state.
    pub fn new(root: DirEntry, fsops: FsOps, backend: Backend) -> (r: Drive)
        ensures
            r@ == (DriveModel { root, fsops, backend: backend@ }),
    {
        Drive { fsops, backend, root }
    }
}

/// What opening an entry as a directory returns: `Unsupported` when
/// the table lacks the slot, otherwise whatever the backend's own
/// operation returns, unchanged.
pub open spec fn spec_entry_open_dir(b: BackendModel, e: DirEntry) -> FsResult<Directory> {
    if !e.fsops.open_dir {
        Err(FsError::Unsupported)
    } else {
        match b {
            BackendModel::Tmpfs(m) => tmpfs::spec_tmpfs_open_dir(m, e),
        }
    }
}

/// What opening an entry as a file returns.
pub open spec fn spec_entry_open(b: BackendModel, e: DirEntry) -> FsResult<File> {
    if !e.fsops.open {
        Err(FsError::Unsupported)
    } else {
        match b {
            BackendModel::Tmpfs(m) => tmpfs::spec_tmpfs_open(m, e),
        }
    }
}

/// What looking one component up in an open directory returns.
pub open spec fn spec_dir_find(b: BackendModel, d: Directory, name: Seq<u8>) -> FsResult<
    DirEntry,
> {
    if !d.fsops.find {
        Err(FsError::Unsupported)
    } else {
        match b {
            BackendModel::Tmpfs(m) => tmpfs::spec_tmpfs_find(m, d, name),
        }
    }
}

/// Result and new backend state of creating an empty file entry.
pub open spec fn spec_dir_create(b: BackendModel, d: Directory, name: Seq<u8>) -> (FsResult<()>, BackendModel) {
    if !d.fsops.create {
        (Err(FsError::Unsupported), b)
    } else {
        match b {
            BackendModel::Tmpfs(m) => (
                Ok(()),
                BackendModel::Tmpfs(tmpfs::spec_tmpfs_create(m, d, name)),
            ),
        }
    }
}

/// Result and new backend state of creating an empty subdirectory.
pub open spec fn spec_dir_mkdir(b: BackendModel, d: Directory, name: Seq<u8>) -> (FsResult<()>, BackendModel) {
    if !d.fsops.mkdir {
        (Err(FsError::Unsupported), b)
    } else {
        match b {
            BackendModel::Tmpfs(m) => (
                Ok(()),
                BackendModel::Tmpfs(tmpfs::spec_tmpfs_mkdir(m, d, name)),
            ),
        }
    }
}

/// Result and new backend state of writing `data` through a file handle.
pub open spec fn spec_file_write(b: BackendModel, f: File, data: Seq<u8>) -> (FsResult<usize>, BackendModel) {
    if !f.fsops.write {
        (Err(FsError::Unsupported), b)
    } else {
        match b {
            BackendModel::Tmpfs(m) => (
                Ok(data.len() as usize),
                BackendModel::Tmpfs(tmpfs::spec_tmpfs_write(m, f, data)),
            ),
        }
    }
}

/// The bytes a read through `f` into a buffer of length `cap` hands
/// back: the stored content, or the prefix of it that fits.
pub open spec fn spec_file_read(b: BackendModel, f: File, cap: nat) -> FsResult<Seq<u8>> {
    if !f.fsops.read {
        Err(FsError::Unsupported)
    } else {
        match b {
            BackendModel::Tmpfs(m) => Ok(
                m.files[f.private as int].take(
                    tmpfs::spec_tmpfs_read_len(m, f, cap) as int,
                ),
            ),
        }
    }
}

impl DirEntry {
    /// Pair an operation table with a backend-owned context.
    pub fn new(fsops: FsOps, private: usize) -> (r: DirEntry)
        ensures
            r == (DirEntry { fsops, private }),
    {
        DirEntry { fsops, private }
    }

    /// Open this entry as a directory, through the table's
    /// `open_dir` slot.
    pub fn open_dir(&self, b: &Backend) -> (r: FsResult<Directory>)
        requires
            b@.wf(),
            b@.valid_entry(*self),
        ensures
            r == spec_entry_open_dir(b@, *self),
            r matches Ok(d) ==> b@.valid_dir(d),
    {
        if !self.fsops.open_dir {
            return Err(FsError::Unsupported);
        }
        match b {
            Backend::Tmpfs(fs) => tmpfs::tmpfs_open_dir(fs, self),
        }
    }

    /// Open this entry as a file, through the table's `open` slot.
    pub fn open(&self, b: &Backend) -> (r: FsResult<File>)
        requires
            b@.wf(),
            b@.valid_entry(*self),
        ensures
            r == spec_entry_open(b@, *self),
            r matches Ok(f) ==> b@.valid_file(f),
    {
        if !self.fsops.open {
            return Err(FsError::Unsupported);
        }
        match b {
            Backend::Tmpfs(fs) => tmpfs::tmpfs_open(fs, self),
        }
    }
}

impl Directory {
    /// Pair an operation table with a backend-owned context.
    pub fn new(fsops: FsOps, private: usize) -> (r: Directory)
        ensures
            r == (Directory { fsops, private }),
    {
        Directory { fsops, private }
    }

    /// Look a single component up, the name given as bytes.
    pub fn find_raw(&self, b: &Backend, entry: &[u8]) -> (r: FsResult<DirEntry>)
        requires
            b@.wf(),
            b@.valid_dir(*self),
        ensures
            r == spec_dir_find(b@, *self, entry@),
            r matches Ok(e) ==> b@.valid_entry(e),
    {
        if !self.fsops.find {
            return Err(FsError::Unsupported);
        }
        match b {
            Backend::Tmpfs(fs) => {
                let r = tmpfs::tmpfs_find(fs, self, entry);
                proof {
                    tmpfs::lemma_find_entry_characterization(
                        fs@.dirs[self.private as int],
                        fs@.ents,
                        entry@,
                    );
                }
                r
            },
        }
    }

    /// Look a single component up inside this open directory; fails
    /// with `NotFound` if no entry carries the name.
    pub fn find(&self, b: &Backend, entry: &str) -> (r: FsResult<DirEntry>)
        requires
            b@.wf(),
            b@.valid_dir(*self),
        ensures
            r == spec_dir_find(b@, *self, entry.spec_bytes()),
            r matches Ok(e) ==> b@.valid_entry(e),
    {
        self.find_raw(b, entry.as_bytes())
    }

    /// Add a new empty file entry, the name given as bytes.
    pub fn create_raw(&mut self, b: &mut Backend, entry: &[u8]) -> (r: FsResult<()>)
        requires
            old(b)@.wf(),
            old(b)@.valid_dir(*old(self)),
        ensures
            *final(self) == *old(self),
            r == spec_dir_create(old(b)@, *old(self), entry@).0,
            final(b)@ == spec_dir_create(old(b)@, *old(self), entry@).1,
            final(b)@.wf(),
    {
        if !self.fsops.create {
            return Err(FsError::Unsupported);
        }
        match b {
            Backend::Tmpfs(fs) => {
                proof {
                    tmpfs::lemma_tmpfs_create_wf(fs@, *self, entry@);
                }
                tmpfs::tmpfs_create(fs, self, entry)
            },
        }
    }

    /// Add a new empty file entry named `entry` to this directory.
    pub fn create(&mut self, b: &mut Backend, entry: &str) -> (r: FsResult<()>)
        requires
            old(b)@.wf(),
            old(b)@.valid_dir(*old(self)),
        ensures
            *final(self) == *old(self),
            r == spec_dir_create(old(b)@, *old(self), entry.spec_bytes()).0,
            final(b)@ == spec_dir_create(old(b)@, *old(self), entry.spec_bytes()).1,
            final(b)@.wf(),
    {
        self.create_raw(b, entry.as_bytes())
    }

    /// Add a new empty subdirectory entry, the name given as bytes.
    pub fn mkdir_raw(&mut self, b: &mut Backend, entry: &[u8]) -> (r: FsResult<()>)
        requires
            old(b)@.wf(),
            old(b)@.valid_dir(*old(self)),
        ensures
            *final(self) == *old(self),
            r == spec_dir_mkdir(old(b)@, *old(self), entry@).0,
            final(b)@ == spec_dir_mkdir(old(b)@, *old(self), entry@).1,
            final(b)@.wf(),
    {
        if !self.fsops.mkdir {
            return Err(FsError::Unsupported);
        }
        match b {
            Backend::Tmpfs(fs) => {
                proof {
                    tmpfs::lemma_tmpfs_mkdir_wf(fs@, *self, entry@);
                }
                tmpfs::tmpfs_mkdir(fs, self, entry)
            },
        }
    }

    /// Add a new empty subdirectory entry named `entry`.
    pub fn mkdir(&mut self, b: &mut Backend, entry: &str) -> (r: FsResult<()>)
        requires
            old(b)@.wf(),
            old(b)@.valid_dir(*old(self)),
        ensures
            *final(self) == *old(self),
            r == spec_dir_mkdir(old(b)@, *old(self), entry.spec_bytes()).0,
            final(b)@ == spec_dir_mkdir(old(b)@, *old(self), entry.spec_bytes()).1,
            final(b)@.wf(),
    {
        self.mkdir_raw(b, entry.as_bytes())
    }
}

impl File {
    /// Pair an operation table with a backend-owned context.
    pub fn new(fsops: FsOps, private: usize) -> (r: File)
        ensures
            r == (File { fsops, private }),
    {
        File { fsops, private }
    }

    /// Write `data` through the table's `write` slot; the returned
    /// count says how many bytes the backend took.
    pub fn write(&mut self, b: &mut Backend, data: &[u8]) -> (r: FsResult<usize>)
        requires
            old(b)@.wf(),
            old(b)@.valid_file(*old(self)),
        ensures
            *final(self) == *old(self),
            r == spec_file_write(old(b)@, *old(self), data@).0,
            final(b)@ == spec_file_write(old(b)@, *old(self), data@).1,
            final(b)@.wf(),
    {
        if !self.fsops.write {
            return Err(FsError::Unsupported);
        }
        match b {
            Backend::Tmpfs(fs) => {
                proof {
                    tmpfs::lemma_tmpfs_write_wf(fs@, *self, data@);
                }
                tmpfs::tmpfs_write(fs, self, data)
            },
        }
    }

    /// Read into the front of `data` through the table's `read` slot.
    /// The count never exceeds the buffer's length, and the rest of
    /// the buffer keeps its old contents.
    pub fn read(&mut self, b: &Backend, data: &mut Vec<u8>) -> (r: FsResult<usize>)
        requires
            b@.wf(),
            b@.valid_file(*old(self)),
        ensures
            *final(self) == *old(self),
            ({
                match spec_file_read(b@, *old(self), old(data)@.len() as nat) {
                    Ok(bytes) => {
                        &&& r == Ok::<usize, FsError>(bytes.len() as usize)
                        &&& final(data)@ == bytes + old(data)@.skip(bytes.len() as int)
                        &&& final(data)@.len() == old(data)@.len()
                    },
                    Err(e) => r == Err::<usize, FsError>(e) && final(data)@ == old(data)@,
                }
            }),
    {
        if !self.fsops.read {
            return Err(FsError::Unsupported);
        }
        match b {
            Backend::Tmpfs(fs) => tmpfs::tmpfs_read(fs, self, data),
        }
    }
}

/// The extensibility law: an operation whose slot is absent from the
/// table fails with `Unsupported`, and a mutating one leaves the
/// backend state exactly as it was.
pub proof fn lemma_unsupported_no_effect(
    b: BackendModel,
    e: DirEntry,
    d: Directory,
    f: File,
    name: Seq<u8>,
    data: Seq<u8>,
    cap: nat,
)
    ensures
        !e.fsops.open_dir ==> spec_entry_open_dir(b, e) == Err::<Directory, FsError>(
            FsError::Unsupported,
        ),
        !e.fsops.open ==> spec_entry_open(b, e) == Err::<File, FsError>(FsError::Unsupported),
        !d.fsops.find ==> spec_dir_find(b, d, name) == Err::<DirEntry, FsError>(
            FsError::Unsupported,
        ),
        !d.fsops.create ==> spec_dir_create(b, d, name) == (
            Err::<(), FsError>(FsError::Unsupported),
            b,
        ),
        !d.fsops.mkdir ==> spec_dir_mkdir(b, d, name) == (
            Err::<(), FsError>(FsError::Unsupported),
            b,
        ),
        !f.fsops.write ==> spec_file_write(b, f, data) == (
            Err::<usize, FsError>(FsError::Unsupported),
            b,
        ),
        !f.fsops.read ==> spec_file_read(b, f, cap) == Err::<Seq<u8>, FsError>(
            FsError::Unsupported,
        ),
{
}

/// Reading through a table with the `read` slot never errors: it hands
/// back the stored bytes, or the prefix of them that fits the buffer,
/// and never more bytes than the buffer asked for.
pub proof fn lemma_read_returns_prefix(b: BackendModel, f: File, cap: nat)
    requires
        f.fsops.read,
        b.wf(),
        b.valid_file(f),
    ensures
        spec_file_read(b, f, cap) is Ok,
        spec_file_read(b, f, cap)->Ok_0.len() <= cap,
        match b {
            BackendModel::Tmpfs(m) => spec_file_read(b, f, cap)->Ok_0 == m.files[
                f.private as int
            ].take(tmpfs::spec_tmpfs_read_len(m, f, cap) as int) && tmpfs::spec_tmpfs_read_len(
                m,
                f,
                cap,
            ) == if cap < m.files[f.private as int].len() {
                cap
            } else {
                m.files[f.private as int].len()
            },
        },
{
}

/// Lookup of a name no entry carries fails with `NotFound`, and only
/// then; opening an entry of the wrong kind fails with `IsNotFile` or
/// `IsNotDirectory` respectively.
pub proof fn lemma_lookup_kind_errors(
    b: BackendModel,
    d: Directory,
    e: DirEntry,
    name: Seq<u8>,
)
    requires
        d.fsops.find,
        e.fsops.open,
        e.fsops.open_dir,
        b.wf(),
        b.valid_dir(d),
        b.valid_entry(e),
    ensures
        match b {
            BackendModel::Tmpfs(m) => {
                &&& (spec_dir_find(b, d, name) == Err::<DirEntry, FsError>(FsError::NotFound)
                    <==> (forall|j: int|
                    0 <= j < m.dirs[d.private as int].len() ==> m.ents[#[trigger] m.dirs[
                        d.private as int
                    ][j].private as int].name != name))
                &&& (m.ents[e.private as int].kind is Directory ==> spec_entry_open(b, e)
                    == Err::<File, FsError>(FsError::IsNotFile))
                &&& (m.ents[e.private as int].kind is File ==> spec_entry_open_dir(b, e)
                    == Err::<Directory, FsError>(FsError::IsNotDirectory))
            },
        },
{
    match b {
        BackendModel::Tmpfs(m) => {
            tmpfs::lemma_find_entry_characterization(m.dirs[d.private as int], m.ents, name);
        },
    }
}

} // verus!
