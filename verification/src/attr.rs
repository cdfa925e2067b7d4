//! Attribute records: the metadata the protocol returns for the one
//! directory and for each remote file.

use vstd::prelude::*;

verus! {

/// Kind of an entry: the single root directory, or a regular file.
#[derive(Clone, Copy, PartialEq, Eq, Structural, Debug)]
pub enum FileKind {
    Directory,
    RegularFile,
}

/// Identity of the single root directory.
pub const DIR_INO: u64 = 1;

/// First identity handed to a resource entry; one above the directory's.
pub const REMOTE_INO_START: u64 = 2;

/// Read-only permission bits for owner, group and others.
pub const READ_ONLY_PERM: u16 = 0o444;

/// Seconds a caller may cache a returned attribute record or name
/// resolution before asking again.
pub const TTL_SECS: u64 = 1;

/// Owner reported for every entry; the value carries no meaning here.
pub const OWNER_UID: u32 = 501;

/// Group reported for every entry; the value carries no meaning here.
pub const OWNER_GID: u32 = 20;

/// Block size reported for every entry.
pub const BLOCK_SIZE: u32 = 512;

/// The metadata record returned for a file or directory. Timestamps are
/// seconds since the epoch; every entry reports the epoch itself.
#[derive(Clone, Copy, PartialEq, Eq, Structural, Debug)]
pub struct FileAttr {
    pub ino: u64,
    pub size: u64,
    pub blocks: u64,
    pub atime_secs: u64,
    pub mtime_secs: u64,
    pub ctime_secs: u64,
    pub crtime_secs: u64,
    pub kind: FileKind,
    pub perm: u16,
    pub nlink: u32,
    pub uid: u32,
    pub gid: u32,
    pub rdev: u32,
    pub flags: u32,
    pub blksize: u32,
}

/// The attribute record of the root directory: read-only, two hard
/// links, zero size, epoch timestamps.
pub open spec fn spec_dir_attr() -> FileAttr {
    FileAttr {
        ino: DIR_INO,
        size: 0,
        blocks: 0,
        atime_secs: 0,
        mtime_secs: 0,
        ctime_secs: 0,
        crtime_secs: 0,
        kind: FileKind::Directory,
        perm: READ_ONLY_PERM,
        nlink: 2,
        uid: OWNER_UID,
        gid: OWNER_GID,
        rdev: 0,
        flags: 0,
        blksize: BLOCK_SIZE,
    }
}

/// The attribute record of a remote file with the given identity and
/// cached total size: read-only regular file, one hard link.
pub open spec fn spec_file_attr(ino: u64, size: u64) -> FileAttr {
    FileAttr {
        ino: ino,
        size: size,
        blocks: 1,
        atime_secs: 0,
        mtime_secs: 0,
        ctime_secs: 0,
        crtime_secs: 0,
        kind: FileKind::RegularFile,
        perm: READ_ONLY_PERM,
        nlink: 1,
        uid: OWNER_UID,
        gid: OWNER_GID,
        rdev: 0,
        flags: 0,
        blksize: BLOCK_SIZE,
    }
}

/// Builds the root directory's attribute record.
pub fn dir_attr() -> (r: FileAttr)
    ensures
        r == spec_dir_attr(),
{
    FileAttr {
        ino: DIR_INO,
        size: 0,
        blocks: 0,
        atime_secs: 0,
        mtime_secs: 0,
        ctime_secs: 0,
        crtime_secs: 0,
        kind: FileKind::Directory,
        perm: READ_ONLY_PERM,
        nlink: 2,
        uid: OWNER_UID,
        gid: OWNER_GID,
        rdev: 0,
        flags: 0,
        blksize: BLOCK_SIZE,
    }
}

/// Builds the attribute record of a remote file.
pub fn file_attr(ino: u64, size: u64) -> (r: FileAttr)
    ensures
        r == spec_file_attr(ino, size),
{
    FileAttr {
        ino: ino,
        size: size,
        blocks: 1,
        atime_secs: 0,
        mtime_secs: 0,
        ctime_secs: 0,
        crtime_secs: 0,
        kind: FileKind::RegularFile,
        perm: READ_ONLY_PERM,
        nlink: 1,
        uid: OWNER_UID,
        gid: OWNER_GID,
        rdev: 0,
        flags: 0,
        blksize: BLOCK_SIZE,
    }
}

} // verus!
