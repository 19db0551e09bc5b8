//! The attributes that the mount reports for an entry.
use vstd::prelude::*;
use crate::model::{InfoModel, Node};
use crate::tree::{Entry, EntryInfo};

verus! {

/// How long, in seconds, a reply may be cached by whoever asked.
pub const TTL_SECONDS: u64 = 1;

#[derive(Clone, Copy, Debug, PartialEq, Eq, Structural)]
pub enum FileKind {
    Directory,
    RegularFile,
}

/// The attributes of one entry. The four times are seconds after the epoch.
#[derive(Clone, Copy, Debug, PartialEq, Eq, Structural)]
pub struct FileAttr {
    pub ino: u64,
    pub size: u64,
    pub blocks: u64,
    pub atime: u64,
    pub mtime: u64,
    pub ctime: u64,
    pub crtime: u64,
    pub kind: FileKind,
    pub perm: u16,
    pub nlink: u32,
    pub uid: u32,
    pub gid: u32,
    pub rdev: u32,
    pub flags: u32,
    pub blksize: u32,
}

/// The kind that is reported for a node.
pub open spec fn kind_of(n: Node) -> FileKind {
    if n.is_dir() {
        FileKind::Directory
    } else {
        FileKind::RegularFile
    }
}

/// The attributes of a node: its inode and, for a file, its recorded size;
/// everything else is fixed by the node's kind, with all times at the epoch.
pub open spec fn attributes_of(n: Node) -> FileAttr {
    match n.info {
        InfoModel::File(size) => FileAttr {
            ino: n.inode,
            size,
            blocks: 1,
            atime: 0,
            mtime: 0,
            ctime: 0,
            crtime: 0,
            kind: FileKind::RegularFile,
            perm: 0o755,
            nlink: 1,
            uid: 333,
            gid: 333,
            rdev: 0,
            flags: 0,
            blksize: 512,
        },
        InfoModel::Directory(_) => FileAttr {
            ino: n.inode,
            size: 0,
            blocks: 0,
            atime: 0,
            mtime: 0,
            ctime: 0,
            crtime: 0,
            kind: FileKind::Directory,
            perm: 0o755,
            nlink: 2,
            uid: 1000,
            gid: 1000,
            rdev: 0,
            flags: 0,
            blksize: 512,
        },
    }
}

impl Entry {
    pub fn get_fileattr(&self) -> (attr: FileAttr)
        ensures
            attr == attributes_of(self@),
    {
        match &self.info {
            EntryInfo::File(size) => FileAttr {
                ino: self.inode,
                size: *size,
                blocks: 1,
                atime: 0,
                mtime: 0,
                ctime: 0,
                crtime: 0,
                kind: FileKind::RegularFile,
                perm: 0o755,
                nlink: 1,
                uid: 333,
                gid: 333,
                rdev: 0,
                flags: 0,
                blksize: 512,
            },
            EntryInfo::Directory(_entries) => FileAttr {
                ino: self.inode,
                size: 0,
                blocks: 0,
                atime: 0,
                mtime: 0,
                ctime: 0,
                crtime: 0,
                kind: FileKind::Directory,
                perm: 0o755,
                nlink: 2,
                uid: 1000,
                gid: 1000,
                rdev: 0,
                flags: 0,
                blksize: 512,
            },
        }
    }

    /// The kind that is reported for this entry.
    pub fn file_kind(&self) -> (kind: FileKind)
        ensures
            kind == kind_of(self@),
    {
        match &self.info {
            EntryInfo::File(_) => FileKind::RegularFile,
            EntryInfo::Directory(_) => FileKind::Directory,
        }
    }
}

} // verus!
