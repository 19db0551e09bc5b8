//! The answers to the requests that the mount receives: lookup, attributes,
//! read, directory listing, create, write and release.
use std::sync::Arc;
use vstd::prelude::*;
use crate::attr::{FileAttr, FileKind, attributes_of, kind_of};
use crate::event::{Event, Timestamp, now};
use crate::text::share;
use crate::model::{ContentModel, Node, TreeModel, empty_file};
use crate::tree::{Data, Directory, EntryInfo, models};

verus! {

/// The most bytes that one read returns.
pub const MAX_READ: usize = 1048576;

/// Why a request failed.
#[derive(Clone, Copy, Debug, PartialEq, Eq, Structural)]
pub enum Errno {
    /// No such entry: an absent inode or name, or an entry of the wrong kind.
    NoEntry,
    /// The backing file could not be read.
    Io,
}

/// What a read is answered with: the bytes or the error, and the record for
/// the observer where one is due.
#[derive(Eq, PartialEq, Debug)]
pub struct ReadReply {
    pub data: Result<Vec<u8>, Errno>,
    pub event: Option<Event>,
}

/// What is to be done about a read.
#[derive(Eq, PartialEq, Debug)]
pub enum ReadStep {
    /// The answer is complete.
    Done(ReadReply),
    /// Up to `length` bytes are to be read at `offset` from the backing file
    /// at `path`; `finish_read` turns what came of it into the answer.
    FromFile {
        path: String,
        name: Arc<String>,
        offset: usize,
        size: u32,
        length: usize,
        time: Timestamp,
    },
}

/// One item of a directory listing. A listing that goes on after this item
/// resumes at `next_offset`.
#[derive(Eq, PartialEq, Debug, Clone)]
pub struct DirItem {
    pub ino: u64,
    pub next_offset: i64,
    pub kind: FileKind,
    pub name: String,
}

pub struct DirItemModel {
    pub ino: u64,
    pub next_offset: int,
    pub kind: FileKind,
    pub name: Seq<char>,
}

impl View for DirItem {
    type V = DirItemModel;

    open spec fn view(&self) -> DirItemModel {
        DirItemModel {
            ino: self.ino,
            next_offset: self.next_offset as int,
            kind: self.kind,
            name: self.name@,
        }
    }
}

/// The views of `items`, in order.
pub open spec fn item_views(items: Seq<DirItem>) -> Seq<DirItemModel> {
    Seq::new(items.len(), |i: int| items[i]@)
}

/// The number of bytes that a read of `size` bytes may return at most.
pub open spec fn read_length(size: u32) -> int {
    if size <= MAX_READ {
        size as int
    } else {
        MAX_READ as int
    }
}

/// The bytes that a read returns from a buffer in memory: the range asked
/// for, cut at the ceiling, at the recorded size and at the buffer's end.
pub open spec fn memory_bytes(data: Seq<u8>, recorded: u64, offset: usize, size: u32) -> Seq<u8> {
    let avail: int = if recorded < data.len() { recorded as int } else { data.len() as int };
    if offset >= avail {
        Seq::empty()
    } else if offset + read_length(size) <= avail {
        data.subrange(offset as int, offset + read_length(size))
    } else {
        data.subrange(offset as int, avail)
    }
}

/// The full listing of a directory: itself and its parent, both under
/// inode 1, then its children in stored order. Each item's next offset is
/// its own index plus one.
pub open spec fn dir_listing(dir: Node) -> Seq<DirItemModel> {
    Seq::new(
        dir.children().len() + 2,
        |i: int|
            if i == 0 {
                DirItemModel { ino: 1, next_offset: 1, kind: FileKind::Directory, name: "."@ }
            } else if i == 1 {
                DirItemModel { ino: 1, next_offset: 2, kind: FileKind::Directory, name: ".."@ }
            } else {
                DirItemModel {
                    ino: dir.children()[i - 2].inode,
                    next_offset: i + 1,
                    kind: kind_of(dir.children()[i - 2]),
                    name: dir.children()[i - 2].name,
                }
            },
    )
}

/// The listing resumed at index `k`: the items from `k` on, and nothing
/// where `k` is no index of the listing or its end.
pub open spec fn dir_listing_from(dir: Node, k: int) -> Seq<DirItemModel> {
    if 0 <= k <= dir_listing(dir).len() {
        dir_listing(dir).skip(k)
    } else {
        Seq::empty()
    }
}

/// A listing resumed at `k` is the full listing without its first `k`
/// items, for every `k` from 0 to the listing's length.
pub proof fn lemma_listing_resumes(dir: Node, k: int)
    requires
        0 <= k <= dir_listing(dir).len(),
    ensures
        dir_listing_from(dir, k) == dir_listing_from(dir, 0).skip(k),
        dir_listing_from(dir, 0) == dir_listing(dir),
        dir_listing_from(dir, dir_listing(dir).len() as int).len() == 0,
{
    assert(dir_listing(dir).skip(0) =~= dir_listing(dir));
}

impl TreeModel {
    /// The child named `name`, in any case, of the directory with inode
    /// `parent`.
    pub open spec fn resolve(self, parent: u64, name: Seq<char>) -> Option<Node> {
        match self.root.lookup(parent) {
            Some(dir) => dir.child_named(name),
            None => None,
        }
    }

    /// The answer to a request for the attributes of inode `ino`.
    pub open spec fn attributes(self, ino: u64) -> Result<FileAttr, Errno> {
        match self.root.lookup(ino) {
            Some(n) => Ok(attributes_of(n)),
            None => Err(Errno::NoEntry),
        }
    }
}

/// Asked twice of one tree, the attributes of an inode are the same both
/// times.
pub proof fn lemma_attributes_repeat(
    tree: TreeModel,
    ino: u64,
    first: Result<FileAttr, Errno>,
    second: Result<FileAttr, Errno>,
)
    requires
        first == tree.attributes(ino),
        second == tree.attributes(ino),
    ensures
        first == second,
{
}

/// A read from a buffer in memory at or past the recorded size returns no
/// bytes, and still gives the record of the read as it was asked for.
pub proof fn lemma_read_past_end(
    step: ReadStep,
    tree: TreeModel,
    ino: u64,
    offset: usize,
    size: u32,
    time: Timestamp,
)
    requires
        step.answers(tree, ino, offset, size, time),
        tree.root.lookup(ino) is Some,
        tree.root.lookup(ino).unwrap().content is Memory,
        offset >= tree.root.lookup(ino).unwrap().size(),
    ensures
        step matches ReadStep::Done(reply) && reply.answers(
            Ok(Seq::empty()),
            tree.root.lookup(ino).unwrap().name,
            offset,
            size,
            time,
        ),
{
}

/// No read returns, or asks of a backing file, more bytes than the ceiling.
pub proof fn lemma_read_bounded(
    step: ReadStep,
    tree: TreeModel,
    ino: u64,
    offset: usize,
    size: u32,
    time: Timestamp,
)
    requires
        step.answers(tree, ino, offset, size, time),
    ensures
        match step {
            ReadStep::Done(reply) => reply.data is Ok ==> reply.data.unwrap()@.len() <= MAX_READ
                && reply.data.unwrap()@.len() <= size,
            ReadStep::FromFile { length, .. } => length <= MAX_READ && length <= size,
        },
{
}

impl ReadStep {
    /// Whether this step is the right one for a read of `size` bytes at
    /// `offset` from inode `ino` of `tree`, asked for at `time`.
    pub open spec fn answers(self, tree: TreeModel, ino: u64, offset: usize, size: u32, time: Timestamp) -> bool {
        match tree.root.lookup(ino) {
            None => self matches ReadStep::Done(reply) && reply.data == Err::<Vec<u8>, Errno>(
                Errno::NoEntry,
            ) && reply.event is None,
            Some(entry) => match entry.content {
                ContentModel::FilePath(p) => self matches ReadStep::FromFile {
                    path,
                    name,
                    offset: at,
                    size: asked,
                    length,
                    time: when,
                } && path@ == p && name@ == entry.name && at == offset && asked == size && length
                    == read_length(size) && when == time,
                ContentModel::Memory(data) => self matches ReadStep::Done(reply) && reply.answers(
                    Ok(memory_bytes(data, entry.size(), offset, size)),
                    entry.name,
                    offset,
                    size,
                    time,
                ),
            },
        }
    }
}

impl ReadReply {
    /// Whether this reply is the right one where the data accessor gave
    /// `outcome`: on success those bytes, with the record of the read as it
    /// was asked for; on failure an I/O error and no record.
    pub open spec fn answers(self, outcome: Result<Seq<u8>, ()>, name: Seq<char>, offset: usize, size: u32, time: Timestamp) -> bool {
        match outcome {
            Ok(bytes) => {
                &&& self.data matches Ok(data) && data@ == bytes
                &&& self.event matches Some(event) && event.time == time && event.is_read_of(
                    name,
                    offset,
                    size as usize,
                )
            },
            Err(_) => self.data == Err::<Vec<u8>, Errno>(Errno::Io) && self.event is None,
        }
    }
}

/// Turns what the data accessor gave for a backing file into the reply: the
/// bytes read, never more than the ceiling, with the record of the read as
/// it was asked for; or an I/O error without a record.
pub fn finish_read(name: Arc<String>, offset: usize, size: u32, time: Timestamp, outcome: Result<Vec<u8>, ()>) -> (reply: ReadReply)
    ensures
        reply.answers(
            match outcome {
                Ok(bytes) => Ok(bytes@.take(if bytes.len() <= read_length(size) {
                    bytes.len() as int
                } else {
                    read_length(size)
                })),
                Err(_) => Err(()),
            },
            name@,
            offset,
            size,
            time,
        ),
        reply.data is Ok ==> reply.data.unwrap().len() <= MAX_READ && reply.data.unwrap().len()
            <= size,
{
    match outcome {
        Ok(bytes) => {
            let mut bytes = bytes;
            let length: usize = if size as usize <= MAX_READ { size as usize } else { MAX_READ };
            if bytes.len() > length {
                bytes.truncate(length);
            }
            assert(bytes@ =~= outcome.unwrap()@.take(bytes.len() as int));
            ReadReply { data: Ok(bytes), event: Some(Event::read_at(time, name, offset, size as usize)) }
        },
        Err(_) => ReadReply { data: Err(Errno::Io), event: None },
    }
}

impl Directory {
    /// Resolves `name` under the directory with inode `parent` and returns
    /// the child's attributes.
    pub fn lookup(&self, parent: u64, name: &str) -> (reply: Result<FileAttr, Errno>)
        ensures
            reply == match self@.resolve(parent, name@) {
                Some(n) => Ok::<FileAttr, Errno>(attributes_of(n)),
                None => Err::<FileAttr, Errno>(Errno::NoEntry),
            },
    {
        match self.root().find_ino(parent) {
            Some(dir) => match dir.find_name(name) {
                Some(entry) => Ok(entry.get_fileattr()),
                None => Err(Errno::NoEntry),
            },
            None => Err(Errno::NoEntry),
        }
    }

    /// Returns the attributes of the entry with inode `ino`.
    pub fn getattr(&self, ino: u64) -> (reply: Result<FileAttr, Errno>)
        ensures
            reply == self@.attributes(ino),
    {
        match self.root().find_ino(ino) {
            Some(entry) => Ok(entry.get_fileattr()),
            None => Err(Errno::NoEntry),
        }
    }

    /// Decides what a read of `size` bytes at `offset` from inode `ino`,
    /// asked for at `time`, comes to.
    pub fn begin_read_at(&self, ino: u64, offset: usize, size: u32, time: Timestamp) -> (step: ReadStep)
        ensures
            step.answers(self@, ino, offset, size, time),
    {
        match self.root().find_ino(ino) {
            None => ReadStep::Done(ReadReply { data: Err(Errno::NoEntry), event: None }),
            Some(entry) => {
                let length: usize = if size as usize <= MAX_READ { size as usize } else { MAX_READ };
                match &entry.full_path {
                    Data::FilePath(path) => ReadStep::FromFile {
                        path: path.clone(),
                        name: share(&entry.name),
                        offset,
                        size,
                        length,
                        time,
                    },
                    Data::Memory(data) => {
                        let recorded: u64 = match &entry.info {
                            EntryInfo::File(s) => *s,
                            EntryInfo::Directory(_) => 0,
                        };
                        let avail: usize = if recorded < data.len() as u64 {
                            recorded as usize
                        } else {
                            data.len()
                        };
                        let bytes = if offset >= avail {
                            Vec::new()
                        } else if length <= avail - offset {
                            entry.full_path.read(offset, length).unwrap()
                        } else {
                            entry.full_path.read(offset, avail - offset).unwrap()
                        };
                        assert(bytes@ =~= memory_bytes(data@, entry@.size(), offset, size));
                        ReadStep::Done(
                            ReadReply {
                                data: Ok(bytes),
                                event: Some(
                                    Event::read_at(time, share(&entry.name), offset, size as usize),
                                ),
                            },
                        )
                    },
                }
            },
        }
    }

    /// Decides what a read that is asked for now comes to. The moment is
    /// the clock's; everything else is as `begin_read_at` has it.
    pub fn begin_read(&self, ino: u64, offset: usize, size: u32) -> (step: ReadStep)
        ensures
            exists|time: Timestamp| step.answers(self@, ino, offset, size, time),
    {
        let time = now();
        let step = self.begin_read_at(ino, offset, size, time);
        assert(step.answers(self@, ino, offset, size, time));
        step
    }

    /// Lists the directory with inode `ino` from the logical index `offset`
    /// on. A negative offset lies past every listing.
    pub fn readdir(&self, ino: u64, offset: i64) -> (reply: Result<Vec<DirItem>, Errno>)
        requires
            self@.root.lookup(ino) is Some ==> self@.root.lookup(ino).unwrap().children().len() + 2
                <= i64::MAX,
        ensures
            match self@.root.lookup(ino) {
                Some(dir) => if dir.is_dir() {
                    reply matches Ok(items) && item_views(items@) == dir_listing_from(
                        dir,
                        offset as int,
                    )
                } else {
                    reply matches Err(e) && e == Errno::NoEntry
                },
                None => reply matches Err(e) && e == Errno::NoEntry,
            },
    {
        match self.root().find_ino(ino) {
            Some(entry) => match &entry.info {
                EntryInfo::Directory(dir_entries) => {
                    let ghost dir = entry@;
                    let ghost all = dir_listing(dir);
                    assert(dir.children() == models(*dir_entries));
                    let n: usize = dir_entries.len();
                    let mut items: Vec<DirItem> = Vec::new();
                    if offset < 0 || offset as u64 > n as u64 + 2 {
                        assert(item_views(items@) =~= dir_listing_from(dir, offset as int));
                        return Ok(items);
                    }
                    if offset == 0 {
                        items.push(
                            DirItem {
                                ino: 1,
                                next_offset: 1,
                                kind: FileKind::Directory,
                                name: ".".to_owned(),
                            },
                        );
                    }
                    if offset <= 1 {
                        items.push(
                            DirItem {
                                ino: 1,
                                next_offset: 2,
                                kind: FileKind::Directory,
                                name: "..".to_owned(),
                            },
                        );
                    }
                    let mut j: usize = if offset <= 2 { 0 } else { (offset - 2) as usize };
                    assert(item_views(items@) =~= all.subrange(offset as int, j + 2));
                    while j < n
                        invariant
                            n == dir_entries.len(),
                            n + 2 <= i64::MAX,
                            j <= n,
                            0 <= offset <= j + 2,
                            dir.children() == models(*dir_entries),
                            all == dir_listing(dir),
                            item_views(items@) =~= all.subrange(offset as int, j + 2),
                        decreases n - j,
                    {
                        let child = &dir_entries[j];
                        let ghost before = item_views(items@);
                        assert(dir.children()[j as int] == child@);
                        items.push(
                            DirItem {
                                ino: child.inode,
                                next_offset: j as i64 + 3,
                                kind: child.file_kind(),
                                name: child.name.as_str().to_owned(),
                            },
                        );
                        assert(items@[items.len() - 1]@ == all[j + 2]);
                        assert(item_views(items@) =~= before.push(all[j + 2]));
                        j += 1;
                    }
                    assert(item_views(items@) =~= dir_listing_from(dir, offset as int));
                    Ok(items)
                },
                EntryInfo::File(_) => Err(Errno::NoEntry),
            },
            None => Err(Errno::NoEntry),
        }
    }

    /// Creates an empty file `name` under the directory with inode `parent`
    /// and returns the new file's attributes. Under a file, or under an
    /// inode that is absent, nothing changes.
    pub fn create(&mut self, parent: u64, name: &str) -> (reply: Result<FileAttr, Errno>)
        requires
            old(self).wf(),
            old(self)@.next_inode < u64::MAX,
        ensures
            final(self).wf(),
            final(self)@ == old(self)@.create(parent, name@),
            reply == if old(self)@.can_create(parent) {
                Ok::<FileAttr, Errno>(attributes_of(empty_file(name@, old(self)@.next_inode)))
            } else {
                Err::<FileAttr, Errno>(Errno::NoEntry)
            },
    {
        match self.create_file(parent, name) {
            Ok(ino) => Ok(
                FileAttr {
                    ino,
                    size: 0,
                    blocks: 1,
                    atime: 0,
                    mtime: 0,
                    ctime: 0,
                    crtime: 0,
                    kind: FileKind::RegularFile,
                    perm: 0o755,
                    nlink: 1,
                    uid: 333,
                    gid: 333,
                    rdev: 0,
                    flags: 0,
                    blksize: 512,
                },
            ),
            Err(_) => Err(Errno::NoEntry),
        }
    }

    /// Accepts a write and discards it: the tree stays as it was, and the
    /// whole of `data` is reported as written.
    pub fn write(&mut self, ino: u64, offset: i64, data: &[u8]) -> (written: usize)
        ensures
            *final(self) == *old(self),
            written == data@.len(),
    {
        data.len()
    }

    /// Releases an open file. Nothing is held open, so this always succeeds.
    pub fn release(&self, ino: u64) -> (reply: Result<(), Errno>)
        ensures
            reply is Ok,
    {
        Ok(())
    }
}

} // verus!
