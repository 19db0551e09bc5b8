//! The mirrored tree as it is held in memory, and the searches over it.
use std::sync::Arc;
use vstd::prelude::*;
use crate::model::{ContentModel, InfoModel, Node, TreeModel, lookup_from, replace_from, child_from, lemma_skip_misses, lemma_create_keeps_wf, lemma_replace_same};
use crate::scan::{SourceNode, sources, total_upto, built, lemma_built_wf};
use crate::text::{first_match, key_views, first_equal_from, lowercase, to_lowercase};

verus! {

/// Where an entry's bytes come from: a backing file, or a buffer in memory.
#[derive(Eq, PartialEq, Debug)]
pub enum Data {
    FilePath(String),
    Memory(Vec<u8>),
}

#[derive(Eq, PartialEq, Debug)]
pub enum EntryInfo {
    Directory(Vec<Entry>),
    /// A file, with its size in bytes.
    File(u64),
}

#[derive(Eq, PartialEq, Debug)]
pub struct Entry {
    /// The name, shared with the records of the reads of this entry.
    pub name: Arc<String>,
    pub full_path: Data,
    pub inode: u64,
    pub info: EntryInfo,
}

impl View for Data {
    type V = ContentModel;

    open spec fn view(&self) -> ContentModel {
        match self {
            Data::FilePath(p) => ContentModel::FilePath(p@),
            Data::Memory(b) => ContentModel::Memory(b@),
        }
    }
}

/// The models of the entries of `v`, in order.
pub open spec fn models(v: Vec<Entry>) -> Seq<Node>
    decreases v, 1nat,
{
    Seq::new(v.len() as nat, |i: int| if 0 <= i < v.len() { v[i].model() } else { arbitrary() })
}

impl Entry {
    pub open spec fn model(self) -> Node
        decreases self, 0nat,
    {
        Node {
            name: self.name@,
            content: self.full_path@,
            inode: self.inode,
            info: match self.info {
                EntryInfo::Directory(v) => InfoModel::Directory(models(v)),
                EntryInfo::File(s) => InfoModel::File(s),
            },
        }
    }
}

impl View for Entry {
    type V = Node;

    open spec fn view(&self) -> Node {
        self.model()
    }
}

impl EntryInfo {
    pub fn is_dir(&self) -> (b: bool)
        ensures
            b == (self is Directory),
    {
        match self {
            Self::Directory(_) => true,
            Self::File(_) => false,
        }
    }

    pub fn is_file(&self) -> (b: bool)
        ensures
            b == (self is File),
    {
        match self {
            Self::Directory(_) => false,
            Self::File(_) => true,
        }
    }
}

impl Entry {
    /// Finds the entry with inode `ino`: this one, or else the first match
    /// depth-first among the children in order.
    pub fn find_ino(&self, ino: u64) -> (found: Option<&Entry>)
        ensures
            found is Some <==> self@.lookup(ino) is Some,
            found is Some ==> found.unwrap()@ == self@.lookup(ino).unwrap(),
        decreases *self, 0nat,
    {
        if ino == self.inode {
            Some(self)
        } else {
            match &self.info {
                EntryInfo::Directory(contents) => Self::find_ino_internal(contents, ino),
                EntryInfo::File(_) => None,
            }
        }
    }

    /// Searches the subtrees of `directory` in order for the inode `ino`.
    pub fn find_ino_internal(directory: &Vec<Entry>, ino: u64) -> (found: Option<&Entry>)
        ensures
            found is Some <==> lookup_from(models(*directory), 0, ino) is Some,
            found is Some ==> found.unwrap()@ == lookup_from(models(*directory), 0, ino).unwrap(),
        decreases *directory, 1nat,
    {
        let n: usize = directory.len();
        let mut i: usize = 0;
        while i < n
            invariant
                n == directory.len(),
                i <= n,
                lookup_from(models(*directory), 0, ino) == lookup_from(models(*directory), i as int, ino),
            decreases n - i,
        {
            let hit = directory[i].find_ino(ino);
            if hit.is_some() {
                return hit;
            }
            i += 1;
        }
        None
    }
}

impl Entry {
    /// Finds the first child whose name equals `name` when both are put in
    /// lowercase. A file has no children.
    pub fn find_name(&self, name: &str) -> (found: Option<&Entry>)
        ensures
            match found {
                Some(e) => self@.child_named(name@) == Some(e@),
                None => self@.child_named(name@) is None,
            },
    {
        match &self.info {
            EntryInfo::Directory(entries) => {
                let wanted = to_lowercase(name);
                let n: usize = entries.len();
                let mut keys: Vec<String> = Vec::new();
                let mut i: usize = 0;
                while i < n
                    invariant
                        n == entries.len(),
                        i <= n,
                        keys.len() == i,
                        forall|j: int| 0 <= j < i ==> (#[trigger] keys[j])@ == lowercase(entries[j].name@),
                    decreases n - i,
                {
                    keys.push(to_lowercase(entries[i].name.as_str()));
                    i += 1;
                }
                let at = first_match(&keys, &wanted);
                proof {
                    lemma_keys_agree(models(*entries), key_views(keys@), 0, lowercase(name@));
                }
                match at {
                    Some(k) => Some(&entries[k]),
                    None => None,
                }
            },
            EntryInfo::File(_) => None,
        }
    }

    /// Finds the entry with inode `ino` for writing. What the caller stores
    /// in the entry handed out takes that entry's place in the tree.
    pub fn find_ino_mut(&mut self, ino: u64) -> (found: Option<&mut Entry>)
        ensures
            match found {
                Some(e) => old(self)@.lookup(ino) == Some((*e).model())
                    && final(self)@ == old(self)@.replace(ino, (*final(e)).model()),
                None => old(self)@.lookup(ino) is None && final(self)@ == old(self)@,
            },
        decreases *old(self), 0nat,
    {
        if ino == self.inode {
            Some(self)
        } else {
            match &mut self.info {
                EntryInfo::Directory(contents) => Self::find_ino_mut_internal(contents, ino),
                EntryInfo::File(_) => None,
            }
        }
    }

    /// Searches the subtrees of `directory` in order for the inode `ino`,
    /// for writing.
    pub fn find_ino_mut_internal(directory: &mut Vec<Entry>, ino: u64) -> (found: Option<&mut Entry>)
        ensures
            match found {
                Some(e) => lookup_from(models(*old(directory)), 0, ino) == Some((*e).model())
                    && models(*final(directory)) =~= replace_from(
                    models(*old(directory)),
                    0,
                    ino,
                    (*final(e)).model(),
                ),
                None => lookup_from(models(*old(directory)), 0, ino) is None && models(
                    *final(directory),
                ) =~= models(*old(directory)),
            },
        decreases *old(directory), 1nat,
    {
        let n: usize = directory.len();
        let mut i: usize = 0;
        let mut hit = false;
        while i < n && !hit
            invariant
                n == directory.len(),
                i <= n,
                *directory == *old(directory),
                forall|j: int| 0 <= j < i ==> (#[trigger] models(*directory)[j]).lookup(ino) is None,
                hit ==> i < n && models(*directory)[i as int].lookup(ino) is Some,
            decreases n - i, (if hit { 0nat } else { 1nat }),
        {
            if directory[i].find_ino(ino).is_some() {
                hit = true;
            } else {
                i += 1;
            }
        }
        proof {
            lemma_skip_misses(models(*directory), i as int, ino);
        }
        if hit {
            assert(lookup_from(models(*directory), i as int, ino) == models(*directory)[i as int].lookup(ino));
            let entry = &mut directory[i];
            entry.find_ino_mut(ino)
        } else {
            None
        }
    }
}

impl Data {
    /// Copies `length` bytes from `offset` on out of an in-memory buffer.
    /// The bytes of a backing file are not read here: for one, the result is
    /// `None`.
    pub fn read(&self, offset: usize, length: usize) -> (bytes: Option<Vec<u8>>)
        requires
            self is Memory ==> offset + length <= self->Memory_0.len(),
        ensures
            match self {
                Data::Memory(data) => bytes is Some && bytes.unwrap()@ == data@.subrange(
                    offset as int,
                    offset + length,
                ),
                Data::FilePath(_) => bytes is None,
            },
    {
        match self {
            Data::FilePath(_) => None,
            Data::Memory(data) => {
                let mut out: Vec<u8> = Vec::new();
                let mut i: usize = 0;
                while i < length
                    invariant
                        i <= length,
                        offset + length <= data.len(),
                        out@ == data@.subrange(offset as int, offset + i),
                    decreases length - i,
                {
                    out.push(data[offset + i]);
                    assert(out@ =~= data@.subrange(offset as int, offset + i + 1));
                    i += 1;
                }
                Some(out)
            },
        }
    }
}

impl Entry {
    /// Appends `child` as the last child of this directory. A file is left
    /// as it is.
    pub fn push_child(&mut self, child: Entry)
        ensures
            old(self)@.is_dir() ==> final(self)@ == old(self)@.with_child(child@),
            !old(self)@.is_dir() ==> final(self)@ == old(self)@,
    {
        match &mut self.info {
            EntryInfo::Directory(entries) => {
                let ghost before = models(*entries);
                entries.push(child);
                assert(models(*entries) =~= before.push(child@));
            },
            EntryInfo::File(_) => {},
        }
    }
}

/// The mirrored tree with the counter that hands out inodes.
#[derive(Eq, PartialEq, Debug)]
pub struct Directory {
    root: Entry,
    inode_ctr: u64,
}

impl View for Directory {
    type V = TreeModel;

    closed spec fn view(&self) -> TreeModel {
        TreeModel { root: self.root@, next_inode: self.inode_ctr }
    }
}

impl Directory {
    /// The tree's invariant: see `TreeModel::wf`.
    pub open spec fn wf(&self) -> bool {
        self@.wf()
    }

    /// Builds the tree over `listing`, the contents of the source directory
    /// `dir`: inode 1 for the root, the inodes from 2 on for the listing.
    pub fn new(dir: &str, listing: &Vec<SourceNode>) -> (tree: Directory)
        requires
            2 + total_upto(sources(*listing), listing.len() as int) <= u64::MAX,
        ensures
            tree@ == built(dir@, sources(*listing)),
            tree.wf(),
    {
        let mut inode_ctr: u64 = 1;
        let root = Entry::new(dir, listing, &mut inode_ctr);
        proof {
            lemma_built_wf(dir@, sources(*listing));
        }
        Directory { root, inode_ctr }
    }

    /// The root entry.
    pub fn root(&self) -> (root: &Entry)
        ensures
            root@ == self@.root,
    {
        &self.root
    }

    /// The inode that the next created file will get.
    pub fn next_inode(&self) -> (next: u64)
        ensures
            next == self@.next_inode,
    {
        self.inode_ctr
    }

    /// Creates an empty in-memory file `name` as the last child of the
    /// directory with inode `parent`, and returns the new file's inode.
    /// Fails, and changes nothing, where `parent` is absent or a file.
    pub fn create_file(&mut self, parent: u64, name: &str) -> (created: Result<u64, ()>)
        requires
            old(self).wf(),
            old(self)@.next_inode < u64::MAX,
        ensures
            final(self).wf(),
            final(self)@ == old(self)@.create(parent, name@),
            old(self)@.can_create(parent) ==> created == Ok::<u64, ()>(old(self)@.next_inode),
            !old(self)@.can_create(parent) ==> created is Err,
    {
        proof {
            lemma_create_keeps_wf(self@, parent, name@);
            if self@.root.lookup(parent) is Some {
                lemma_replace_same(self@.root, parent);
            }
        }
        let ino: u64 = self.inode_ctr;
        match self.root.find_ino_mut(parent) {
            Some(dir) => {
                if dir.info.is_dir() {
                    dir.push_child(
                        Entry {
                            name: Arc::new(name.to_owned()),
                            full_path: Data::Memory(Vec::new()),
                            inode: ino,
                            info: EntryInfo::File(0),
                        },
                    );
                    self.inode_ctr = ino + 1;
                    Ok(ino)
                } else {
                    Err(())
                }
            },
            None => Err(()),
        }
    }
}

/// Where the keys are the lowercase names of the nodes, the first equal key
/// stands at the first child that the name matches.
proof fn lemma_keys_agree(cs: Seq<Node>, keys: Seq<Seq<char>>, i: int, key: Seq<char>)
    requires
        0 <= i <= cs.len(),
        keys.len() == cs.len(),
        forall|j: int| 0 <= j < cs.len() ==> #[trigger] keys[j] == lowercase(cs[j].name),
    ensures
        match first_equal_from(keys, i, key) {
            Some(k) => i <= k < cs.len() && child_from(cs, i, key) == Some(cs[k]),
            None => child_from(cs, i, key) is None,
        },
    decreases cs.len() - i,
{
    if i < cs.len() && keys[i] != key {
        lemma_keys_agree(cs, keys, i + 1, key);
    }
}

} // verus!
