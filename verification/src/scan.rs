//! Building the tree from a listing of the source directory: every node of
//! the listing gets the next unused inode, the nodes of a subdirectory before
//! the subdirectory itself.
use std::sync::Arc;
use vstd::prelude::*;
use crate::model::{ContentModel, InfoModel, Node, TreeModel, count_upto, child_from, lemma_count_prefix};
use crate::text::lowercase;
use crate::tree::{Data, Entry, EntryInfo, models};

verus! {

#[derive(Eq, PartialEq, Debug)]
pub enum SourceKind {
    Directory(Vec<SourceNode>),
    /// A file, with its size in bytes.
    File(u64),
}

/// One node of the source directory as it was found on disk.
#[derive(Eq, PartialEq, Debug)]
pub struct SourceNode {
    pub name: String,
    /// The canonical absolute path.
    pub full_path: String,
    pub kind: SourceKind,
}

pub enum SourceKindModel {
    Directory(Seq<SourceModel>),
    File(u64),
}

pub struct SourceModel {
    pub name: Seq<char>,
    pub full_path: Seq<char>,
    pub kind: SourceKindModel,
}

/// The models of the nodes of `v`, in order.
pub open spec fn sources(v: Vec<SourceNode>) -> Seq<SourceModel>
    decreases v, 1nat,
{
    Seq::new(v.len() as nat, |i: int| if 0 <= i < v.len() { v[i].model() } else { arbitrary() })
}

impl SourceNode {
    pub open spec fn model(self) -> SourceModel
        decreases self, 0nat,
    {
        SourceModel {
            name: self.name@,
            full_path: self.full_path@,
            kind: match self.kind {
                SourceKind::Directory(v) => SourceKindModel::Directory(sources(v)),
                SourceKind::File(s) => SourceKindModel::File(s),
            },
        }
    }
}

impl View for SourceNode {
    type V = SourceModel;

    open spec fn view(&self) -> SourceModel {
        self.model()
    }
}

impl SourceModel {
    /// The number of nodes of this subtree.
    pub open spec fn total(self) -> nat
        decreases self, 0nat,
    {
        match self.kind {
            SourceKindModel::Directory(cs) => 1 + total_upto(cs, cs.len() as int),
            SourceKindModel::File(_) => 1,
        }
    }

    /// The entry for this node where `start` is the next unused inode: the
    /// nodes below it are numbered first, from `start` on, and the node
    /// itself gets the inode after theirs.
    pub open spec fn assign(self, start: int) -> Node
        decreases self, 0nat,
    {
        match self.kind {
            SourceKindModel::Directory(cs) => Node {
                name: self.name,
                content: ContentModel::FilePath(self.full_path),
                inode: (start + total_upto(cs, cs.len() as int)) as u64,
                info: InfoModel::Directory(assign_upto(cs, cs.len() as int, start)),
            },
            SourceKindModel::File(size) => Node {
                name: self.name,
                content: ContentModel::FilePath(self.full_path),
                inode: start as u64,
                info: InfoModel::File(size),
            },
        }
    }
}

/// The number of nodes in the first `n` subtrees of `cs`.
pub open spec fn total_upto(cs: Seq<SourceModel>, n: int) -> nat
    decreases cs, n,
{
    if n <= 0 || n > cs.len() {
        0
    } else {
        total_upto(cs, n - 1) + cs[n - 1].total()
    }
}

/// The entries for the first `n` nodes of `cs`, numbered in order from
/// `start` on.
pub open spec fn assign_upto(cs: Seq<SourceModel>, n: int, start: int) -> Seq<Node>
    decreases cs, n,
{
    if n <= 0 || n > cs.len() {
        Seq::empty()
    } else {
        assign_upto(cs, n - 1, start).push(cs[n - 1].assign(start + total_upto(cs, n - 1)))
    }
}

/// The root over a listing: inode 1, no name, the listing numbered from
/// `start` on.
pub open spec fn root_node(dir: Seq<char>, listing: Seq<SourceModel>, start: int) -> Node {
    Node {
        name: Seq::empty(),
        content: ContentModel::FilePath(dir),
        inode: 1,
        info: InfoModel::Directory(assign_upto(listing, listing.len() as int, start)),
    }
}

/// The tree over a listing: the listing numbered from 2 on under the root.
pub open spec fn built(dir: Seq<char>, listing: Seq<SourceModel>) -> TreeModel {
    TreeModel {
        root: root_node(dir, listing, 2),
        next_inode: (2 + total_upto(listing, listing.len() as int)) as u64,
    }
}

pub proof fn lemma_total_monotone(cs: Seq<SourceModel>, m: int, n: int)
    requires
        0 <= m <= n <= cs.len(),
    ensures
        total_upto(cs, m) <= total_upto(cs, n),
    decreases n - m,
{
    if m < n {
        lemma_total_monotone(cs, m, n - 1);
    }
}

/// The `j`th entry is the `j`th node, numbered after all the nodes before it.
pub proof fn lemma_assign_index(cs: Seq<SourceModel>, n: int, start: int)
    requires
        0 <= n <= cs.len(),
    ensures
        assign_upto(cs, n, start).len() == n,
        forall|j: int| 0 <= j < n ==> #[trigger] assign_upto(cs, n, start)[j] == cs[j].assign(
            start + total_upto(cs, j),
        ),
    decreases n,
{
    if n > 0 {
        lemma_assign_index(cs, n - 1, start);
    }
}

/// A numbered subtree holds each inode of its range once, and no other.
pub proof fn lemma_assign_count(s: SourceModel, start: int, x: u64)
    requires
        0 <= start,
        start + s.total() <= u64::MAX,
    ensures
        s.assign(start).count(x) == (if start <= x < start + s.total() { 1nat } else { 0nat }),
    decreases s, 0nat,
{
    match s.kind {
        SourceKindModel::Directory(cs) => {
            lemma_assign_index(cs, cs.len() as int, start);
            lemma_assign_count_upto(cs, cs.len() as int, start, x);
        },
        SourceKindModel::File(_) => {},
    }
}

pub proof fn lemma_assign_count_upto(cs: Seq<SourceModel>, n: int, start: int, x: u64)
    requires
        0 <= start,
        0 <= n <= cs.len(),
        start + total_upto(cs, n) <= u64::MAX,
    ensures
        count_upto(assign_upto(cs, n, start), n, x) == (if start <= x < start + total_upto(cs, n) {
            1nat
        } else {
            0nat
        }),
    decreases cs, n,
{
    if n > 0 {
        lemma_assign_count_upto(cs, n - 1, start, x);
        lemma_assign_index(cs, n - 1, start);
        lemma_assign_index(cs, n, start);
        lemma_count_prefix(assign_upto(cs, n, start), assign_upto(cs, n - 1, start), n - 1, x);
        lemma_assign_count(cs[n - 1], start + total_upto(cs, n - 1), x);
    }
}

/// The tree built over a listing is well formed.
pub proof fn lemma_built_wf(dir: Seq<char>, listing: Seq<SourceModel>)
    requires
        2 + total_upto(listing, listing.len() as int) <= u64::MAX,
    ensures
        built(dir, listing).wf(),
{
    let t = built(dir, listing);
    lemma_assign_index(listing, listing.len() as int, 2);
    assert forall|x: u64| #[trigger] t.root.count(x) <= 1 by {
        lemma_assign_count_upto(listing, listing.len() as int, 2, x);
    }
    assert forall|x: u64| x >= t.next_inode implies #[trigger] t.root.count(x) == 0 by {
        lemma_assign_count_upto(listing, listing.len() as int, 2, x);
    }
}

/// A node whose lowercase name is `key` makes the search for `key` succeed,
/// with a node of that lowercase name.
pub proof fn lemma_child_found(cs: Seq<Node>, i: int, k: int, key: Seq<char>)
    requires
        0 <= i <= k < cs.len(),
        lowercase(cs[k].name) == key,
    ensures
        child_from(cs, i, key) is Some,
        lowercase(child_from(cs, i, key).unwrap().name) == key,
    decreases k - i,
{
    if lowercase(cs[i].name) != key {
        lemma_child_found(cs, i + 1, k, key);
    }
}

/// The top level of a built tree mirrors the listing: as many children, in
/// the same order, each with the name and kind of its node; and a name that
/// agrees with a node's name in lowercase finds a child of that lowercase
/// name.
pub proof fn lemma_built_top_level(dir: Seq<char>, listing: Seq<SourceModel>, i: int, name: Seq<char>)
    requires
        0 <= i < listing.len(),
        lowercase(name) == lowercase(listing[i].name),
    ensures
        built(dir, listing).root.children().len() == listing.len(),
        built(dir, listing).root.children()[i].name == listing[i].name,
        built(dir, listing).root.children()[i].is_dir() == (listing[i].kind is Directory),
        built(dir, listing).root.child_named(name) is Some,
        lowercase(built(dir, listing).root.child_named(name).unwrap().name) == lowercase(name),
{
    lemma_assign_index(listing, listing.len() as int, 2);
    lemma_child_found(built(dir, listing).root.children(), 0, i, lowercase(name));
}

impl Entry {
    /// Builds the root entry over `listing`, the contents of the directory
    /// `dir`. The root has inode 1; the counter is stepped past it before the
    /// listing is numbered.
    pub fn new(dir: &str, listing: &Vec<SourceNode>, inode_ctr: &mut u64) -> (root: Entry)
        requires
            *old(inode_ctr) + 1 + total_upto(sources(*listing), listing.len() as int) <= u64::MAX,
        ensures
            root@ == root_node(dir@, sources(*listing), *old(inode_ctr) + 1),
            *final(inode_ctr) == *old(inode_ctr) + 1 + total_upto(
                sources(*listing),
                listing.len() as int,
            ),
    {
        *inode_ctr += 1;
        let entries = Self::build_directory(listing, inode_ctr);
        Entry {
            full_path: Data::FilePath(dir.to_owned()),
            name: Arc::new(String::new()),
            info: EntryInfo::Directory(entries),
            inode: 1,
        }
    }

    /// Builds the entries for `listing` in order, numbering every node from
    /// the counter on.
    pub fn build_directory(listing: &Vec<SourceNode>, inode_offset: &mut u64) -> (entries: Vec<Entry>)
        requires
            *old(inode_offset) + total_upto(sources(*listing), listing.len() as int) <= u64::MAX,
        ensures
            models(entries) == assign_upto(
                sources(*listing),
                listing.len() as int,
                *old(inode_offset) as int,
            ),
            *final(inode_offset) == *old(inode_offset) + total_upto(
                sources(*listing),
                listing.len() as int,
            ),
        decreases *listing,
    {
        let ghost start = *inode_offset as int;
        let ghost srcs = sources(*listing);
        let n: usize = listing.len();
        let mut entries: Vec<Entry> = Vec::new();
        let mut i: usize = 0;
        while i < n
            invariant
                n == listing.len(),
                i <= n,
                srcs == sources(*listing),
                start + total_upto(srcs, n as int) <= u64::MAX,
                *inode_offset == start + total_upto(srcs, i as int),
                models(entries) =~= assign_upto(srcs, i as int, start),
            decreases n - i,
        {
            proof {
                lemma_total_monotone(srcs, i as int + 1, n as int);
            }
            let ghost before = models(entries);
            let node = &listing[i];
            assert(srcs[i as int] == node.model());
            assert(total_upto(srcs, i as int + 1) == total_upto(srcs, i as int) + node.model().total());
            match &node.kind {
                SourceKind::Directory(sub) => {
                    assert(node.model().total() == 1 + total_upto(
                        sources(*sub),
                        sub.len() as int,
                    ));
                    let sub_entries = Self::build_directory(sub, inode_offset);
                    entries.push(
                        Entry {
                            name: Arc::new(node.name.clone()),
                            full_path: Data::FilePath(node.full_path.clone()),
                            inode: *inode_offset,
                            info: EntryInfo::Directory(sub_entries),
                        },
                    );
                },
                SourceKind::File(size) => {
                    entries.push(
                        Entry {
                            name: Arc::new(node.name.clone()),
                            full_path: Data::FilePath(node.full_path.clone()),
                            inode: *inode_offset,
                            info: EntryInfo::File(*size),
                        },
                    );
                },
            }
            *inode_offset += 1;
            assert(models(entries) =~= before.push(srcs[i as int].assign(start + total_upto(srcs, i as int))));
            i += 1;
        }
        entries
    }
}

} // verus!
