//! The mathematical model of the mirrored tree: nodes with sequences of
//! children, and the functions that search, count and rewrite them.
use vstd::prelude::*;
use crate::text::lowercase;

verus! {

/// What a node's data is read from.
pub enum ContentModel {
    FilePath(Seq<char>),
    Memory(Seq<u8>),
}

/// A file with its recorded size, or a directory with its children in order.
pub enum InfoModel {
    Directory(Seq<Node>),
    File(u64),
}

/// One node of the tree.
pub struct Node {
    pub name: Seq<char>,
    pub content: ContentModel,
    pub inode: u64,
    pub info: InfoModel,
}

impl Node {
    pub open spec fn is_dir(self) -> bool {
        self.info is Directory
    }

    /// The children of a directory in stored order; none for a file.
    pub open spec fn children(self) -> Seq<Node> {
        match self.info {
            InfoModel::Directory(cs) => cs,
            InfoModel::File(_) => Seq::empty(),
        }
    }

    /// The recorded size: a file's byte count, zero for a directory.
    pub open spec fn size(self) -> u64 {
        match self.info {
            InfoModel::Directory(_) => 0,
            InfoModel::File(s) => s,
        }
    }

    /// How many nodes of this subtree carry the inode `ino`.
    pub open spec fn count(self, ino: u64) -> nat
        decreases self, 0nat,
    {
        let here: nat = if self.inode == ino { 1 } else { 0 };
        match self.info {
            InfoModel::Directory(cs) => here + count_upto(cs, cs.len() as int, ino),
            InfoModel::File(_) => here,
        }
    }

    /// The first node in depth-first order that carries the inode `ino`.
    pub open spec fn lookup(self, ino: u64) -> Option<Node>
        decreases self, 0nat,
    {
        if self.inode == ino {
            Some(self)
        } else {
            match self.info {
                InfoModel::Directory(cs) => lookup_from(cs, 0, ino),
                InfoModel::File(_) => None,
            }
        }
    }

    /// This subtree with the node that `lookup` finds for `ino` replaced by `new`.
    pub open spec fn replace(self, ino: u64, new: Node) -> Node
        decreases self, 0nat,
    {
        if self.inode == ino {
            new
        } else {
            match self.info {
                InfoModel::Directory(cs) => Node {
                    info: InfoModel::Directory(replace_from(cs, 0, ino, new)),
                    ..self
                },
                InfoModel::File(_) => self,
            }
        }
    }

    /// This directory with `child` appended as its last child.
    pub open spec fn with_child(self, child: Node) -> Node {
        Node { info: InfoModel::Directory(self.children().push(child)), ..self }
    }

    /// The first child whose lowercase name equals the lowercase of `name`.
    pub open spec fn child_named(self, name: Seq<char>) -> Option<Node> {
        child_from(self.children(), 0, lowercase(name))
    }
}

/// The first node of `cs` from index `i` on whose lowercase name is `key`.
pub open spec fn child_from(cs: Seq<Node>, i: int, key: Seq<char>) -> Option<Node>
    decreases cs.len() - i,
{
    if i < 0 || i >= cs.len() {
        None
    } else if lowercase(cs[i].name) == key {
        Some(cs[i])
    } else {
        child_from(cs, i + 1, key)
    }
}

/// An empty in-memory file named `name` with inode `ino`.
pub open spec fn empty_file(name: Seq<char>, ino: u64) -> Node {
    Node {
        name,
        content: ContentModel::Memory(Seq::empty()),
        inode: ino,
        info: InfoModel::File(0),
    }
}

/// How many nodes in the subtrees of the first `n` of `cs` carry `ino`.
pub open spec fn count_upto(cs: Seq<Node>, n: int, ino: u64) -> nat
    decreases cs, n,
{
    if n <= 0 || n > cs.len() {
        0
    } else {
        count_upto(cs, n - 1, ino) + cs[n - 1].count(ino)
    }
}

/// The first depth-first match for `ino` in the subtrees of `cs` from index `i` on.
pub open spec fn lookup_from(cs: Seq<Node>, i: int, ino: u64) -> Option<Node>
    decreases cs, cs.len() - i,
{
    if i < 0 || i >= cs.len() {
        None
    } else {
        match cs[i].lookup(ino) {
            Some(n) => Some(n),
            None => lookup_from(cs, i + 1, ino),
        }
    }
}

/// `cs` with the match that `lookup_from` finds for `ino` replaced by `new`.
pub open spec fn replace_from(cs: Seq<Node>, i: int, ino: u64, new: Node) -> Seq<Node>
    decreases cs, cs.len() - i,
{
    if i < 0 || i >= cs.len() {
        cs
    } else if cs[i].lookup(ino) is Some {
        cs.update(i, cs[i].replace(ino, new))
    } else {
        replace_from(cs, i + 1, ino, new)
    }
}

/// Subtrees that hold no match are passed over by the search and by the
/// replacement alike.
pub proof fn lemma_skip_misses(cs: Seq<Node>, i: int, ino: u64)
    requires
        0 <= i <= cs.len(),
        forall|j: int| 0 <= j < i ==> (#[trigger] cs[j]).lookup(ino) is None,
    ensures
        lookup_from(cs, 0, ino) == lookup_from(cs, i, ino),
        forall|new: Node| #[trigger] replace_from(cs, 0, ino, new) == replace_from(cs, i, ino, new),
    decreases i,
{
    if i > 0 {
        lemma_skip_misses(cs, i - 1, ino);
        assert(cs[i - 1].lookup(ino) is None);
        assert(lookup_from(cs, i - 1, ino) == lookup_from(cs, i, ino));
        assert forall|new: Node| #[trigger] replace_from(cs, 0, ino, new) == replace_from(cs, i, ino, new) by {
            assert(replace_from(cs, i - 1, ino, new) == replace_from(cs, i, ino, new));
        }
    }
}

/// The whole tree: its root and the next inode to hand out.
pub struct TreeModel {
    pub root: Node,
    pub next_inode: u64,
}

impl TreeModel {
    /// The root is a directory with inode 1, no inode occurs twice, and no
    /// inode at or above the counter is in use.
    pub open spec fn wf(self) -> bool {
        &&& self.root.inode == 1
        &&& self.root.is_dir()
        &&& forall|x: u64| #[trigger] self.root.count(x) <= 1
        &&& forall|x: u64| x >= self.next_inode ==> #[trigger] self.root.count(x) == 0
    }

    /// Whether a file can be created under the inode `parent`: it resolves
    /// to a directory.
    pub open spec fn can_create(self, parent: u64) -> bool {
        self.root.lookup(parent) is Some && self.root.lookup(parent).unwrap().is_dir()
    }

    /// The tree after an empty file `name` is created under `parent`; the
    /// tree itself where that cannot be done.
    pub open spec fn create(self, parent: u64, name: Seq<char>) -> TreeModel {
        if self.can_create(parent) {
            let dir = self.root.lookup(parent).unwrap();
            TreeModel {
                root: self.root.replace(
                    parent,
                    dir.with_child(empty_file(name, self.next_inode)),
                ),
                next_inode: (self.next_inode + 1) as u64,
            }
        } else {
            self
        }
    }
}

/// The count over a prefix depends on that prefix alone.
pub proof fn lemma_count_prefix(cs: Seq<Node>, ds: Seq<Node>, n: int, x: u64)
    requires
        0 <= n <= cs.len(),
        n <= ds.len(),
        forall|j: int| 0 <= j < n ==> cs[j] == ds[j],
    ensures
        count_upto(cs, n, x) == count_upto(ds, n, x),
    decreases n,
{
    if n > 0 {
        lemma_count_prefix(cs, ds, n - 1, x);
    }
}

/// Exchanging one node changes the count by the difference of the two.
pub proof fn lemma_count_update(cs: Seq<Node>, k: int, v: Node, n: int, x: u64)
    requires
        0 <= k < cs.len(),
        0 <= n <= cs.len(),
    ensures
        n <= k ==> count_upto(cs.update(k, v), n, x) == count_upto(cs, n, x),
        n > k ==> count_upto(cs.update(k, v), n, x) + cs[k].count(x) == count_upto(cs, n, x)
            + v.count(x),
    decreases n,
{
    if n > 0 {
        lemma_count_update(cs, k, v, n - 1, x);
    }
}

/// Replacing the node found for `ino` takes its count out and puts the
/// count of the new node in.
pub proof fn lemma_replace_count(t: Node, ino: u64, new: Node, x: u64)
    requires
        t.lookup(ino) is Some,
    ensures
        t.replace(ino, new).count(x) + t.lookup(ino).unwrap().count(x) == t.count(x) + new.count(x),
    decreases t, 0nat,
{
    if t.inode != ino {
        match t.info {
            InfoModel::Directory(cs) => {
                lemma_replace_count_from(cs, 0, ino, new, x);
            },
            InfoModel::File(_) => {},
        }
    }
}

pub proof fn lemma_replace_count_from(cs: Seq<Node>, i: int, ino: u64, new: Node, x: u64)
    requires
        0 <= i <= cs.len(),
        lookup_from(cs, i, ino) is Some,
    ensures
        replace_from(cs, i, ino, new).len() == cs.len(),
        count_upto(replace_from(cs, i, ino, new), cs.len() as int, x) + lookup_from(
            cs,
            i,
            ino,
        ).unwrap().count(x) == count_upto(cs, cs.len() as int, x) + new.count(x),
    decreases cs, cs.len() - i,
{
    if i < cs.len() {
        if cs[i].lookup(ino) is Some {
            lemma_replace_count(cs[i], ino, new, x);
            lemma_count_update(cs, i, cs[i].replace(ino, new), cs.len() as int, x);
        } else {
            lemma_replace_count_from(cs, i + 1, ino, new, x);
        }
    }
}

/// A new last child adds its own count to the directory's.
pub proof fn lemma_with_child_count(dir: Node, child: Node, x: u64)
    requires
        dir.is_dir(),
    ensures
        dir.with_child(child).count(x) == dir.count(x) + child.count(x),
{
    let cs = dir.children();
    lemma_count_prefix(cs.push(child), cs, cs.len() as int, x);
}

/// After the node found for `ino` is replaced by one with the same inode,
/// the search for `ino` finds the new node.
pub proof fn lemma_lookup_replaced(t: Node, ino: u64, new: Node)
    requires
        t.lookup(ino) is Some,
        new.inode == ino,
    ensures
        t.replace(ino, new).lookup(ino) == Some(new),
    decreases t, 0nat,
{
    if t.inode != ino {
        match t.info {
            InfoModel::Directory(cs) => {
                lemma_lookup_replaced_from(cs, 0, ino, new);
            },
            InfoModel::File(_) => {},
        }
    }
}

pub proof fn lemma_lookup_replaced_from(cs: Seq<Node>, i: int, ino: u64, new: Node)
    requires
        0 <= i <= cs.len(),
        lookup_from(cs, i, ino) is Some,
        new.inode == ino,
    ensures
        lookup_from(replace_from(cs, i, ino, new), i, ino) == Some(new),
    decreases cs, cs.len() - i,
{
    if i < cs.len() {
        if cs[i].lookup(ino) is Some {
            lemma_lookup_replaced(cs[i], ino, new);
        } else {
            lemma_lookup_replaced_from(cs, i + 1, ino, new);
            lemma_replace_keeps_misses(cs, i + 1, ino, new, i);
        }
    }
}

/// The replacement from index `i` on leaves every node before `i` as it was,
/// and the length too.
pub proof fn lemma_replace_keeps_misses(cs: Seq<Node>, i: int, ino: u64, new: Node, j: int)
    requires
        0 <= j < i <= cs.len(),
    ensures
        replace_from(cs, i, ino, new).len() == cs.len(),
        replace_from(cs, i, ino, new)[j] == cs[j],
    decreases cs.len() - i,
{
    if i < cs.len() && !(cs[i].lookup(ino) is Some) {
        lemma_replace_keeps_misses(cs, i + 1, ino, new, j);
    }
}

/// Replacing the node found for `ino` by itself changes nothing.
pub proof fn lemma_replace_same(t: Node, ino: u64)
    requires
        t.lookup(ino) is Some,
    ensures
        t.replace(ino, t.lookup(ino).unwrap()) == t,
    decreases t, 0nat,
{
    if t.inode != ino {
        match t.info {
            InfoModel::Directory(cs) => {
                lemma_replace_same_from(cs, 0, ino);
            },
            InfoModel::File(_) => {},
        }
    }
}

pub proof fn lemma_replace_same_from(cs: Seq<Node>, i: int, ino: u64)
    requires
        0 <= i <= cs.len(),
        lookup_from(cs, i, ino) is Some,
    ensures
        replace_from(cs, i, ino, lookup_from(cs, i, ino).unwrap()) == cs,
    decreases cs, cs.len() - i,
{
    if i < cs.len() {
        if cs[i].lookup(ino) is Some {
            lemma_replace_same(cs[i], ino);
            assert(cs.update(i, cs[i]) =~= cs);
        } else {
            lemma_replace_same_from(cs, i + 1, ino);
        }
    }
}

/// Creating a file keeps the tree well formed.
pub proof fn lemma_create_keeps_wf(t: TreeModel, parent: u64, name: Seq<char>)
    requires
        t.wf(),
        t.next_inode < u64::MAX,
    ensures
        t.create(parent, name).wf(),
{
    if t.can_create(parent) {
        let dir = t.root.lookup(parent).unwrap();
        let file = empty_file(name, t.next_inode);
        let after = t.create(parent, name);
        assert(t.root.count(1) >= 1);
        assert forall|x: u64| #[trigger] after.root.count(x) == t.root.count(x) + file.count(x) by {
            lemma_with_child_count(dir, file, x);
            lemma_replace_count(t.root, parent, dir.with_child(file), x);
        }
        assert forall|x: u64| #[trigger] after.root.count(x) <= 1 by {
            assert(after.root.count(x) == t.root.count(x) + file.count(x));
            assert(t.root.count(t.next_inode) == 0);
        }
        assert forall|x: u64| x >= after.next_inode implies #[trigger] after.root.count(x) == 0 by {
            assert(after.root.count(x) == t.root.count(x) + file.count(x));
            assert(t.root.count(x) == 0);
        }
    }
}

/// An inode is carried by no node exactly where the search for it finds
/// nothing.
pub proof fn lemma_absent_iff_uncounted(t: Node, ino: u64)
    ensures
        (t.count(ino) == 0) == (t.lookup(ino) is None),
    decreases t, 0nat,
{
    match t.info {
        InfoModel::Directory(cs) => {
            lemma_absent_iff_uncounted_from(cs, 0, ino);
            lemma_count_suffix(cs, 0, ino);
        },
        InfoModel::File(_) => {},
    }
}

pub proof fn lemma_absent_iff_uncounted_from(cs: Seq<Node>, i: int, ino: u64)
    requires
        0 <= i <= cs.len(),
    ensures
        (count_upto(cs, cs.len() as int, ino) == count_upto(cs, i, ino)) == (lookup_from(
            cs,
            i,
            ino,
        ) is None),
    decreases cs, cs.len() - i,
{
    if i < cs.len() {
        lemma_absent_iff_uncounted(cs[i], ino);
        lemma_absent_iff_uncounted_from(cs, i + 1, ino);
        lemma_count_suffix(cs, i + 1, ino);
    }
}

/// The count over a prefix never exceeds the count over the whole.
pub proof fn lemma_count_suffix(cs: Seq<Node>, i: int, ino: u64)
    requires
        0 <= i <= cs.len(),
    ensures
        count_upto(cs, i, ino) <= count_upto(cs, cs.len() as int, ino),
    decreases cs.len() - i,
{
    if i < cs.len() {
        lemma_count_suffix(cs, i + 1, ino);
    }
}

/// Creating a file under a directory leaves that directory with one more
/// child, the new file last, under an inode that nothing carried before;
/// under anything else it leaves the tree as it was.
pub proof fn lemma_create_adds_one_child(t: TreeModel, parent: u64, name: Seq<char>)
    requires
        t.wf(),
        t.next_inode < u64::MAX,
    ensures
        t.can_create(parent) ==> {
            let before = t.root.lookup(parent).unwrap();
            let after = t.create(parent, name).root.lookup(parent);
            &&& after == Some(before.with_child(empty_file(name, t.next_inode)))
            &&& after.unwrap().children().len() == before.children().len() + 1
            &&& t.root.count(t.next_inode) == 0
            &&& t.root.lookup(t.next_inode) is None
            &&& t.create(parent, name).root.count(t.next_inode) == 1
        },
        !t.can_create(parent) ==> t.create(parent, name) == t,
{
    if t.can_create(parent) {
        let dir = t.root.lookup(parent).unwrap();
        let file = empty_file(name, t.next_inode);
        lemma_lookup_keeps_inode(t.root, parent);
        lemma_lookup_replaced(t.root, parent, dir.with_child(file));
        lemma_with_child_count(dir, file, t.next_inode);
        lemma_replace_count(t.root, parent, dir.with_child(file), t.next_inode);
        assert(t.root.count(t.next_inode) == 0);
        lemma_absent_iff_uncounted(t.root, t.next_inode);
    }
}

/// What the search finds for `ino` carries `ino`.
pub proof fn lemma_lookup_keeps_inode(t: Node, ino: u64)
    requires
        t.lookup(ino) is Some,
    ensures
        t.lookup(ino).unwrap().inode == ino,
    decreases t, 0nat,
{
    if t.inode != ino {
        match t.info {
            InfoModel::Directory(cs) => {
                lemma_lookup_from_keeps_inode(cs, 0, ino);
            },
            InfoModel::File(_) => {},
        }
    }
}

pub proof fn lemma_lookup_from_keeps_inode(cs: Seq<Node>, i: int, ino: u64)
    requires
        0 <= i <= cs.len(),
        lookup_from(cs, i, ino) is Some,
    ensures
        lookup_from(cs, i, ino).unwrap().inode == ino,
    decreases cs, cs.len() - i,
{
    if i < cs.len() {
        if cs[i].lookup(ino) is Some {
            lemma_lookup_keeps_inode(cs[i], ino);
        } else {
            lemma_lookup_from_keeps_inode(cs, i + 1, ino);
        }
    }
}

/// In a well-formed tree the search for inode 1 finds the root, a directory.
pub proof fn lemma_root_is_inode_one(t: TreeModel)
    requires
        t.wf(),
    ensures
        t.root.lookup(1) == Some(t.root),
        t.root.is_dir(),
{
}

} // verus!
