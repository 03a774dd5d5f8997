//! An in-memory tree of files and directories, the value on which the
//! adapters compute. The host fills it from disk before a call and writes
//! what changed back afterwards.

use vstd::prelude::*;

verus! {

/// What a path leads to.
#[derive(Debug)]
pub enum Node {
    File(Vec<u8>),
    Directory,
}

/// Mathematical value of a [`Node`].
pub enum NodeView {
    File(Seq<u8>),
    Directory,
}

impl View for Node {
    type V = NodeView;

    open spec fn view(&self) -> NodeView {
        match self {
            Node::File(data) => NodeView::File(data@),
            Node::Directory => NodeView::Directory,
        }
    }
}

/// A tree as a list of paths with what each leads to.
pub type Tree = Seq<(Seq<char>, NodeView)>;

/// No path occurs twice in `tree`.
pub open spec fn distinct_paths(tree: Tree) -> bool {
    forall|i: int, j: int|
        0 <= i < tree.len() && 0 <= j < tree.len() && i != j ==> (#[trigger] tree[i]).0 != (
        #[trigger] tree[j]).0
}

/// Whether `path` occurs in `tree`.
pub open spec fn has_path(tree: Tree, path: Seq<char>) -> bool {
    exists|i: int| 0 <= i < tree.len() && (#[trigger] tree[i]).0 == path
}

/// A position at which `path` occurs in `tree`, or -1.
pub open spec fn position_of(tree: Tree, path: Seq<char>) -> int {
    if has_path(tree, path) {
        choose|i: int| 0 <= i < tree.len() && (#[trigger] tree[i]).0 == path
    } else {
        -1
    }
}

/// What `path` leads to in `tree`, if anything.
pub open spec fn find(tree: Tree, path: Seq<char>) -> Option<NodeView> {
    if has_path(tree, path) {
        Some(tree[position_of(tree, path)].1)
    } else {
        None
    }
}

/// Whether `path` leads to a file in `tree`.
pub open spec fn is_file_in(tree: Tree, path: Seq<char>) -> bool {
    find(tree, path) is Some && find(tree, path).unwrap() is File
}

/// Whether `path` leads to a directory in `tree`.
pub open spec fn is_dir_in(tree: Tree, path: Seq<char>) -> bool {
    find(tree, path) == Some(NodeView::Directory)
}

/// `tree` with `path` leading to `node`: in place where the path occurs,
/// at the end where it does not.
pub open spec fn put(tree: Tree, path: Seq<char>, node: NodeView) -> Tree {
    if has_path(tree, path) {
        tree.update(position_of(tree, path), (path, node))
    } else {
        tree.push((path, node))
    }
}

/// After `put`, the path leads to the node that was put, and every other
/// path leads to what it led to before.
pub proof fn lemma_put_find(tree: Tree, path: Seq<char>, node: NodeView, other: Seq<char>)
    requires
        distinct_paths(tree),
    ensures
        distinct_paths(put(tree, path, node)),
        find(put(tree, path, node), path) == Some(node),
        other != path ==> find(put(tree, path, node), other) == find(tree, other),
        has_path(put(tree, path, node), other) == (other == path || has_path(tree, other)),
{
    let after = put(tree, path, node);
    if has_path(tree, path) {
        let k = position_of(tree, path);
        assert(after[k].0 == path);
        assert forall|i: int, j: int|
            0 <= i < after.len() && 0 <= j < after.len() && i != j implies (#[trigger] after[i]).0
            != (#[trigger] after[j]).0 by {
            assert(after[i].0 == tree[i].0);
            assert(after[j].0 == tree[j].0);
        }
        assert(has_path(after, path));
        assert(position_of(after, path) == k);
        if has_path(tree, other) {
            let m = position_of(tree, other);
            assert(after[m].0 == other);
            assert(has_path(after, other));
            let m2 = position_of(after, other);
            assert(tree[m2].0 == after[m2].0);
        } else if has_path(after, other) {
            let m2 = position_of(after, other);
            assert(tree[m2].0 == after[m2].0);
        }
    } else {
        let k = tree.len() as int;
        assert(after[k].0 == path);
        assert forall|i: int, j: int|
            0 <= i < after.len() && 0 <= j < after.len() && i != j implies (#[trigger] after[i]).0
            != (#[trigger] after[j]).0 by {
            if i < k {
                assert(after[i] == tree[i]);
            }
            if j < k {
                assert(after[j] == tree[j]);
            }
        }
        assert(has_path(after, path));
        assert(position_of(after, path) == k);
        if has_path(tree, other) {
            let m = position_of(tree, other);
            assert(after[m] == tree[m]);
            assert(has_path(after, other));
            let m2 = position_of(after, other);
            if m2 < k {
                assert(after[m2] == tree[m2]);
            }
        } else if has_path(after, other) {
            let m2 = position_of(after, other);
            if m2 < k {
                assert(after[m2] == tree[m2]);
            }
        }
    }
}

struct Slot {
    path: String,
    node: Node,
}

/// An in-memory tree of files and directories, keyed by path.
pub struct FileStore {
    slots: Vec<Slot>,
}

impl View for FileStore {
    type V = Tree;

    closed spec fn view(&self) -> Tree {
        Seq::new(self.slots@.len(), |i: int| (self.slots@[i].path@, self.slots@[i].node@))
    }
}

impl FileStore {
    /// No path is stored twice.
    pub open spec fn wf(&self) -> bool {
        distinct_paths(self@)
    }

    /// An empty store.
    pub fn new() -> (r: Self)
        ensures
            r.wf(),
            r@ == Seq::<(Seq<char>, NodeView)>::empty(),
    {
        let r = FileStore { slots: Vec::new() };
        assert(r@ =~= Seq::<(Seq<char>, NodeView)>::empty());
        r
    }

    /// The number of stored paths.
    pub fn len(&self) -> (r: usize)
        ensures
            r == self@.len(),
    {
        self.slots.len()
    }

    /// The i-th stored path.
    pub fn path_at(&self, i: usize) -> (r: &String)
        requires
            i < self@.len(),
        ensures
            r@ == self@[i as int].0,
    {
        &self.slots[i].path
    }

    /// What the i-th stored path leads to.
    pub fn node_at(&self, i: usize) -> (r: &Node)
        requires
            i < self@.len(),
        ensures
            r@ == self@[i as int].1,
    {
        &self.slots[i].node
    }

    fn position(&self, path: &str) -> (r: Option<usize>)
        requires
            self.wf(),
        ensures
            match r {
                Some(i) => has_path(self@, path@) && position_of(self@, path@) == i && i
                    < self@.len(),
                None => !has_path(self@, path@),
            },
    {
        let key = path.to_owned();
        let mut i: usize = 0;
        while i < self.slots.len()
            invariant
                self.wf(),
                i <= self.slots@.len(),
                key@ == path@,
                forall|j: int| 0 <= j < i ==> (#[trigger] self@[j]).0 != path@,
            decreases self.slots@.len() - i,
        {
            if self.slots[i].path == key {
                assert(self@[i as int].0 == path@);
                return Some(i);
            }
            i += 1;
        }
        None
    }

    /// What `path` leads to, or nothing.
    pub fn get(&self, path: &str) -> (r: Option<&Node>)
        requires
            self.wf(),
        ensures
            match r {
                Some(node) => find(self@, path@) == Some(node@),
                None => find(self@, path@) is None,
            },
    {
        match self.position(path) {
            Some(i) => Some(&self.slots[i].node),
            None => None,
        }
    }

    /// Whether `path` leads to anything.
    pub fn contains_path(&self, path: &str) -> (r: bool)
        requires
            self.wf(),
        ensures
            r == has_path(self@, path@),
    {
        self.position(path).is_some()
    }

    /// Whether `path` leads to a file.
    pub fn is_file(&self, path: &str) -> (r: bool)
        requires
            self.wf(),
        ensures
            r == is_file_in(self@, path@),
    {
        match self.get(path) {
            Some(Node::File(_)) => true,
            _ => false,
        }
    }

    /// Whether `path` leads to a directory.
    pub fn is_dir(&self, path: &str) -> (r: bool)
        requires
            self.wf(),
        ensures
            r == is_dir_in(self@, path@),
    {
        match self.get(path) {
            Some(Node::Directory) => true,
            _ => false,
        }
    }

    /// Makes `path` lead to `node`, replacing what it led to.
    pub fn insert(&mut self, path: String, node: Node)
        requires
            old(self).wf(),
        ensures
            final(self).wf(),
            final(self)@ == put(old(self)@, path@, node@),
    {
        proof {
            lemma_put_find(self@, path@, node@, path@);
        }
        match self.position(path.as_str()) {
            Some(i) => {
                self.slots[i] = Slot { path, node };
                assert(self@ =~= put(old(self)@, path@, node@));
            },
            None => {
                self.slots.push(Slot { path, node });
                assert(self@ =~= put(old(self)@, path@, node@));
            },
        }
    }

    /// Makes `path` lead to a file that holds `data`.
    pub fn write(&mut self, path: String, data: Vec<u8>)
        requires
            old(self).wf(),
        ensures
            final(self).wf(),
            final(self)@ == put(old(self)@, path@, NodeView::File(data@)),
    {
        self.insert(path, Node::File(data))
    }
}

} // verus!
