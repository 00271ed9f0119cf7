//! The node tree of a mounted vault: a stable inode tree over a vault's manifest,
//! free of any driver types.

use vstd::prelude::*;

use crate::browse::EntryKind;

use crate::order::{lemma_text_order, sort_stable, text_at_most, text_le};
use crate::path::{
    breadcrumb_segments, crumbs, leaf_name, leaf_of, pair_texts, parent_dir, parent_of,
};
use crate::text::{concat2, owned, same_text, segments, texts};
use crate::text_set::text_in;

verus! {

/// The root directory always has inode 1.
pub const ROOT_INO: u64 = 1;

// ---------------------------------------------------------------------------
// Errors
// ---------------------------------------------------------------------------

/// An error mounting or unmounting a vault.
#[derive(Debug)]
pub struct MountError {
    message: String,
}

impl View for MountError {
    type V = Seq<char>;

    closed spec fn view(&self) -> Seq<char> {
        self.message@
    }
}

impl MountError {
    /// Wraps a human-readable message.
    pub fn new(msg: String) -> (e: Self)
        ensures
            e@ == msg@,
    {
        MountError { message: msg }
    }

    /// The message.
    pub fn message(&self) -> (m: &str)
        ensures
            m@ == self@,
    {
        &self.message
    }
}

/// What came of asking the platform to mount a vault.
pub enum MountReply {
    /// The build has no mount support.
    Unsupported,
    /// The platform's driver is not supported yet.
    Pending,
    /// The driver refused, and why.
    Failed(String),
    /// The vault is mounted.
    Mounted,
}

/// The result of mounting a vault read-only, as told to the user.
pub fn mount_readonly(reply: MountReply) -> (r: Result<(), MountError>)
    ensures
        match reply {
            MountReply::Unsupported => r is Err && r->Err_0@
                == "this build has no mount support (rebuild with --features mount)"@,
            MountReply::Pending => r is Err && r->Err_0@
                == "mounting a vault on Windows is not yet implemented (the Dokany backend is pending)"@,
            MountReply::Failed(e) => r is Err && r->Err_0@ == "could not mount the vault: "@ + e@,
            MountReply::Mounted => r is Ok,
        },
{
    match reply {
        MountReply::Unsupported => Err(
            MountError::new(
                owned("this build has no mount support (rebuild with --features mount)"),
            ),
        ),
        MountReply::Pending => Err(
            MountError::new(
                owned(
                    "mounting a vault on Windows is not yet implemented (the Dokany backend is pending)",
                ),
            ),
        ),
        MountReply::Failed(e) => Err(MountError::new(concat2("could not mount the vault: ", &e))),
        MountReply::Mounted => Ok(()),
    }
}

/// A neutral error of a filesystem operation.
#[derive(Clone, Copy, Debug, PartialEq, Eq, Structural)]
pub enum FsError {
    NotFound,
    IsDir,
    Io,
}

// ---------------------------------------------------------------------------
// The tree
// ---------------------------------------------------------------------------

/// One entry of a vault's manifest.
pub struct VaultEntry {
    pub path: String,
    pub kind: EntryKind,
    pub size: u64,
    pub mtime: Option<i64>,
    pub mode: Option<u32>,
}

/// One node in the mounted tree.
pub struct Node {
    pub path: String,
    pub name: String,
    pub kind: EntryKind,
    pub size: u64,
    pub mtime: Option<i64>,
    pub mode: Option<u32>,
    pub parent: u64,
}

/// A node as a mathematical value.
pub struct NodeView {
    pub path: Seq<char>,
    pub name: Seq<char>,
    pub kind: EntryKind,
    pub size: u64,
    pub mtime: Option<i64>,
    pub mode: Option<u32>,
    pub parent: int,
}

impl View for Node {
    type V = NodeView;

    open spec fn view(&self) -> NodeView {
        NodeView {
            path: self.path@,
            name: self.name@,
            kind: self.kind,
            size: self.size,
            mtime: self.mtime,
            mode: self.mode,
            parent: self.parent as int,
        }
    }
}

/// The values of a list of nodes.
pub open spec fn node_views(v: Seq<Node>) -> Seq<NodeView> {
    v.map_values(|n: Node| n@)
}

/// The folders on the way down a path, the path itself the last of them.
pub open spec fn trail(path: Seq<char>) -> Seq<Seq<char>> {
    crumbs(segments(path, '/')).skip(1).map_values(|c: (Seq<char>, Seq<char>)| c.1)
}

/// Whether an entry asks for `p` to be a directory: it lies on the way to the
/// entry, or is the entry and the entry is a folder.
pub open spec fn asks_for(e: VaultEntry, p: Seq<char>) -> bool {
    trail(e.path@).contains(p) && (p != e.path@ || e.kind == EntryKind::Dir)
}

/// Whether `p` is a directory of the tree.
pub open spec fn is_tree_dir(entries: Seq<VaultEntry>, p: Seq<char>) -> bool {
    exists|i: int| 0 <= i < entries.len() && asks_for(#[trigger] entries[i], p)
}

/// Whether `dirs` lists the directories of the tree, each once, in order.
pub open spec fn lists_dirs(entries: Seq<VaultEntry>, dirs: Seq<Seq<char>>) -> bool {
    &&& forall|i: int, j: int| 0 <= i < j < dirs.len() ==> !text_le(dirs[j], dirs[i])
    &&& forall|p: Seq<char>| dirs.contains(p) <==> #[trigger] is_tree_dir(entries, p)
}

/// The inode of the last node at `path`; the root's if there is none.
pub open spec fn ino_of(nodes: Seq<NodeView>, path: Seq<char>) -> int
    decreases nodes.len(),
{
    if nodes.len() == 0 {
        1
    } else if nodes.last().path == path {
        nodes.len() as int
    } else {
        ino_of(nodes.drop_last(), path)
    }
}

/// The root node.
pub open spec fn root_node(created_at: i64) -> NodeView {
    NodeView {
        path: Seq::empty(),
        name: Seq::empty(),
        kind: EntryKind::Dir,
        size: 0,
        mtime: Some(created_at),
        mode: None,
        parent: 1,
    }
}

/// The node of a directory, given the nodes before it.
pub open spec fn dir_node(nodes: Seq<NodeView>, path: Seq<char>) -> NodeView {
    NodeView {
        path,
        name: leaf_of(path),
        kind: EntryKind::Dir,
        size: 0,
        mtime: None,
        mode: None,
        parent: ino_of(nodes, parent_of(path)),
    }
}

/// The node of a file, given the nodes before it.
pub open spec fn file_node(nodes: Seq<NodeView>, e: VaultEntry) -> NodeView {
    NodeView {
        path: e.path@,
        name: leaf_of(e.path@),
        kind: EntryKind::File,
        size: e.size,
        mtime: e.mtime,
        mode: e.mode,
        parent: ino_of(nodes, parent_of(e.path@)),
    }
}

/// The root and the directories.
pub open spec fn dir_nodes(created_at: i64, dirs: Seq<Seq<char>>) -> Seq<NodeView>
    decreases dirs.len(),
{
    if dirs.len() == 0 {
        seq![root_node(created_at)]
    } else {
        let before = dir_nodes(created_at, dirs.drop_last());
        before.push(dir_node(before, dirs.last()))
    }
}

/// The directories, and after them the files in manifest order. The node at
/// position `i` has inode `i + 1`.
pub open spec fn tree(created_at: i64, dirs: Seq<Seq<char>>, entries: Seq<VaultEntry>) -> Seq<
    NodeView,
>
    decreases entries.len(),
{
    if entries.len() == 0 {
        dir_nodes(created_at, dirs)
    } else {
        let before = tree(created_at, dirs, entries.drop_last());
        if entries.last().kind == EntryKind::File {
            before.push(file_node(before, entries.last()))
        } else {
            before
        }
    }
}

/// Whether the node with inode `k` is a child of `parent`.
pub open spec fn is_child(nodes: Seq<NodeView>, parent: int, k: int) -> bool {
    2 <= k <= nodes.len() && nodes[k - 1].parent == parent
}

/// Whether no child of `parent` is named `name`.
pub open spec fn has_no_child(nodes: Seq<NodeView>, parent: int, name: Seq<char>) -> bool {
    forall|j: int|
        #![trigger is_child(nodes, parent, j)]
        is_child(nodes, parent, j) ==> nodes[j - 1].name != name
}

/// The children of a node as `(inode, kind, name)`, by inode.
pub open spec fn children(nodes: Seq<NodeView>, parent: int) -> Seq<(int, EntryKind, Seq<char>)>
    decreases nodes.len(),
{
    if nodes.len() <= 1 {
        Seq::empty()
    } else {
        let before = children(nodes.drop_last(), parent);
        if nodes.last().parent == parent {
            before.push((nodes.len() as int, nodes.last().kind, nodes.last().name))
        } else {
            before
        }
    }
}

/// The values of a directory listing.
pub open spec fn listing_views(v: Seq<(u64, EntryKind, String)>) -> Seq<
    (int, EntryKind, Seq<char>),
> {
    v.map_values(|e: (u64, EntryKind, String)| (e.0 as int, e.1, e.2@))
}

/// The whole tree.
pub struct VaultNodes {
    nodes: Vec<Node>,
}

impl View for VaultNodes {
    type V = Seq<NodeView>;

    closed spec fn view(&self) -> Seq<NodeView> {
        node_views(self.nodes@)
    }
}

/// The directories of the tree, each once, in no particular order.
fn collect_dirs(entries: &[VaultEntry]) -> (dirs: Vec<String>)
    ensures
        texts(dirs@).no_duplicates(),
        forall|p: Seq<char>| texts(dirs@).contains(p) <==> #[trigger] is_tree_dir(entries@, p),
{
    let mut dirs: Vec<String> = Vec::new();
    let mut i: usize = 0;
    while i < entries.len()
        invariant
            i <= entries@.len(),
            texts(dirs@).no_duplicates(),
            forall|p: Seq<char>| #[trigger]
                texts(dirs@).contains(p) <==> exists|k: int|
                    0 <= k < i && asks_for(#[trigger] entries@[k], p),
        decreases entries@.len() - i,
    {
        let ghost before = texts(dirs@);
        collect_from(&entries[i], &mut dirs);
        proof {
            assert forall|p: Seq<char>| #[trigger]
                texts(dirs@).contains(p) <==> exists|k: int|
                    0 <= k < i + 1 && asks_for(#[trigger] entries@[k], p) by {
                if before.contains(p) {
                    let k = choose|k: int| 0 <= k < i && asks_for(#[trigger] entries@[k], p);
                    assert(asks_for(entries@[k], p));
                }
                if asks_for(entries@[i as int], p) {
                    assert(0 <= i < i + 1);
                }
            }
        }
        i += 1;
    }
    dirs
}

/// Adds the directories that one entry asks for.
fn collect_from(e: &VaultEntry, dirs: &mut Vec<String>)
    requires
        texts(old(dirs)@).no_duplicates(),
    ensures
        texts(final(dirs)@).no_duplicates(),
        forall|p: Seq<char>| #[trigger]
            texts(final(dirs)@).contains(p) <==> texts(old(dirs)@).contains(p) || asks_for(*e, p),
{
    let trail_v = breadcrumb_segments(&e.path);
    let ghost t = trail(e.path@);
    let ghost before = texts(dirs@);
    proof {
        crate::path::law_breadcrumbs_start_at_home(e.path@);
        assert(t.len() == trail_v@.len() - 1) by {
            assert(pair_texts(trail_v@).len() == trail_v@.len());
        }
        assert forall|j: int| 0 <= j < t.len() implies #[trigger] t[j] == trail_v@[j + 1].1@ by {
            assert(pair_texts(trail_v@)[j + 1] == (trail_v@[j + 1].0@, trail_v@[j + 1].1@));
        }
    }
    let mut k: usize = 1;
    while k < trail_v.len()
        invariant
            1 <= k <= trail_v@.len(),
            t == trail(e.path@),
            t.len() == trail_v@.len() - 1,
            forall|j: int| 0 <= j < t.len() ==> #[trigger] t[j] == trail_v@[j + 1].1@,
            texts(dirs@).no_duplicates(),
            forall|p: Seq<char>| #[trigger]
                texts(dirs@).contains(p) <==> before.contains(p) || (t.take(k - 1).contains(p) && (p
                    != e.path@ || e.kind == EntryKind::Dir)),
        decreases trail_v@.len() - k,
    {
        let acc = &trail_v[k].1;
        let ghost d0 = texts(dirs@);
        assert(t[k - 1] == acc@);
        assert(t.take(k as int) =~= t.take(k - 1).push(acc@));
        let wanted = e.kind == EntryKind::Dir || !same_text(acc, &e.path);
        if wanted && !text_in(dirs, acc) {
            dirs.push(acc.clone());
            proof {
                assert(texts(dirs@) =~= d0.push(acc@));
                assert(texts(dirs@).no_duplicates()) by {
                    assert forall|a: int, b: int|
                        0 <= a < d0.len() + 1 && 0 <= b < d0.len() + 1 && a != b implies d0.push(
                        acc@,
                    )[a] != d0.push(acc@)[b] by {
                        if a < d0.len() && b < d0.len() {
                            assert(d0[a] != d0[b]);
                        } else if a < d0.len() {
                            assert(d0.contains(d0[a]));
                        } else {
                            assert(d0.contains(d0[b]));
                        }
                    }
                }
            }
        }
        proof {
            assert forall|p: Seq<char>| #[trigger]
                texts(dirs@).contains(p) <==> before.contains(p) || (t.take(k as int).contains(p)
                    && (p != e.path@ || e.kind == EntryKind::Dir)) by {
                lemma_push_member(d0, acc@, p);
                lemma_push_member(t.take(k - 1), acc@, p);
            }
        }
        k += 1;
    }
    assert(t.take(k - 1) =~= t);
}

proof fn lemma_push_member(s: Seq<Seq<char>>, x: Seq<char>, p: Seq<char>)
    ensures
        s.push(x).contains(p) <==> s.contains(p) || p == x,
{
    if s.contains(p) {
        let k = choose|k: int| 0 <= k < s.len() && s[k] == p;
        assert(s.push(x)[k] == p);
    }
    if p == x {
        assert(s.push(x)[s.len() as int] == p);
    }
    if s.push(x).contains(p) && p != x {
        let k = choose|k: int| 0 <= k < s.push(x).len() && s.push(x)[k] == p;
        assert(s[k] == p);
    }
}

/// The directories of the tree, each once, in order: a directory comes before what
/// is in it.
fn sorted_dirs(entries: &[VaultEntry]) -> (dirs: Vec<String>)
    ensures
        lists_dirs(entries@, texts(dirs@)),
{
    let found = collect_dirs(entries);
    let ghost input = found@;
    let ghost le = |a: String, b: String| text_le(a@, b@);
    proof {
        assert forall|a: String, b: String| #[trigger] le(a, b) || le(b, a) by {
            lemma_text_order(a@, b@, a@);
        }
        assert forall|a: String, b: String, c: String| #[trigger] le(a, b) && #[trigger] le(
            b,
            c,
        ) implies le(a, c) by {
            lemma_text_order(a@, b@, c@);
        }
    }
    let at_most = |a: &String, b: &String| -> (r: bool)
        ensures
            r == text_le(a@, b@),
        { text_at_most(a, b) };
    let dirs = sort_stable(found, at_most, Ghost(le));
    proof {
        let p = choose|p: Seq<int>| #[trigger] crate::order::arranged(input, dirs@, le, p);
        let d = texts(dirs@);
        assert forall|i: int, j: int| 0 <= i < j < d.len() implies !text_le(d[j], d[i]) by {
            assert(le(dirs@[i], dirs@[j]));
            assert(dirs@[i] == input[p[i]] && dirs@[j] == input[p[j]]);
            assert(p[i] != p[j]);
            assert(texts(input)[p[i]] != texts(input)[p[j]]);
            lemma_text_order(d[i], d[j], d[i]);
        }
        assert forall|x: Seq<char>| d.contains(x) <==> #[trigger] is_tree_dir(entries@, x) by {
            if d.contains(x) {
                let i = choose|i: int| 0 <= i < d.len() && d[i] == x;
                crate::order::law_sorting_keeps_the_values(input, dirs@, le, dirs@[i]);
                assert(dirs@.contains(dirs@[i]));
                let k = choose|k: int| 0 <= k < input.len() && input[k] == dirs@[i];
                assert(texts(input)[k] == x);
            }
            if is_tree_dir(entries@, x) {
                assert(texts(input).contains(x));
                let k = choose|k: int| 0 <= k < texts(input).len() && texts(input)[k] == x;
                crate::order::law_sorting_keeps_the_values(input, dirs@, le, input[k]);
                assert(input.contains(input[k]));
                let i = choose|i: int| 0 <= i < dirs@.len() && dirs@[i] == input[k];
                assert(d[i] == x);
            }
        }
    }
    dirs
}

/// The inode of the last node at `path`; the root's if there is none.
fn find_ino(nodes: &[Node], path: &str) -> (r: u64)
    ensures
        r == ino_of(node_views(nodes@), path@),
{
    let ghost v = node_views(nodes@);
    let mut i: usize = nodes.len();
    assert(v.take(i as int) =~= v);
    while i > 0
        invariant
            i <= nodes@.len(),
            v == node_views(nodes@),
            ino_of(v, path@) == ino_of(v.take(i as int), path@),
        decreases i,
    {
        assert(v.take(i as int).last() == nodes@[i - 1]@);
        assert(v.take(i as int).drop_last() =~= v.take(i - 1));
        if same_text(&nodes[i - 1].path, path) {
            return i as u64;
        }
        i -= 1;
    }
    ROOT_INO
}

impl VaultNodes {
    /// Builds the inode tree from a manifest. Synthesizes any ancestor directory that
    /// is implied by a path but is not an explicit entry.
    pub fn build(created_at: i64, entries: &[VaultEntry]) -> (r: Self)
        ensures
            exists|dirs: Seq<Seq<char>>| #[trigger]
                lists_dirs(entries@, dirs) && r@ == tree(created_at, dirs, entries@),
    {
        let dirs = sorted_dirs(entries);
        let ghost d = texts(dirs@);
        let mut nodes: Vec<Node> = Vec::new();
        nodes.push(
            Node {
                path: String::new(),
                name: String::new(),
                kind: EntryKind::Dir,
                size: 0,
                mtime: Some(created_at),
                mode: None,
                parent: ROOT_INO,
            },
        );
        assert(d.take(0) =~= Seq::<Seq<char>>::empty());
        assert(node_views(nodes@) =~= dir_nodes(created_at, d.take(0)));
        let mut i: usize = 0;
        while i < dirs.len()
            invariant
                i <= dirs@.len(),
                d == texts(dirs@),
                node_views(nodes@) == dir_nodes(created_at, d.take(i as int)),
            decreases dirs@.len() - i,
        {
            let path = &dirs[i];
            let parent: u64 = find_ino(&nodes, parent_dir(path));
            let ghost before = node_views(nodes@);
            nodes.push(
                Node {
                    path: path.clone(),
                    name: owned(leaf_name(path)),
                    kind: EntryKind::Dir,
                    size: 0,
                    mtime: None,
                    mode: None,
                    parent,
                },
            );
            proof {
                assert(d.take(i + 1).drop_last() =~= d.take(i as int));
                assert(d.take(i + 1).last() == path@);
                assert(node_views(nodes@) =~= before.push(dir_node(before, path@)));
            }
            i += 1;
        }
        assert(d.take(i as int) =~= d);
        assert(entries@.take(0) =~= Seq::<VaultEntry>::empty());
        let mut k: usize = 0;
        while k < entries.len()
            invariant
                k <= entries@.len(),
                node_views(nodes@) == tree(created_at, d, entries@.take(k as int)),
            decreases entries@.len() - k,
        {
            let e = &entries[k];
            assert(entries@.take(k + 1).drop_last() =~= entries@.take(k as int));
            if e.kind == EntryKind::File {
                let parent: u64 = find_ino(&nodes, parent_dir(&e.path));
                let ghost before = node_views(nodes@);
                nodes.push(
                    Node {
                        path: e.path.clone(),
                        name: owned(leaf_name(&e.path)),
                        kind: EntryKind::File,
                        size: e.size,
                        mtime: e.mtime,
                        mode: e.mode,
                        parent,
                    },
                );
                assert(node_views(nodes@) =~= before.push(file_node(before, *e)));
            }
            k += 1;
        }
        assert(entries@.take(k as int) =~= entries@);
        assert(lists_dirs(entries@, d));
        VaultNodes { nodes }
    }

    /// The node with an inode.
    pub fn node(&self, ino: u64) -> (r: Option<&Node>)
        ensures
            match r {
                Some(n) => 1 <= ino <= self@.len() && n@ == self@[ino - 1],
                None => !(1 <= ino <= self@.len()),
            },
    {
        if ino >= 1 && ino <= self.nodes.len() as u64 {
            let i: usize = (ino - 1) as usize;
            assert(self@[i as int] == self.nodes@[i as int]@);
            Some(&self.nodes[i])
        } else {
            None
        }
    }

    /// Resolves `name` within `parent` to a child inode: the first child so named.
    pub fn lookup(&self, parent: u64, name: &str) -> (r: Option<u64>)
        ensures
            match r {
                Some(k) => is_child(self@, parent as int, k as int) && self@[k - 1].name == name@
                    && forall|j: int|
                    #![trigger is_child(self@, parent as int, j)]
                    j < k && is_child(self@, parent as int, j) ==> self@[j - 1].name != name@,
                None => has_no_child(self@, parent as int, name@),
            },
    {
        let mut i: usize = 1;
        while i < self.nodes.len()
            invariant
                1 <= i,
                self@ == node_views(self.nodes@),
                forall|j: int|
                    #![trigger is_child(self@, parent as int, j)]
                    j <= i && is_child(self@, parent as int, j) ==> self@[j - 1].name != name@,
            decreases self.nodes@.len() - i,
        {
            assert(self@[i as int] == self.nodes@[i as int]@);
            if self.nodes[i].parent == parent && same_text(&self.nodes[i].name, name) {
                let ino: u64 = i as u64 + 1;
                assert(is_child(self@, parent as int, ino as int));
                return Some(ino);
            }
            i += 1;
        }
        None
    }

    /// Children of a directory as `(inode, kind, name)`; `None` if there is no such
    /// node or it is not a directory. An empty directory yields an empty list.
    pub fn readdir(&self, ino: u64) -> (r: Option<Vec<(u64, EntryKind, String)>>)
        ensures
            match r {
                Some(v) => 1 <= ino <= self@.len() && self@[ino - 1].kind == EntryKind::Dir
                    && listing_views(v@) == children(self@, ino as int),
                None => !(1 <= ino <= self@.len() && self@[ino - 1].kind == EntryKind::Dir),
            },
    {
        match self.node(ino) {
            Some(n) => if n.kind != EntryKind::Dir {
                return None;
            },
            None => {
                return None;
            },
        }
        let ghost v = self@;
        let mut out: Vec<(u64, EntryKind, String)> = Vec::new();
        let mut i: usize = 1;
        assert(listing_views(out@) =~= children(v.take(1), ino as int));
        while i < self.nodes.len()
            invariant
                1 <= i <= self.nodes@.len(),
                v == node_views(self.nodes@),
                listing_views(out@) == children(v.take(i as int), ino as int),
            decreases self.nodes@.len() - i,
        {
            let n = &self.nodes[i];
            let ghost before = listing_views(out@);
            proof {
                assert(v.take(i + 1).drop_last() =~= v.take(i as int));
                assert(v.take(i + 1).last() == self.nodes@[i as int]@);
            }
            if n.parent == ino {
                out.push((i as u64 + 1, n.kind, n.name.clone()));
                assert(listing_views(out@) =~= before.push((i + 1, n.kind, n.name@)));
            }
            i += 1;
        }
        assert(v.take(i as int) =~= v);
        Some(out)
    }

    /// The vault path that a read of `ino` decrypts from.
    pub fn read_target(&self, ino: u64) -> (r: Result<&str, FsError>)
        ensures
            match r {
                Ok(p) => 1 <= ino <= self@.len() && self@[ino - 1].kind == EntryKind::File && p@
                    == self@[ino - 1].path,
                Err(e) => if 1 <= ino <= self@.len() {
                    self@[ino - 1].kind != EntryKind::File && e == FsError::IsDir
                } else {
                    e == FsError::NotFound
                },
            },
    {
        match self.node(ino) {
            Some(n) => if n.kind == EntryKind::File {
                Ok(&n.path)
            } else {
                Err(FsError::IsDir)
            },
            None => Err(FsError::NotFound),
        }
    }

    /// A directory listing to resume at position `offset`: `.` and `..` first, then
    /// the children. `None` if `ino` is not a directory.
    pub fn listing_from(&self, ino: u64, offset: u64) -> (r: Option<Vec<(u64, EntryKind, String)>>)
        ensures
            match r {
                Some(v) => 1 <= ino <= self@.len() && self@[ino - 1].kind == EntryKind::Dir
                    && listing_views(v@) == full_listing(self@, ino as int).skip(
                    if offset <= full_listing(self@, ino as int).len() {
                        offset as int
                    } else {
                        full_listing(self@, ino as int).len() as int
                    },
                ),
                None => !(1 <= ino <= self@.len() && self@[ino - 1].kind == EntryKind::Dir),
            },
    {
        let kids = match self.readdir(ino) {
            Some(k) => k,
            None => {
                return None;
            },
        };
        let parent: u64 = match self.node(ino) {
            Some(n) => n.parent,
            None => ROOT_INO,
        };
        let mut all: Vec<(u64, EntryKind, String)> = Vec::new();
        all.push((ino, EntryKind::Dir, owned(".")));
        all.push((parent, EntryKind::Dir, owned("..")));
        let ghost head = listing_views(all@);
        let mut kids = kids;
        let ghost kv = listing_views(kids@);
        all.append(&mut kids);
        let ghost full = full_listing(self@, ino as int);
        proof {
            assert(listing_views(all@) =~= head + kv);
            assert(head =~= seq![
                (ino as int, EntryKind::Dir, "."@),
                (parent as int, EntryKind::Dir, ".."@),
            ]);
        }
        assert(listing_views(all@) == full);
        if offset >= all.len() as u64 {
            let none: Vec<(u64, EntryKind, String)> = Vec::new();
            assert(listing_views(none@) =~= full.skip(full.len() as int));
            return Some(none);
        }
        let ghost whole = all@;
        let tail = all.split_off(offset as usize);
        assert(listing_views(tail@) =~= full.skip(offset as int));
        Some(tail)
    }
}

/// The result of a read: the bytes that were decrypted into `buf`, or an I/O error.
pub fn read_result(buf: Vec<u8>, decrypted: Option<usize>) -> (r: Result<Vec<u8>, FsError>)
    ensures
        match decrypted {
            Some(n) => r is Ok && r->Ok_0@ == (if n <= buf@.len() {
                buf@.take(n as int)
            } else {
                buf@
            }),
            None => r == Err::<Vec<u8>, FsError>(FsError::Io),
        },
{
    match decrypted {
        Some(n) => {
            let mut buf = buf;
            buf.truncate(n);
            Ok(buf)
        },
        None => Err(FsError::Io),
    }
}

/// The listing of a directory: itself, its parent, and its children.
pub open spec fn full_listing(nodes: Seq<NodeView>, ino: int) -> Seq<(int, EntryKind, Seq<char>)> {
    seq![
        (ino, EntryKind::Dir, "."@),
        (nodes[ino - 1].parent, EntryKind::Dir, ".."@),
    ] + children(nodes, ino)
}

// ---------------------------------------------------------------------------
// Attributes
// ---------------------------------------------------------------------------

/// The attributes of a node.
#[derive(Clone, Copy, Debug, PartialEq, Eq, Structural)]
pub struct Attr {
    pub ino: u64,
    pub size: u64,
    /// How many blocks of 512 bytes it takes.
    pub blocks: u64,
    /// Seconds since the epoch.
    pub time: u64,
    pub kind: EntryKind,
    pub perm: u16,
    pub nlink: u32,
}

/// A modification time as seconds since the epoch: times before it, or none, count
/// as the epoch.
pub fn sys_time(mtime: Option<i64>) -> (r: u64)
    ensures
        r == (match mtime {
            Some(s) => if s >= 0 {
                s as int
            } else {
                0
            },
            None => 0,
        }),
{
    match mtime {
        Some(s) => if s >= 0 {
            s as u64
        } else {
            0
        },
        None => 0,
    }
}

/// The permission bits of a node: the low twelve bits of its mode, or a default.
pub open spec fn permissions(n: NodeView) -> int {
    match n.mode {
        Some(m) => m as int % 4096,
        None => if n.kind == EntryKind::Dir {
            0x1ed
        } else {
            0x1a4
        },
    }
}

impl VaultNodes {
    /// The attributes of a node, if there is one.
    pub fn attr(&self, ino: u64) -> (r: Option<Attr>)
        ensures
            match r {
                Some(a) => {
                    let n = self@[ino - 1];
                    &&& 1 <= ino <= self@.len()
                    &&& a.ino == ino
                    &&& a.size == n.size
                    &&& a.blocks == (n.size + 511) / 512
                    &&& a.time == (match n.mtime {
                        Some(s) => if s >= 0 {
                            s as int
                        } else {
                            0
                        },
                        None => 0,
                    })
                    &&& a.kind == n.kind
                    &&& a.perm == permissions(n)
                    &&& a.nlink == (if n.kind == EntryKind::Dir {
                        2int
                    } else {
                        1
                    })
                },
                None => !(1 <= ino <= self@.len()),
            },
    {
        match self.node(ino) {
            Some(n) => {
                let dir = n.kind == EntryKind::Dir;
                let perm: u16 = match n.mode {
                    Some(m) => (m % 4096) as u16,
                    None => if dir {
                        0x1ed
                    } else {
                        0x1a4
                    },
                };
                let blocks: u64 = n.size / 512 + (if n.size % 512 == 0 {
                    0u64
                } else {
                    1u64
                });
                Some(
                    Attr {
                        ino,
                        size: n.size,
                        blocks,
                        time: sys_time(n.mtime),
                        kind: n.kind,
                        perm,
                        nlink: if dir {
                            2
                        } else {
                            1
                        },
                    },
                )
            },
            None => None,
        }
    }
}

// ---------------------------------------------------------------------------
// Laws
// ---------------------------------------------------------------------------

/// Whether a path is normalized: not empty, and with no empty segment.
pub open spec fn is_normal(path: Seq<char>) -> bool {
    path.len() > 0 && forall|i: int|
        0 <= i < segments(path, '/').len() ==> (#[trigger] segments(path, '/')[i]).len() > 0
}

proof fn lemma_ino_of(nodes: Seq<NodeView>, path: Seq<char>)
    ensures
        1 <= ino_of(nodes, path),
        nodes.len() > 0 ==> ino_of(nodes, path) <= nodes.len(),
        forall|i: int|
            0 <= i < nodes.len() && (#[trigger] nodes[i]).path == path ==> nodes[ino_of(nodes, path)
                - 1].path == path,
    decreases nodes.len(),
{
    if nodes.len() > 0 && nodes.last().path != path {
        lemma_ino_of(nodes.drop_last(), path);
        assert forall|i: int|
            0 <= i < nodes.len() && (#[trigger] nodes[i]).path == path implies nodes[ino_of(
            nodes,
            path,
        ) - 1].path == path by {
            assert(nodes.drop_last()[i].path == path);
        }
    }
}

/// Whether each node's parent was looked up among the nodes before it.
spec fn parents_looked_up(nodes: Seq<NodeView>) -> bool {
    forall|i: int|
        1 <= i < nodes.len() ==> (#[trigger] nodes[i]).parent == ino_of(
            nodes.take(i),
            parent_of(nodes[i].path),
        )
}

proof fn lemma_push_looked_up(nodes: Seq<NodeView>, n: NodeView)
    requires
        parents_looked_up(nodes),
        nodes.len() > 0,
        n.parent == ino_of(nodes, parent_of(n.path)),
    ensures
        parents_looked_up(nodes.push(n)),
{
    let after = nodes.push(n);
    assert forall|i: int| 1 <= i < after.len() implies (#[trigger] after[i]).parent == ino_of(
        after.take(i),
        parent_of(after[i].path),
    ) by {
        assert(after.take(i) =~= nodes.take(i));
        if i < nodes.len() {
            assert(after[i] == nodes[i]);
        } else {
            assert(nodes.take(i) =~= nodes);
        }
    }
}

proof fn lemma_dir_nodes(created_at: i64, dirs: Seq<Seq<char>>)
    ensures
        dir_nodes(created_at, dirs).len() == dirs.len() + 1,
        dir_nodes(created_at, dirs)[0] == root_node(created_at),
        forall|i: int|
            1 <= i <= dirs.len() ==> (#[trigger] dir_nodes(created_at, dirs)[i]).path == dirs[i - 1],
        parents_looked_up(dir_nodes(created_at, dirs)),
    decreases dirs.len(),
{
    if dirs.len() > 0 {
        let before = dir_nodes(created_at, dirs.drop_last());
        lemma_dir_nodes(created_at, dirs.drop_last());
        lemma_push_looked_up(before, dir_node(before, dirs.last()));
        assert forall|i: int| 1 <= i <= dirs.len() implies (#[trigger] dir_nodes(
            created_at,
            dirs,
        )[i]).path == dirs[i - 1] by {
            if i < dirs.len() {
                assert(before[i].path == dirs.drop_last()[i - 1]);
            }
        }
    }
}

proof fn lemma_tree(created_at: i64, dirs: Seq<Seq<char>>, entries: Seq<VaultEntry>)
    ensures
        tree(created_at, dirs, entries).len() >= dirs.len() + 1,
        tree(created_at, dirs, entries).take(dirs.len() + 1int) == dir_nodes(created_at, dirs),
        parents_looked_up(tree(created_at, dirs, entries)),
        forall|i: int|
            dirs.len() + 1 <= i < tree(created_at, dirs, entries).len() ==> exists|j: int|
                0 <= j < entries.len() && entries[j].kind == EntryKind::File && (
                #[trigger] entries[j]).path@ == (#[trigger] tree(created_at, dirs, entries)[i]).path,
    decreases entries.len(),
{
    let t = tree(created_at, dirs, entries);
    if entries.len() == 0 {
        lemma_dir_nodes(created_at, dirs);
        assert(t.take(dirs.len() + 1int) =~= t);
    } else {
        let rest = entries.drop_last();
        let before = tree(created_at, dirs, rest);
        lemma_tree(created_at, dirs, rest);
        if entries.last().kind == EntryKind::File {
            lemma_push_looked_up(before, file_node(before, entries.last()));
            assert(t.take(dirs.len() + 1int) =~= before.take(dirs.len() + 1int));
        }
        assert forall|i: int| dirs.len() + 1 <= i < t.len() implies exists|j: int|
            0 <= j < entries.len() && entries[j].kind == EntryKind::File && (
            #[trigger] entries[j]).path@ == (#[trigger] t[i]).path by {
            if i < before.len() {
                assert(t[i] == before[i]);
                let j = choose|j: int|
                    0 <= j < rest.len() && rest[j].kind == EntryKind::File && (
                    #[trigger] rest[j]).path@ == before[i].path;
                assert(entries[j] == rest[j]);
            } else {
                assert(entries[entries.len() - 1].path@ == t[i].path);
            }
        }
    }
}

proof fn lemma_crumbs_chain(segs: Seq<Seq<char>>)
    requires
        forall|i: int| 0 <= i < segs.len() ==> !(#[trigger] segs[i]).contains('/'),
    ensures
        crumbs(segs).len() >= 1,
        crumbs(segs)[0].1.len() == 0,
        forall|k: int|
            1 <= k < crumbs(segs).len() ==> parent_of((#[trigger] crumbs(segs)[k]).1) == crumbs(
                segs,
            )[k - 1].1 && crumbs(segs)[k].1.len() > crumbs(segs)[k - 1].1.len(),
    decreases segs.len(),
{
    if segs.len() > 0 {
        let t = segs.drop_last();
        assert forall|i: int| 0 <= i < t.len() implies !(#[trigger] t[i]).contains('/') by {
            assert(t[i] == segs[i]);
        }
        lemma_crumbs_chain(t);
        let before = crumbs(t);
        assert(!segs[segs.len() - 1].contains('/'));
        crate::path::law_child_is_in_its_folder(before.last().1, segs.last());
        assert forall|k: int| 1 <= k < crumbs(segs).len() implies parent_of(
            (#[trigger] crumbs(segs)[k]).1,
        ) == crumbs(segs)[k - 1].1 && crumbs(segs)[k].1.len() > crumbs(segs)[k - 1].1.len() by {
            if k < before.len() {
                assert(crumbs(segs)[k] == before[k]);
                assert(crumbs(segs)[k - 1] == before[k - 1]);
            }
        }
    } else {
        assert(crumbs(segs) =~= seq![("Home"@, Seq::<char>::empty())]);
    }
}

/// On the way down a path, each folder's parent is the one before it.
proof fn lemma_trail_chain(path: Seq<char>)
    ensures
        trail(path).len() > 0 ==> parent_of(trail(path)[0]).len() == 0,
        forall|k: int|
            1 <= k < trail(path).len() ==> parent_of(#[trigger] trail(path)[k]) == trail(path)[k
                - 1],
        forall|j: int, k: int|
            0 <= j < k < trail(path).len() ==> trail(path)[j].len() < trail(path)[k].len(),
{
    let segs = segments(path, '/');
    crate::text::lemma_segments_hold_no_separator(path, '/');
    lemma_crumbs_chain(segs);
    let c = crumbs(segs);
    let t = trail(path);
    assert forall|k: int| 0 <= k < t.len() implies #[trigger] t[k] == c[k + 1].1 by {}
    assert forall|k: int| 1 <= k < t.len() implies parent_of(#[trigger] t[k]) == t[k - 1] by {
        assert(t[k] == c[k + 1].1 && t[k - 1] == c[k].1);
    }
    if t.len() > 0 {
        assert(t[0] == c[1].1);
    }
    assert forall|j: int, k: int| 0 <= j < k < t.len() implies t[j].len() < t[k].len() by {
        lemma_lengths_grow(t, c, j, k);
    }
}

proof fn lemma_lengths_grow(
    t: Seq<Seq<char>>,
    c: Seq<(Seq<char>, Seq<char>)>,
    j: int,
    k: int,
)
    requires
        t.len() == c.len() - 1,
        forall|k: int| 0 <= k < t.len() ==> #[trigger] t[k] == c[k + 1].1,
        forall|k: int| 1 <= k < c.len() ==> (#[trigger] c[k]).1.len() > c[k - 1].1.len(),
        0 <= j < k < t.len(),
    ensures
        t[j].len() < t[k].len(),
    decreases k - j,
{
    assert(t[k] == c[k + 1].1 && t[k - 1] == c[k].1);
    assert(c[k + 1].1.len() > c[k].1.len());
    if j < k - 1 {
        lemma_lengths_grow(t, c, j, k - 1);
    }
}

proof fn lemma_trail_end(path: Seq<char>)
    requires
        is_normal(path),
    ensures
        trail(path).len() > 0,
        trail(path).last() == path,
{
    crate::path::law_breadcrumbs_end_at_the_folder(path);
    crate::path::law_breadcrumbs_start_at_home(path);
    let c = crumbs(segments(path, '/'));
    assert(c.len() > 1) by {
        if c.len() == 1 {
            assert(c.last().1.len() == 0);
        }
    }
    assert(trail(path).last() == c.last().1);
}

/// If `p` lies on the way to a normalized entry, so does its parent.
proof fn lemma_parent_is_dir(entries: Seq<VaultEntry>, e: int, p: Seq<char>)
    requires
        0 <= e < entries.len(),
        is_normal(entries[e].path@),
        trail(entries[e].path@).contains(p),
        parent_of(p).len() > 0,
    ensures
        is_tree_dir(entries, parent_of(p)),
{
    let path = entries[e].path@;
    let t = trail(path);
    lemma_trail_chain(path);
    lemma_trail_end(path);
    let k = choose|k: int| 0 <= k < t.len() && t[k] == p;
    assert(k >= 1);
    assert(parent_of(t[k]) == t[k - 1]);
    assert(t[k - 1].len() < t[t.len() - 1].len());
    assert(asks_for(entries[e], parent_of(p)));
}

proof fn lemma_parent_sorts_first(p: Seq<char>)
    requires
        parent_of(p).len() > 0,
    ensures
        text_le(parent_of(p), p),
        parent_of(p) != p,
{
    crate::text::lemma_last_pos(p, '/');
    lemma_prefix_sorts_first(p, crate::text::last_pos(p, '/'));
}

proof fn lemma_prefix_sorts_first(p: Seq<char>, k: int)
    requires
        0 <= k <= p.len(),
    ensures
        text_le(p.take(k), p),
    decreases k,
{
    if k > 0 {
        assert(p.take(k).drop_first() =~= p.drop_first().take(k - 1));
        lemma_prefix_sorts_first(p.drop_first(), k - 1);
    }
}

/// Inodes go down the tree: every node but the root has a parent with a smaller
/// inode, so following parents always ends at the root.
pub proof fn law_parents_have_smaller_inodes(
    created_at: i64,
    dirs: Seq<Seq<char>>,
    entries: Seq<VaultEntry>,
    ino: int,
)
    requires
        2 <= ino <= tree(created_at, dirs, entries).len(),
    ensures
        1 <= tree(created_at, dirs, entries)[ino - 1].parent < ino,
        tree(created_at, dirs, entries)[0] == root_node(created_at),
{
    let t = tree(created_at, dirs, entries);
    lemma_tree(created_at, dirs, entries);
    lemma_dir_nodes(created_at, dirs);
    assert(t[0] == t.take(dirs.len() + 1int)[0]);
    lemma_ino_of(t.take(ino - 1), parent_of(t[ino - 1].path));
}

/// The tree is well formed: with normalized entries, the parent of every node is a
/// node at the parent's path, whether or not the manifest lists that directory.
pub proof fn law_every_node_hangs_under_its_path(
    created_at: i64,
    dirs: Seq<Seq<char>>,
    entries: Seq<VaultEntry>,
    ino: int,
)
    requires
        lists_dirs(entries, dirs),
        forall|i: int| 0 <= i < entries.len() ==> is_normal((#[trigger] entries[i]).path@),
        2 <= ino <= tree(created_at, dirs, entries).len(),
    ensures
        ({
            let t = tree(created_at, dirs, entries);
            1 <= t[ino - 1].parent <= t.len() && t[t[ino - 1].parent - 1].path == parent_of(
                t[ino - 1].path,
            )
        }),
{
    let t = tree(created_at, dirs, entries);
    let p = t[ino - 1].path;
    let before = t.take(ino - 1);
    lemma_tree(created_at, dirs, entries);
    lemma_dir_nodes(created_at, dirs);
    let dn = dir_nodes(created_at, dirs);
    assert forall|i: int| 0 <= i <= dirs.len() implies t[i] == #[trigger] dn[i] by {
        assert(t[i] == t.take(dirs.len() + 1int)[i]);
    }
    // Some entry has `p` on its way.
    let e: int = if ino - 1 <= dirs.len() {
        assert(t[ino - 1] == dn[ino - 1]);
        assert(p == dirs[ino - 2]);
        assert(dirs.contains(p));
        assert(is_tree_dir(entries, p));
        choose|i: int| 0 <= i < entries.len() && asks_for(#[trigger] entries[i], p)
    } else {
        choose|j: int|
            0 <= j < entries.len() && entries[j].kind == EntryKind::File && (
            #[trigger] entries[j]).path@ == t[ino - 1].path
    };
    assert(trail(entries[e].path@).contains(p)) by {
        if ino - 1 > dirs.len() {
            lemma_trail_end(p);
            let tr = trail(p);
            assert(tr[tr.len() - 1] == p);
        }
    }
    // The parent's node stands before this one.
    let q = parent_of(p);
    let at: int = if q.len() == 0 {
        assert(q =~= Seq::<char>::empty());
        assert(t[0] == dn[0]);
        0
    } else {
        lemma_parent_is_dir(entries, e, p);
        assert(dirs.contains(q));
        let j = choose|j: int| 0 <= j < dirs.len() && dirs[j] == q;
        assert(t[j + 1] == dn[j + 1]);
        lemma_parent_sorts_first(p);
        if ino - 1 <= dirs.len() {
            assert(j < ino - 2) by {
                if j > ino - 2 {
                    assert(!text_le(dirs[j], dirs[ino - 2]));
                }
            }
        }
        j + 1
    };
    assert(before[at].path == q);
    lemma_ino_of(before, q);
    assert(before[t[ino - 1].parent - 1] == t[t[ino - 1].parent - 1]);
}

/// A directory listing holds exactly the node's children, and names them as the
/// nodes do; so a name found by lookup in a directory is in its listing.
pub proof fn law_listing_holds_the_children(nodes: Seq<NodeView>, parent: int, k: int)
    ensures
        is_child(nodes, parent, k) ==> children(nodes, parent).contains(
            (k, nodes[k - 1].kind, nodes[k - 1].name),
        ),
        forall|i: int|
            0 <= i < children(nodes, parent).len() ==> is_child(
                nodes,
                parent,
                (#[trigger] children(nodes, parent)[i]).0,
            ),
    decreases nodes.len(),
{
    if nodes.len() > 1 {
        let t = nodes.drop_last();
        let before = children(t, parent);
        law_listing_holds_the_children(t, parent, k);
        let c = children(nodes, parent);
        if is_child(nodes, parent, k) {
            if k < nodes.len() {
                assert(is_child(t, parent, k));
                let i = choose|i: int|
                    0 <= i < before.len() && before[i] == (k, t[k - 1].kind, t[k - 1].name);
                assert(c[i] == before[i]);
            } else {
                assert(c[before.len() as int] == (k, nodes[k - 1].kind, nodes[k - 1].name));
            }
        }
        assert forall|i: int| 0 <= i < c.len() implies is_child(
            nodes,
            parent,
            (#[trigger] c[i]).0,
        ) by {
            if i < before.len() {
                assert(c[i] == before[i]);
                assert(is_child(t, parent, before[i].0));
            }
        }
    }
}

/// Every file of the manifest has a node of its own, with the file's attributes.
pub proof fn law_every_file_is_in_the_tree(
    created_at: i64,
    dirs: Seq<Seq<char>>,
    entries: Seq<VaultEntry>,
    e: int,
)
    requires
        0 <= e < entries.len(),
        entries[e].kind == EntryKind::File,
    ensures
        exists|i: int| {
            let n = #[trigger] tree(created_at, dirs, entries)[i];
            &&& 1 <= i < tree(created_at, dirs, entries).len()
            &&& n.path == entries[e].path@
            &&& n.kind == EntryKind::File
            &&& n.size == entries[e].size
            &&& n.mtime == entries[e].mtime
            &&& n.mode == entries[e].mode
        },
    decreases entries.len(),
{
    let t = tree(created_at, dirs, entries);
    let rest = entries.drop_last();
    let before = tree(created_at, dirs, rest);
    lemma_tree(created_at, dirs, rest);
    if e < entries.len() - 1 {
        law_every_file_is_in_the_tree(created_at, dirs, rest, e);
        let i = choose|i: int| {
            let n = #[trigger] before[i];
            &&& 1 <= i < before.len()
            &&& n.path == rest[e].path@
            &&& n.kind == EntryKind::File
            &&& n.size == rest[e].size
            &&& n.mtime == rest[e].mtime
            &&& n.mode == rest[e].mode
        };
        assert(t[i] == before[i]);
    } else {
        let n = t[before.len() as int];
        assert(n == file_node(before, entries[e]));
    }
}

/// Every file of the vault is in the mounted tree under its own name, in the node of its
/// folder, with its own size, time and mode.
pub proof fn law_every_file_is_mounted(
    created_at: i64,
    entries: &[VaultEntry],
    e: int,
    nodes: VaultNodes,
)
    requires
        call_ensures(VaultNodes::build, (created_at, entries), nodes),
        forall|i: int| 0 <= i < entries@.len() ==> is_normal((#[trigger] entries@[i]).path@),
        0 <= e < entries@.len(),
        entries@[e].kind == EntryKind::File,
    ensures
        exists|k: int| #[trigger] is_mounted(nodes@, k, entries@[e]),
{
    let dirs = choose|dirs: Seq<Seq<char>>| #[trigger]
        lists_dirs(entries@, dirs) && nodes@ == tree(created_at, dirs, entries@);
    law_every_file_is_in_the_tree(created_at, dirs, entries@, e);
    let i = choose|i: int| {
        let n = #[trigger] tree(created_at, dirs, entries@)[i];
        &&& 1 <= i < tree(created_at, dirs, entries@).len()
        &&& n.path == entries@[e].path@
        &&& n.kind == EntryKind::File
        &&& n.size == entries@[e].size
        &&& n.mtime == entries@[e].mtime
        &&& n.mode == entries@[e].mode
    };
    law_every_node_hangs_under_its_path(created_at, dirs, entries@, i + 1);
    lemma_names(created_at, dirs, entries@, i);
    assert(is_mounted(nodes@, i + 1, entries@[e]));
}

/// Whether inode `k` is the file `e`, in the node of its folder.
pub open spec fn is_mounted(nodes: Seq<NodeView>, k: int, e: VaultEntry) -> bool {
    let n = nodes[k - 1];
    &&& 2 <= k <= nodes.len()
    &&& n.path == e.path@ && n.name == leaf_of(e.path@)
    &&& n.kind == EntryKind::File && n.size == e.size && n.mtime == e.mtime && n.mode == e.mode
    &&& 1 <= n.parent <= nodes.len()
    &&& nodes[n.parent - 1].path == parent_of(e.path@)
}

proof fn lemma_names(created_at: i64, dirs: Seq<Seq<char>>, entries: Seq<VaultEntry>, i: int)
    requires
        0 <= i < tree(created_at, dirs, entries).len(),
    ensures
        tree(created_at, dirs, entries)[i].name == leaf_of(tree(created_at, dirs, entries)[i].path),
        i > 0 ==> tree(created_at, dirs, entries)[i].kind == EntryKind::Dir ==> dirs.contains(
            tree(created_at, dirs, entries)[i].path,
        ),
        i > 0 ==> tree(created_at, dirs, entries)[i].kind == EntryKind::File ==> exists|j: int|
            0 <= j < entries.len() && (#[trigger] entries[j]).kind == EntryKind::File && is_copied(
                tree(created_at, dirs, entries)[i],
                entries[j],
            ),
    decreases entries.len(), dirs.len(),
{
    let t = tree(created_at, dirs, entries);
    if entries.len() > 0 {
        let rest = entries.drop_last();
        let before = tree(created_at, dirs, rest);
        if i < before.len() {
            lemma_names(created_at, dirs, rest, i);
            assert(t[i] == before[i]);
            if i > 0 && t[i].kind == EntryKind::File {
                let j = choose|j: int|
                    0 <= j < rest.len() && (#[trigger] rest[j]).kind == EntryKind::File
                        && is_copied(before[i], rest[j]);
                assert(entries[j] == rest[j]);
            }
        } else {
            assert(is_copied(t[i], entries[entries.len() - 1]));
        }
    } else if dirs.len() > 0 {
        let fewer = dirs.drop_last();
        let before = dir_nodes(created_at, fewer);
        lemma_dir_nodes(created_at, fewer);
        if i < before.len() {
            assert(tree(created_at, fewer, entries) == before);
            lemma_names(created_at, fewer, entries, i);
            assert(t[i] == before[i]);
            if i > 0 && t[i].kind == EntryKind::Dir {
                let k = fewer.index_of(t[i].path);
                assert(dirs[k] == fewer[k]);
            }
        } else {
            assert(dirs[dirs.len() - 1] == t[i].path);
        }
    } else {
        crate::text::lemma_last_pos(Seq::<char>::empty(), '/');
        assert(leaf_of(Seq::<char>::empty()) =~= Seq::<char>::empty());
    }
}

/// Whether a node has what an entry has.
pub open spec fn is_copied(n: NodeView, e: VaultEntry) -> bool {
    n.path == e.path@ && n.size == e.size && n.mtime == e.mtime && n.mode == e.mode
}

/// Nothing else is mounted: every node but the root is a folder on the way to an entry, or a
/// file of the vault.
pub proof fn law_nothing_else_is_mounted(
    created_at: i64,
    entries: &[VaultEntry],
    nodes: VaultNodes,
    k: int,
)
    requires
        call_ensures(VaultNodes::build, (created_at, entries), nodes),
        1 <= k <= nodes@.len(),
    ensures
        nodes@[k - 1].name == leaf_of(nodes@[k - 1].path),
        k == 1 ==> nodes@[0].path.len() == 0 && nodes@[0].kind == EntryKind::Dir,
        k > 1 && nodes@[k - 1].kind == EntryKind::File ==> exists|j: int|
            0 <= j < entries@.len() && (#[trigger] entries@[j]).kind == EntryKind::File
                && is_copied(nodes@[k - 1], entries@[j]),
        k > 1 && nodes@[k - 1].kind == EntryKind::Dir ==> exists|j: int|
            0 <= j < entries@.len() && trail((#[trigger] entries@[j]).path@).contains(
                nodes@[k - 1].path,
            ),
{
    let dirs = choose|dirs: Seq<Seq<char>>| #[trigger]
        lists_dirs(entries@, dirs) && nodes@ == tree(created_at, dirs, entries@);
    lemma_names(created_at, dirs, entries@, k - 1);
    lemma_tree(created_at, dirs, entries@);
    lemma_dir_nodes(created_at, dirs);
    assert(nodes@[0] == nodes@.take(dirs.len() + 1int)[0]);
    if k > 1 && nodes@[k - 1].kind == EntryKind::Dir {
        assert(is_tree_dir(entries@, nodes@[k - 1].path));
    }
}

/// A folder's listing and its lookups agree: every name listed is found, what is found is
/// listed with its inode, and no other name is found.
pub proof fn law_listed_names_are_found(
    nodes: VaultNodes,
    ino: u64,
    v: Vec<(u64, EntryKind, String)>,
    name: &str,
    r: Option<u64>,
)
    requires
        call_ensures(VaultNodes::readdir, (&nodes, ino), Some(v)),
        call_ensures(VaultNodes::lookup, (&nodes, ino, name), r),
    ensures
        r is Some <==> exists|i: int| 0 <= i < v@.len() && (#[trigger] v@[i]).2@ == name@,
        r is Some ==> exists|i: int|
            0 <= i < v@.len() && (#[trigger] v@[i]).2@ == name@ && v@[i].0 == r->0,
{
    let c = children(nodes@, ino as int);
    assert forall|i: int| 0 <= i < v@.len() implies is_child(
        nodes@,
        ino as int,
        (#[trigger] v@[i]).0 as int,
    ) && nodes@[v@[i].0 - 1].name == v@[i].2@ by {
        assert(listing_views(v@)[i] == (v@[i].0 as int, v@[i].1, v@[i].2@));
        lemma_children(nodes@, ino as int, i);
    }
    if r is Some {
        let k = r->0 as int;
        law_listing_holds_the_children(nodes@, ino as int, k);
        let i = choose|i: int|
            0 <= i < c.len() && c[i] == (k, nodes@[k - 1].kind, nodes@[k - 1].name);
        assert(listing_views(v@)[i] == (v@[i].0 as int, v@[i].1, v@[i].2@));
        assert(0 <= i < v@.len() && v@[i].2@ == name@);
    } else if exists|i: int| 0 <= i < v@.len() && (#[trigger] v@[i]).2@ == name@ {
        let i = choose|i: int| 0 <= i < v@.len() && (#[trigger] v@[i]).2@ == name@;
        let j = v@[i].0 as int;
        assert(is_child(nodes@, ino as int, j));
        assert(nodes@[j - 1].name == name@);
        assert(has_no_child(nodes@, ino as int, name@));
    }
}

proof fn lemma_children(nodes: Seq<NodeView>, parent: int, i: int)
    requires
        0 <= i < children(nodes, parent).len(),
    ensures
        ({
            let c = children(nodes, parent)[i];
            is_child(nodes, parent, c.0) && c.1 == nodes[c.0 - 1].kind && c.2 == nodes[c.0
                - 1].name
        }),
    decreases nodes.len(),
{
    let t = nodes.drop_last();
    if nodes.len() > 1 {
        let before = children(t, parent);
        if i < before.len() {
            lemma_children(t, parent, i);
            assert(children(nodes, parent)[i] == before[i]);
        }
    }
}

/// A file is listed in the folder that it hangs under, with its inode and its name.
pub proof fn law_a_child_is_listed_by_its_folder(
    nodes: VaultNodes,
    k: int,
    ino: u64,
    v: Vec<(u64, EntryKind, String)>,
)
    requires
        2 <= k <= nodes@.len(),
        nodes@[k - 1].parent == ino,
        call_ensures(VaultNodes::readdir, (&nodes, ino), Some(v)),
    ensures
        exists|i: int|
            0 <= i < v@.len() && (#[trigger] v@[i]).0 == k && v@[i].1 == nodes@[k - 1].kind
                && v@[i].2@ == nodes@[k - 1].name,
{
    law_listing_holds_the_children(nodes@, ino as int, k);
    let c = children(nodes@, ino as int);
    let i = choose|i: int|
        0 <= i < c.len() && c[i] == (k, nodes@[k - 1].kind, nodes@[k - 1].name);
    assert(listing_views(v@)[i] == (v@[i].0 as int, v@[i].1, v@[i].2@));
}

/// A listing that goes on at a position goes on where one from the start has it: after the
/// folder itself and its parent come its children.
pub proof fn law_a_listing_goes_on_where_it_stopped(
    nodes: VaultNodes,
    ino: u64,
    offset: u64,
    whole: Vec<(u64, EntryKind, String)>,
    rest: Vec<(u64, EntryKind, String)>,
    kids: Vec<(u64, EntryKind, String)>,
)
    requires
        call_ensures(VaultNodes::listing_from, (&nodes, ino, 0u64), Some(whole)),
        call_ensures(VaultNodes::listing_from, (&nodes, ino, offset), Some(rest)),
        call_ensures(VaultNodes::readdir, (&nodes, ino), Some(kids)),
    ensures
        whole@.len() == kids@.len() + 2,
        whole@[0].0 == ino && whole@[0].2@ == "."@,
        whole@[1].0 == nodes@[ino - 1].parent && whole@[1].2@ == ".."@,
        forall|i: int|
            0 <= i < kids@.len() ==> (#[trigger] kids@[i]).0 == whole@[i + 2].0 && kids@[i].1
                == whole@[i + 2].1 && kids@[i].2@ == whole@[i + 2].2@,
        rest@.len() == (if offset <= whole@.len() {
            whole@.len() - offset
        } else {
            0
        }),
        forall|i: int|
            0 <= i < rest@.len() ==> (#[trigger] rest@[i]).0 == whole@[i + offset].0 && rest@[i].1
                == whole@[i + offset].1 && rest@[i].2@ == whole@[i + offset].2@,
{
    let full = full_listing(nodes@, ino as int);
    let w = listing_views(whole@);
    let r = listing_views(rest@);
    let c = listing_views(kids@);
    assert(full.skip(0) =~= full);
    assert(w == full);
    assert(w[0] == full[0] && w[1] == full[1]);
    assert(w.len() == whole@.len() && r.len() == rest@.len() && c.len() == kids@.len());
    assert(w[0] == (whole@[0].0 as int, whole@[0].1, whole@[0].2@));
    assert(w[1] == (whole@[1].0 as int, whole@[1].1, whole@[1].2@));
    assert forall|i: int| 0 <= i < kids@.len() implies (#[trigger] kids@[i]).0 == whole@[i + 2].0
        && kids@[i].1 == whole@[i + 2].1 && kids@[i].2@ == whole@[i + 2].2@ by {
        assert(c[i] == w[i + 2]);
    }
    assert forall|i: int| 0 <= i < rest@.len() implies (#[trigger] rest@[i]).0 == whole@[i
        + offset].0 && rest@[i].1 == whole@[i + offset].1 && rest@[i].2@ == whole@[i
        + offset].2@ by {
        assert(r[i] == w[i + offset]);
    }
}

/// Only files are read, each from its own path; a read gives the bytes that were decrypted.
pub proof fn law_a_read_gives_the_files_bytes<'a>(
    nodes: &'a VaultNodes,
    ino: u64,
    target: Result<&'a str, FsError>,
    buf: Vec<u8>,
    n: usize,
    r: Result<Vec<u8>, FsError>,
    failed: Result<Vec<u8>, FsError>,
)
    requires
        call_ensures(VaultNodes::read_target, (nodes, ino), target),
        n <= buf@.len(),
        call_ensures(read_result, (buf, Some(n)), r),
        call_ensures(read_result, (buf, None::<usize>), failed),
    ensures
        target is Ok <==> 1 <= ino <= nodes@.len() && nodes@[ino - 1].kind == EntryKind::File,
        target is Ok ==> target->Ok_0@ == nodes@[ino - 1].path,
        ino > nodes@.len() ==> target == Err::<&str, FsError>(FsError::NotFound),
        r is Ok && r->Ok_0@.len() == n && forall|i: int|
            0 <= i < n ==> (#[trigger] r->Ok_0@[i]) == buf@[i],
        failed is Err && failed->Err_0 == FsError::Io,
{
}

/// A node's attributes: just enough blocks of 512 bytes for its size, no time before the
/// epoch, and the permission bits of its mode, which are readable ones where it has none.
pub proof fn law_attributes_are_those_of_the_node(nodes: VaultNodes, ino: u64, a: Attr)
    requires
        call_ensures(VaultNodes::attr, (&nodes, ino), Some(a)),
    ensures
        a.ino == ino && a.size == nodes@[ino - 1].size && a.kind == nodes@[ino - 1].kind,
        a.blocks * 512 >= a.size && a.blocks * 512 < a.size + 512,
        nodes@[ino - 1].mtime is Some && nodes@[ino - 1].mtime->0 >= 0 ==> a.time
            == nodes@[ino - 1].mtime->0,
        nodes@[ino - 1].mtime is None || nodes@[ino - 1].mtime->0 < 0 ==> a.time == 0,
        nodes@[ino - 1].mode is Some ==> a.perm < 4096 && (nodes@[ino - 1].mode->0 - a.perm) % 4096
            == 0,
        nodes@[ino - 1].mode is None ==> a.perm == (if a.kind == EntryKind::Dir {
            493int
        } else {
            420
        }),
        a.nlink == (if a.kind == EntryKind::Dir {
            2int
        } else {
            1
        }),
{
}

/// Mounting succeeds only where the platform mounted, and otherwise says why it did not.
pub proof fn law_a_refused_mount_says_why(reply: MountReply, r: Result<(), MountError>)
    requires
        call_ensures(mount_readonly, (reply,), r),
    ensures
        r is Ok <==> reply is Mounted,
        reply is Failed ==> r->Err_0@.skip(27) == reply->Failed_0@,
{
    reveal_strlit("could not mount the vault: ");
    if let MountReply::Failed(e) = reply {
        assert(r->Err_0@.skip(27) =~= e@);
    }
}

} // verus!
