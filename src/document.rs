//! A page's document tree and the registry of node identifiers.
//!
//! The tree is held in pre-order: each entry records its depth, the root (the
//! document node) comes first at depth zero, and the subtree of a node is the run
//! of entries after it that are deeper than it. Identifiers are handed out from a
//! counter that never goes back, so an identifier that was removed never resolves
//! again.
use vstd::prelude::*;
use crate::types::{copy_attributes, Attribute, DevtoolsError, NodeKind};

verus! {

/// What the page knows of a node, besides its place in the tree.
/// `width` and `height` are the node's bounding box in app units (1/60 px).
#[derive(Debug)]
pub struct NodeData {
    pub kind: NodeKind,
    pub name: String,
    pub value: String,
    pub attributes: Vec<Attribute>,
    pub width: u32,
    pub height: u32,
}

/// One node of the tree, in pre-order position.
#[derive(Debug)]
pub struct NodeEntry {
    pub unique_id: u64,
    pub depth: usize,
    pub data: NodeData,
}

/// A snapshot of a node, decoupled from the live tree.
#[derive(Debug)]
pub struct NodeInfo {
    pub unique_id: u64,
    pub kind: NodeKind,
    pub name: String,
    pub value: String,
    pub attributes: Vec<Attribute>,
}

/// The mathematical content of a `NodeInfo`.
pub struct NodeInfoView {
    pub unique_id: u64,
    pub kind: NodeKind,
    pub name: Seq<char>,
    pub value: Seq<char>,
    pub attributes: Seq<Attribute>,
}

impl View for NodeInfo {
    type V = NodeInfoView;

    open spec fn view(&self) -> NodeInfoView {
        NodeInfoView {
            unique_id: self.unique_id,
            kind: self.kind,
            name: self.name@,
            value: self.value@,
            attributes: self.attributes@,
        }
    }
}

/// The snapshot that summarizing an entry yields.
pub open spec fn info_of(e: NodeEntry) -> NodeInfoView {
    NodeInfoView {
        unique_id: e.unique_id,
        kind: e.data.kind,
        name: e.data.name@,
        value: e.data.value@,
        attributes: e.data.attributes@,
    }
}

/// Why a change to the tree was refused.
#[derive(Debug)]
pub enum MutationError {
    /// No node of the tree has the given identifier.
    NoSuchNode,
    /// A document node cannot be inserted, and only documents and elements hold children.
    InvalidChild,
    /// The document node cannot be removed.
    RootNotRemovable,
    /// Every identifier has been handed out.
    IdsExhausted,
}

pub open spec fn ids_unique(s: Seq<NodeEntry>) -> bool {
    forall|i: int, j: int|
        0 <= i < s.len() && 0 <= j < s.len() && i != j ==> #[trigger] s[i].unique_id
            != #[trigger] s[j].unique_id
}

/// The entries form a pre-order listing of one tree whose root is the document.
pub open spec fn preorder_shape(s: Seq<NodeEntry>) -> bool {
    &&& s.len() >= 1
    &&& s[0].depth == 0
    &&& s[0].data.kind == NodeKind::Document
    &&& forall|i: int| 1 <= i < s.len() ==> #[trigger] s[i].depth >= 1
    &&& forall|i: int| 1 <= i < s.len() ==> #[trigger] s[i].data.kind != NodeKind::Document
    &&& forall|i: int| 1 <= i < s.len() ==> #[trigger] s[i].depth <= s[i - 1].depth + 1
}

pub open spec fn contains_id(s: Seq<NodeEntry>, id: u64) -> bool {
    exists|i: int| 0 <= i < s.len() && #[trigger] s[i].unique_id == id
}

/// The position of the node with identifier `id` (meaningful when it is present).
pub open spec fn index_of(s: Seq<NodeEntry>, id: u64) -> int {
    choose|i: int| 0 <= i < s.len() && #[trigger] s[i].unique_id == id
}

/// The first position at or after `k` whose depth is at most `d`, or the length.
pub open spec fn scan_end(s: Seq<NodeEntry>, d: nat, k: int) -> int
    decreases s.len() - k,
{
    if k >= s.len() {
        s.len() as int
    } else if s[k].depth <= d {
        k
    } else {
        scan_end(s, d, k + 1)
    }
}

/// One past the last position of the subtree rooted at `p`.
pub open spec fn subtree_end(s: Seq<NodeEntry>, p: int) -> int {
    scan_end(s, s[p].depth as nat, p + 1)
}

/// The positions in `(p, k)` that are one level deeper than `p`, in order.
pub open spec fn child_positions(s: Seq<NodeEntry>, p: int, k: int) -> Seq<int>
    decreases k - p,
{
    if k <= p + 1 {
        Seq::empty()
    } else {
        let prev = child_positions(s, p, k - 1);
        if s[k - 1].depth == s[p].depth + 1 {
            prev.push(k - 1)
        } else {
            prev
        }
    }
}

/// The positions of the direct children of the node at `p`, in document order.
pub open spec fn children_positions(s: Seq<NodeEntry>, p: int) -> Seq<int> {
    child_positions(s, p, subtree_end(s, p))
}

pub open spec fn children_view(s: Seq<NodeEntry>, p: int) -> Seq<NodeInfoView> {
    children_positions(s, p).map_values(|j: int| info_of(s[j]))
}

/// The layout of the node at position `i`.
pub open spec fn layout_at_reply(s: Seq<NodeEntry>, i: int) -> Result<(u32, u32), DevtoolsError> {
    if s[i].data.kind != NodeKind::Element {
        Err(DevtoolsError::NotAnElement)
    } else {
        Ok((s[i].data.width, s[i].data.height))
    }
}

/// Whether `j` is the position of the document element: the first element among
/// the children of the document node.
pub open spec fn is_document_element(s: Seq<NodeEntry>, j: int) -> bool {
    &&& 0 <= j < s.len()
    &&& s[j].depth == 1
    &&& s[j].data.kind == NodeKind::Element
    &&& forall|k: int|
        0 <= k < j ==> !(#[trigger] s[k].depth == 1 && s[k].data.kind == NodeKind::Element)
}

pub open spec fn has_document_element(s: Seq<NodeEntry>) -> bool {
    exists|j: int| is_document_element(s, j)
}

/// What asking for the document element yields.
pub open spec fn document_element_reply(s: Seq<NodeEntry>) -> Result<NodeInfoView, DevtoolsError> {
    if has_document_element(s) {
        Ok(info_of(s[choose|j: int| is_document_element(s, j)]))
    } else {
        Err(DevtoolsError::NotFound)
    }
}

/// At most one position is that of the document element.
proof fn lemma_document_element_unique(s: Seq<NodeEntry>, j: int)
    requires
        is_document_element(s, j),
    ensures
        has_document_element(s),
        (choose|k: int| is_document_element(s, k)) == j,
{
    let k = choose|k: int| is_document_element(s, k);
    if k < j {
        assert(s[k].depth == 1);
    } else if k > j {
        assert(s[j].depth == 1);
    }
}

proof fn lemma_scan_end(s: Seq<NodeEntry>, d: nat, k: int)
    requires
        0 <= k <= s.len(),
    ensures
        k <= scan_end(s, d, k) <= s.len(),
        forall|j: int| k <= j < scan_end(s, d, k) ==> #[trigger] s[j].depth > d,
        scan_end(s, d, k) < s.len() ==> s[scan_end(s, d, k)].depth <= d,
    decreases s.len() - k,
{
    if k < s.len() && s[k].depth > d {
        lemma_scan_end(s, d, k + 1);
    }
}

/// In a well-shaped listing no node is deeper than its position.
proof fn lemma_depth_bounded(s: Seq<NodeEntry>, i: int)
    requires
        preorder_shape(s),
        0 <= i < s.len(),
    ensures
        s[i].depth <= i,
    decreases i,
{
    if i > 0 {
        lemma_depth_bounded(s, i - 1);
    }
}

/// With unique identifiers, the position of a present identifier is the one found.
proof fn lemma_index_of(s: Seq<NodeEntry>, id: u64, i: int)
    requires
        ids_unique(s),
        0 <= i < s.len(),
        s[i].unique_id == id,
    ensures
        contains_id(s, id),
        index_of(s, id) == i,
{
    assert(contains_id(s, id));
    let k = index_of(s, id);
    assert(s[k].unique_id == id);
}

proof fn lemma_child_positions(s: Seq<NodeEntry>, p: int, k: int)
    requires
        0 <= p < k <= s.len(),
    ensures
        forall|a: int, b: int|
            0 <= a < b < child_positions(s, p, k).len() ==> child_positions(s, p, k)[a]
                < child_positions(s, p, k)[b],
        forall|a: int|
            0 <= a < child_positions(s, p, k).len() ==> p < #[trigger] child_positions(s, p, k)[a]
                < k && s[child_positions(s, p, k)[a]].depth == s[p].depth + 1,
        forall|j: int|
            p < j < k && #[trigger] s[j].depth == s[p].depth + 1 ==> child_positions(
                s,
                p,
                k,
            ).contains(j),
    decreases k - p,
{
    if k > p + 1 {
        lemma_child_positions(s, p, k - 1);
        let prev = child_positions(s, p, k - 1);
        if s[k - 1].depth == s[p].depth + 1 {
            assert forall|j: int| p < j < k && #[trigger] s[j].depth == s[p].depth + 1 implies child_positions(s, p, k).contains(j) by {
                if j < k - 1 {
                    let a = choose|a: int| 0 <= a < prev.len() && prev[a] == j;
                    assert(child_positions(s, p, k)[a] == j);
                } else {
                    assert(child_positions(s, p, k)[prev.len() as int] == j);
                }
            }
        }
    }
}

/// Inserting a fresh node one level below `p`, at the end of its subtree, keeps
/// the listing well shaped and its identifiers unique.
proof fn lemma_insert_keeps_shape(s: Seq<NodeEntry>, p: int, e: int, x: NodeEntry, next: u64)
    requires
        preorder_shape(s),
        ids_unique(s),
        forall|i: int| 0 <= i < s.len() ==> #[trigger] s[i].unique_id < next,
        0 <= p < s.len(),
        e == subtree_end(s, p),
        x.depth == s[p].depth + 1,
        x.data.kind != NodeKind::Document,
        x.unique_id == next,
        next < u64::MAX,
    ensures
        preorder_shape(s.insert(e, x)),
        ids_unique(s.insert(e, x)),
        forall|i: int| 0 <= i < s.insert(e, x).len() ==> #[trigger] s.insert(e, x)[i].unique_id < next + 1,
{
    let t = s.insert(e, x);
    let d = s[p].depth;
    lemma_scan_end(s, d as nat, p + 1);
    assert forall|i: int| 0 <= i < t.len() implies #[trigger] t[i] == (if i < e { s[i] } else if i == e { x } else { s[i - 1] }) by {}
    assert forall|i: int| 1 <= i < t.len() implies #[trigger] t[i].depth <= t[i - 1].depth + 1 by {
        if i == e {
            assert(t[i - 1] == s[i - 1]);
            if i - 1 > p {
                assert(s[i - 1].depth > d);
            }
        } else if i == e + 1 {
            assert(t[i] == s[e]);
            assert(t[i - 1] == x);
        } else if i > e + 1 {
            assert(t[i] == s[i - 1]);
            assert(t[i - 1] == s[i - 2]);
            assert(s[i - 1].depth <= s[i - 2].depth + 1);
        } else {
            assert(t[i] == s[i]);
            assert(t[i - 1] == s[i - 1]);
        }
    }
    assert forall|i: int| 1 <= i < t.len() implies #[trigger] t[i].depth >= 1 && t[i].data.kind != NodeKind::Document by {
        if i > e {
            assert(t[i] == s[i - 1]);
        } else if i < e {
            assert(t[i] == s[i]);
        }
    }
    assert forall|i: int, j: int|
        0 <= i < t.len() && 0 <= j < t.len() && i != j implies #[trigger] t[i].unique_id
            != #[trigger] t[j].unique_id by {
        let si = if i < e { i } else { i - 1 };
        let sj = if j < e { j } else { j - 1 };
        if i != e && j != e {
            assert(t[i] == s[si]);
            assert(t[j] == s[sj]);
        } else if i == e {
            assert(t[j] == s[sj]);
        } else {
            assert(t[i] == s[si]);
        }
    }
    assert forall|i: int| 0 <= i < t.len() implies #[trigger] t[i].unique_id < next + 1 by {
        if i < e {
            assert(t[i] == s[i]);
        } else if i > e {
            assert(t[i] == s[i - 1]);
        }
    }
    assert(t[0] == s[0]);
}

/// Cutting the subtree at `p` (not the root) out of the listing keeps it well
/// shaped and its identifiers unique, and no remaining node carries `p`'s identifier.
proof fn lemma_remove_keeps_shape(s: Seq<NodeEntry>, p: int, next: u64, id: u64)
    requires
        preorder_shape(s),
        ids_unique(s),
        forall|i: int| 0 <= i < s.len() ==> #[trigger] s[i].unique_id < next,
        0 < p < s.len(),
        s[p].unique_id == id,
    ensures
        ({
            let t = s.subrange(0, p) + s.subrange(subtree_end(s, p), s.len() as int);
            &&& preorder_shape(t)
            &&& ids_unique(t)
            &&& forall|i: int| 0 <= i < t.len() ==> #[trigger] t[i].unique_id < next
            &&& !contains_id(t, id)
        }),
{
    let e = subtree_end(s, p);
    lemma_scan_end(s, s[p].depth as nat, p + 1);
    let t = s.subrange(0, p) + s.subrange(e, s.len() as int);
    let k = e - p;
    assert(t.len() == s.len() - k);
    assert forall|i: int| 0 <= i < t.len() implies #[trigger] t[i] == (if i < p { s[i] } else { s[i + k] }) by {}
    assert forall|i: int| 1 <= i < t.len() implies #[trigger] t[i].depth <= t[i - 1].depth + 1 by {
        if i == p {
            assert(t[i] == s[e]);
            assert(t[i - 1] == s[p - 1]);
            assert(s[p].depth <= s[p - 1].depth + 1);
        } else if i > p {
            assert(t[i] == s[i + k]);
            assert(t[i - 1] == s[i - 1 + k]);
            assert(s[i + k].depth <= s[i + k - 1].depth + 1);
        } else {
            assert(t[i] == s[i]);
            assert(t[i - 1] == s[i - 1]);
        }
    }
    assert forall|i: int| 1 <= i < t.len() implies #[trigger] t[i].depth >= 1 && t[i].data.kind != NodeKind::Document by {
        if i >= p {
            assert(t[i] == s[i + k]);
        } else {
            assert(t[i] == s[i]);
        }
    }
    assert forall|i: int, j: int|
        0 <= i < t.len() && 0 <= j < t.len() && i != j implies #[trigger] t[i].unique_id
            != #[trigger] t[j].unique_id by {
        let si = if i < p { i } else { i + k };
        let sj = if j < p { j } else { j + k };
        assert(t[i] == s[si]);
        assert(t[j] == s[sj]);
    }
    assert forall|i: int| 0 <= i < t.len() implies #[trigger] t[i].unique_id < next && t[i].unique_id != id by {
        let si = if i < p { i } else { i + k };
        assert(t[i] == s[si]);
    }
    assert(t[0] == s[0]);
}

/// A page's document: its nodes in pre-order and the next identifier to hand out.
pub struct Document {
    nodes: Vec<NodeEntry>,
    next_id: u64,
}

impl Document {
    /// The nodes, in pre-order.
    pub closed spec fn entries(&self) -> Seq<NodeEntry> {
        self.nodes@
    }

    /// The identifier that the next inserted node receives.
    pub closed spec fn next_unique_id(&self) -> u64 {
        self.next_id
    }

    pub open spec fn wf(&self) -> bool {
        &&& preorder_shape(self.entries())
        &&& ids_unique(self.entries())
        &&& forall|i: int|
            0 <= i < self.entries().len() ==> #[trigger] self.entries()[i].unique_id
                < self.next_unique_id()
    }

    /// A document that holds only its document node, which receives identifier 0.
    pub fn new(name: String) -> (r: Document)
        ensures
            r.wf(),
            r.entries().len() == 1,
            r.entries()[0].unique_id == 0,
            r.entries()[0].data.kind == NodeKind::Document,
            r.entries()[0].data.name@ == name@,
            r.next_unique_id() == 1,
    {
        let root = NodeEntry {
            unique_id: 0,
            depth: 0,
            data: NodeData {
                kind: NodeKind::Document,
                name,
                value: String::new(),
                attributes: Vec::new(),
                width: 0,
                height: 0,
            },
        };
        let mut nodes: Vec<NodeEntry> = Vec::new();
        nodes.push(root);
        Document { nodes, next_id: 1 }
    }

    /// The number of nodes in the tree.
    pub fn len(&self) -> (r: usize)
        ensures
            r == self.entries().len(),
    {
        self.nodes.len()
    }

    /// Finds the node with identifier `id` by a pre-order walk from the document
    /// node; the first match is returned.
    pub fn find_by_unique_id(&self, id: u64) -> (r: Option<usize>)
        ensures
            match r {
                Some(i) => {
                    &&& i < self.entries().len()
                    &&& self.entries()[i as int].unique_id == id
                    &&& forall|j: int| 0 <= j < i ==> #[trigger] self.entries()[j].unique_id != id
                },
                None => !contains_id(self.entries(), id),
            },
    {
        let mut i: usize = 0;
        while i < self.nodes.len()
            invariant
                i <= self.nodes@.len(),
                forall|j: int| 0 <= j < i ==> #[trigger] self.nodes@[j].unique_id != id,
            decreases self.nodes@.len() - i,
        {
            if self.nodes[i].unique_id == id {
                return Some(i);
            }
            i = i + 1;
        }
        None
    }

    /// One past the last position of the subtree rooted at position `p`.
    fn subtree_end_of(&self, p: usize) -> (r: usize)
        requires
            p < self.entries().len(),
        ensures
            r == subtree_end(self.entries(), p as int),
    {
        let n = self.nodes.len();
        let d = self.nodes[p].depth;
        let mut k: usize = p + 1;
        proof {
            lemma_scan_end(self.nodes@, d as nat, p + 1);
        }
        while k < self.nodes.len() && self.nodes[k].depth > d
            invariant
                p < k <= self.nodes@.len(),
                d == self.nodes@[p as int].depth,
                scan_end(self.nodes@, d as nat, p + 1) == scan_end(self.nodes@, d as nat, k as int),
            decreases self.nodes@.len() - k,
        {
            k = k + 1;
        }
        k
    }

    /// Snapshots of the direct children of the node at position `p`, in document order.
    pub fn children_at(&self, p: usize) -> (r: Vec<NodeInfo>)
        requires
            p < self.entries().len(),
        ensures
            r@.map_values(|n: NodeInfo| n@) == children_view(self.entries(), p as int),
    {
        let ghost s = self.nodes@;
        let n = self.nodes.len();
        let d = self.nodes[p].depth;
        let mut r: Vec<NodeInfo> = Vec::new();
        let mut k: usize = p + 1;
        proof {
            lemma_scan_end(s, d as nat, p + 1);
            assert(r@.map_values(|n: NodeInfo| n@) =~= child_positions(s, p as int, k as int).map_values(|j: int| info_of(s[j])));
        }
        while k < self.nodes.len() && self.nodes[k].depth > d
            invariant
                s == self.nodes@,
                p < k <= s.len(),
                d == s[p as int].depth,
                scan_end(s, d as nat, p + 1) == scan_end(s, d as nat, k as int),
                r@.map_values(|n: NodeInfo| n@) == child_positions(s, p as int, k as int).map_values(|j: int| info_of(s[j])),
            decreases s.len() - k,
        {
            let ghost old_r = r@;
            let ghost prev = child_positions(s, p as int, k as int);
            if self.nodes[k].depth == d + 1 {
                let info = self.summarize(k);
                r.push(info);
                proof {
                    assert(child_positions(s, p as int, k + 1) == prev.push(k as int));
                    assert(r@.map_values(|n: NodeInfo| n@) =~= old_r.map_values(|n: NodeInfo| n@).push(info@));
                    assert(prev.push(k as int).map_values(|j: int| info_of(s[j])) =~= prev.map_values(|j: int| info_of(s[j])).push(info_of(s[k as int])));
                }
            } else {
                assert(child_positions(s, p as int, k + 1) == prev);
            }
            k = k + 1;
        }
        r
    }

    /// The bounding box of the node at position `i`; `NotAnElement` when it is not
    /// an element.
    pub fn layout_at(&self, i: usize) -> (r: Result<(u32, u32), DevtoolsError>)
        requires
            i < self.entries().len(),
        ensures
            r == layout_at_reply(self.entries(), i as int),
    {
        let data = &self.nodes[i].data;
        match data.kind {
            NodeKind::Element => Ok((data.width, data.height)),
            _ => Err(DevtoolsError::NotAnElement),
        }
    }

    /// A snapshot of the document node.
    pub fn root_node(&self) -> (r: NodeInfo)
        requires
            self.wf(),
        ensures
            r@ == info_of(self.entries()[0]),
    {
        self.summarize(0)
    }

    /// A snapshot of the document element, the first element child of the document
    /// node; `NotFound` when the document has none.
    pub fn document_element(&self) -> (r: Result<NodeInfo, DevtoolsError>)
        requires
            self.wf(),
        ensures
            match (r, document_element_reply(self.entries())) {
                (Ok(v), Ok(w)) => v@ == w,
                (Err(e), Err(f)) => e == f,
                _ => false,
            },
    {
        let mut j: usize = 0;
        while j < self.nodes.len()
            invariant
                j <= self.nodes@.len(),
                forall|k: int|
                    0 <= k < j ==> !(#[trigger] self.nodes@[k].depth == 1 && self.nodes@[k].data.kind
                        == NodeKind::Element),
            decreases self.nodes@.len() - j,
        {
            let e = &self.nodes[j];
            if e.depth == 1 && e.data.kind == NodeKind::Element {
                let info = self.summarize(j);
                proof {
                    lemma_document_element_unique(self.nodes@, j as int);
                }
                return Ok(info);
            }
            j = j + 1;
        }
        assert forall|k: int| !is_document_element(self.entries(), k) by {
            if 0 <= k < self.entries().len() {
                assert(!(self.nodes@[k].depth == 1 && self.nodes@[k].data.kind == NodeKind::Element));
            }
        }
        Err(DevtoolsError::NotFound)
    }

    /// Whether a node of `data`'s kind may be placed under a node of `parent`'s kind.
    pub open spec fn invalid_child(parent: NodeKind, child: NodeKind) -> bool {
        child == NodeKind::Document || !(parent == NodeKind::Document || parent
            == NodeKind::Element)
    }

    /// Appends a node as the last child of node `parent` and gives it the next
    /// identifier, which is returned.
    pub fn append_child(&mut self, parent: u64, data: NodeData) -> (r: Result<u64, MutationError>)
        requires
            old(self).wf(),
        ensures
            final(self).wf(),
            final(self).next_unique_id() >= old(self).next_unique_id(),
            (r matches Err(MutationError::NoSuchNode)) <==> !contains_id(old(self).entries(), parent),
            (r matches Err(MutationError::InvalidChild)) <==> contains_id(old(self).entries(), parent)
                && Self::invalid_child(
                old(self).entries()[index_of(old(self).entries(), parent)].data.kind,
                data.kind,
            ),
            (r matches Err(MutationError::IdsExhausted)) <==> contains_id(old(self).entries(), parent)
                && !Self::invalid_child(
                old(self).entries()[index_of(old(self).entries(), parent)].data.kind,
                data.kind,
            ) && old(self).next_unique_id() == u64::MAX,
            !(r matches Err(MutationError::RootNotRemovable)),
            r is Err ==> final(self).entries() == old(self).entries() && final(self).next_unique_id()
                == old(self).next_unique_id(),
            r matches Ok(id) ==> {
                let s = old(self).entries();
                let p = index_of(s, parent);
                &&& id == old(self).next_unique_id()
                &&& final(self).next_unique_id() == id + 1
                &&& final(self).entries() == s.insert(
                    subtree_end(s, p),
                    NodeEntry { unique_id: id, depth: (s[p].depth + 1) as usize, data },
                )
            },
    {
        let ghost s = self.nodes@;
        let p = match self.find_by_unique_id(parent) {
            Some(p) => p,
            None => {
                return Err(MutationError::NoSuchNode);
            },
        };
        proof {
            lemma_index_of(s, parent, p as int);
        }
        let pk = self.nodes[p].data.kind;
        let container = match pk {
            NodeKind::Document => true,
            NodeKind::Element => true,
            _ => false,
        };
        if data.kind == NodeKind::Document || !container {
            return Err(MutationError::InvalidChild);
        }
        if self.next_id == u64::MAX {
            return Err(MutationError::IdsExhausted);
        }
        let id = self.next_id;
        let e = self.subtree_end_of(p);
        proof {
            lemma_depth_bounded(s, p as int);
            lemma_scan_end(s, s[p as int].depth as nat, p + 1);
        }
        let entry = NodeEntry { unique_id: id, depth: self.nodes[p].depth + 1, data };
        let ghost entry_view = entry;
        self.nodes.insert(e, entry);
        self.next_id = id + 1;
        proof {
            lemma_insert_keeps_shape(s, p as int, e as int, entry_view, id);
        }
        Ok(id)
    }

    /// Removes node `id` together with its subtree. The identifiers removed are
    /// never handed out again.
    pub fn remove_node(&mut self, id: u64) -> (r: Result<(), MutationError>)
        requires
            old(self).wf(),
        ensures
            final(self).wf(),
            final(self).next_unique_id() == old(self).next_unique_id(),
            (r matches Err(MutationError::NoSuchNode)) <==> !contains_id(old(self).entries(), id),
            (r matches Err(MutationError::RootNotRemovable)) <==> contains_id(old(self).entries(), id)
                && index_of(old(self).entries(), id) == 0,
            !(r matches Err(MutationError::InvalidChild)),
            !(r matches Err(MutationError::IdsExhausted)),
            r is Err ==> final(self).entries() == old(self).entries(),
            r is Ok ==> {
                let s = old(self).entries();
                let p = index_of(s, id);
                &&& final(self).entries() == s.subrange(0, p) + s.subrange(
                    subtree_end(s, p),
                    s.len() as int,
                )
                &&& !contains_id(final(self).entries(), id)
            },
    {
        let ghost s = self.nodes@;
        let p = match self.find_by_unique_id(id) {
            Some(p) => p,
            None => {
                return Err(MutationError::NoSuchNode);
            },
        };
        proof {
            lemma_index_of(s, id, p as int);
        }
        if p == 0 {
            return Err(MutationError::RootNotRemovable);
        }
        let e = self.subtree_end_of(p);
        proof {
            lemma_scan_end(s, s[p as int].depth as nat, p + 1);
        }
        let mut c: usize = 0;
        while c < e - p
            invariant
                0 < p < e <= s.len(),
                c <= e - p,
                self.next_id == old(self).next_id,
                self.nodes@ == s.subrange(0, p as int) + s.subrange(p + c, s.len() as int),
            decreases e - p - c,
        {
            self.nodes.remove(p);
            assert(self.nodes@ =~= s.subrange(0, p as int) + s.subrange(p + c + 1, s.len() as int));
            c = c + 1;
        }
        proof {
            lemma_remove_keeps_shape(s, p as int, self.next_id, id);
        }
        Ok(())
    }

    /// A snapshot of the node at position `i`.
    pub fn summarize(&self, i: usize) -> (r: NodeInfo)
        requires
            i < self.entries().len(),
        ensures
            r@ == info_of(self.entries()[i as int]),
    {
        let e = &self.nodes[i];
        NodeInfo {
            unique_id: e.unique_id,
            kind: e.data.kind,
            name: e.data.name.clone(),
            value: e.data.value.clone(),
            attributes: copy_attributes(&e.data.attributes),
        }
    }
}

} // verus!

verus! {

/// No two nodes of a well-formed document share an identifier.
pub proof fn lemma_ids_unique(doc: &Document)
    requires
        doc.wf(),
    ensures
        forall|i: int, j: int|
            0 <= i < doc.entries().len() && 0 <= j < doc.entries().len() && i != j
                ==> #[trigger] doc.entries()[i].unique_id != #[trigger] doc.entries()[j].unique_id,
{
}

/// An identifier present in a well-formed document names exactly one node, the
/// one at `index_of`; an absent one names none.
pub proof fn lemma_lookup_correct(doc: &Document, id: u64)
    requires
        doc.wf(),
    ensures
        contains_id(doc.entries(), id) ==> {
            let i = index_of(doc.entries(), id);
            &&& 0 <= i < doc.entries().len()
            &&& doc.entries()[i].unique_id == id
            &&& forall|j: int|
                0 <= j < doc.entries().len() && #[trigger] doc.entries()[j].unique_id == id ==> j == i
        },
        !contains_id(doc.entries(), id) ==> forall|j: int|
            0 <= j < doc.entries().len() ==> #[trigger] doc.entries()[j].unique_id != id,
{
    if contains_id(doc.entries(), id) {
        let i = index_of(doc.entries(), id);
        assert(doc.entries()[i].unique_id == id);
    }
}

/// The children of a node come in document order: their positions increase, each
/// lies in the node's subtree one level below it, and every such position is listed.
pub proof fn lemma_children_in_document_order(doc: &Document, id: u64)
    requires
        doc.wf(),
        contains_id(doc.entries(), id),
    ensures
        ({
            let s = doc.entries();
            let p = index_of(s, id);
            let c = children_positions(s, p);
            &&& forall|a: int, b: int| 0 <= a < b < c.len() ==> c[a] < c[b]
            &&& forall|a: int|
                0 <= a < c.len() ==> p < #[trigger] c[a] < subtree_end(s, p) && s[c[a]].depth
                    == s[p].depth + 1
            &&& forall|j: int|
                p < j < subtree_end(s, p) && #[trigger] s[j].depth == s[p].depth + 1
                    ==> c.contains(j)
        }),
{
    let s = doc.entries();
    let p = index_of(s, id);
    lemma_scan_end(s, s[p].depth as nat, p + 1);
    lemma_child_positions(s, p, subtree_end(s, p));
}

} // verus!
