//! The dashboard board: a tree of widgets and containers laid out on a
//! 12-column grid, and the edits the board makes to it.

use vstd::prelude::*;

use crate::text::{chars_of, decimal, lemma_decimal_injective, opt_text, owned, push_char, push_decimal, range_is, str_eq};

verus! {

/// How a container arranges its children.
#[derive(Clone, Copy, Debug, PartialEq, Eq, Structural)]
pub enum BoardContainerKind {
    Row,
    Stack,
}

/// One tile of the board, or a group of tiles.
#[allow(inconsistent_fields)]
#[derive(Debug)]
pub enum BoardNode {
    /// `http_mode` and `bind` name how the widget shows its data and which
    /// part of it the widget binds to.
    Widget {
        id: String,
        kind: String,
        col_span: u8,
        note_text: Option<String>,
        source_id: Option<String>,
        http_mode: String,
        bind: String,
    },
    Container { id: String, kind: BoardContainerKind, col_span: u8, children: Vec<BoardNode> },
}

/// The saved board.
#[derive(Debug)]
pub struct DashboardLayout {
    pub version: u32,
    pub nodes: Vec<BoardNode>,
}

/// The mathematical board: the same tree with text as character sequences.
#[allow(inconsistent_fields)]
pub enum NodeView {
    Widget {
        id: Seq<char>,
        kind: Seq<char>,
        col_span: u8,
        note_text: Option<Seq<char>>,
        source_id: Option<Seq<char>>,
        http_mode: Seq<char>,
        bind: Seq<char>,
    },
    Container { id: Seq<char>, kind: BoardContainerKind, col_span: u8, children: Seq<NodeView> },
}

pub open spec fn view_node(n: BoardNode) -> NodeView
    decreases n,
{
    match n {
        BoardNode::Widget { id, kind, col_span, note_text, source_id, http_mode, bind } =>
            NodeView::Widget {
            id: id@,
            kind: kind@,
            col_span,
            note_text: opt_text(note_text),
            source_id: opt_text(source_id),
            http_mode: http_mode@,
            bind: bind@,
        },
        BoardNode::Container { id, kind, col_span, children } => NodeView::Container {
            id: id@,
            kind,
            col_span,
            children: view_nodes(children@),
        },
    }
}

pub open spec fn view_nodes(s: Seq<BoardNode>) -> Seq<NodeView>
    decreases s,
{
    if s.len() == 0 {
        Seq::empty()
    } else {
        seq![view_node(s[0])] + view_nodes(s.drop_first())
    }
}


pub proof fn lemma_view_nodes(s: Seq<BoardNode>)
    ensures
        view_nodes(s).len() == s.len(),
        forall|i: int| 0 <= i < s.len() ==> #[trigger] view_nodes(s)[i] == view_node(s[i]),
    decreases s.len(),
{
    if s.len() > 0 {
        lemma_view_nodes(s.drop_first());
        assert forall|i: int| 0 <= i < s.len() implies #[trigger] view_nodes(s)[i] == view_node(
            s[i],
        ) by {
            if i > 0 {
                assert(view_nodes(s)[i] == view_nodes(s.drop_first())[i - 1]);
                assert(s.drop_first()[i - 1] == s[i]);
            }
        }
    }
}

// ---------------------------------------------------------------------------
// Node views
// ---------------------------------------------------------------------------

pub open spec fn nv_id(n: NodeView) -> Seq<char> {
    match n {
        NodeView::Widget { id, .. } => id,
        NodeView::Container { id, .. } => id,
    }
}

pub open spec fn nv_span(n: NodeView) -> u8 {
    match n {
        NodeView::Widget { col_span, .. } => col_span,
        NodeView::Container { col_span, .. } => col_span,
    }
}

pub open spec fn nv_with_span(n: NodeView, span: u8) -> NodeView {
    match n {
        NodeView::Widget { id, kind, col_span, note_text, source_id, http_mode, bind } =>
            NodeView::Widget { id, kind, col_span: span, note_text, source_id, http_mode, bind },
        NodeView::Container { id, kind, col_span, children } => NodeView::Container {
            id,
            kind,
            col_span: span,
            children,
        },
    }
}

pub open spec fn nv_children(n: NodeView) -> Seq<NodeView> {
    match n {
        NodeView::Widget { .. } => Seq::empty(),
        NodeView::Container { children, .. } => children,
    }
}

pub open spec fn nv_with_children(n: NodeView, c: Seq<NodeView>) -> NodeView {
    match n {
        NodeView::Widget { .. } => n,
        NodeView::Container { id, kind, col_span, children } => NodeView::Container {
            id,
            kind,
            col_span,
            children: c,
        },
    }
}

// ---------------------------------------------------------------------------
// Searching
// ---------------------------------------------------------------------------

/// The first node with `id` in depth-first order: a node before its
/// children, earlier siblings (with their subtrees) before later ones.
pub open spec fn find_first(s: Seq<NodeView>, id: Seq<char>) -> Option<NodeView>
    decreases s,
{
    if s.len() == 0 {
        None
    } else {
        let n = s[0];
        if nv_id(n) == id {
            Some(n)
        } else {
            let inner = match n {
                NodeView::Widget { .. } => None,
                NodeView::Container { children, .. } => find_first(children, id),
            };
            if inner is Some {
                inner
            } else {
                find_first(s.drop_first(), id)
            }
        }
    }
}

/// Whether some node of the tree carries `id`.
pub open spec fn contains_id(s: Seq<NodeView>, id: Seq<char>) -> bool {
    find_first(s, id) is Some
}

/// The number of nodes of the tree, containers and widgets alike.
pub open spec fn count(s: Seq<NodeView>) -> nat
    decreases s,
{
    if s.len() == 0 {
        0
    } else {
        let inner = match s[0] {
            NodeView::Widget { .. } => 0,
            NodeView::Container { children, .. } => count(children),
        };
        1 + inner + count(s.drop_first())
    }
}

/// The kinds of all widgets of the tree.
pub open spec fn placed_kinds(s: Seq<NodeView>) -> Set<Seq<char>>
    decreases s,
{
    if s.len() == 0 {
        Set::empty()
    } else {
        let here = match s[0] {
            NodeView::Widget { kind, .. } => set![kind],
            NodeView::Container { children, .. } => placed_kinds(children),
        };
        here + placed_kinds(s.drop_first())
    }
}

// ---------------------------------------------------------------------------
// Edits
// ---------------------------------------------------------------------------

/// Sets the span of the first node with `id` (in `find_first` order); the flag
/// says whether there was one.
pub open spec fn set_span_in(s: Seq<NodeView>, id: Seq<char>, span: u8) -> (Seq<NodeView>, bool)
    decreases s,
{
    if s.len() == 0 {
        (s, false)
    } else {
        let n = s[0];
        if nv_id(n) == id {
            (s.update(0, nv_with_span(n, span)), true)
        } else {
            let inner = match n {
                NodeView::Widget { .. } => (Seq::<NodeView>::empty(), false),
                NodeView::Container { children, .. } => set_span_in(children, id, span),
            };
            if inner.1 {
                (s.update(0, nv_with_children(n, inner.0)), true)
            } else {
                let rest = set_span_in(s.drop_first(), id, span);
                (seq![n] + rest.0, rest.1)
            }
        }
    }
}

/// Index of the first node at this level (children not searched) with `id`.
pub open spec fn top_index(s: Seq<NodeView>, id: Seq<char>) -> Option<int>
    decreases s.len(),
{
    if s.len() == 0 {
        None
    } else if nv_id(s[0]) == id {
        Some(0)
    } else {
        match top_index(s.drop_first(), id) {
            Some(k) => Some(k + 1),
            None => None,
        }
    }
}

/// Removes a node with `id` with its subtree: the first one at this level if
/// there is one, else the first found in the containers of this level, in order.
pub open spec fn remove_in(s: Seq<NodeView>, id: Seq<char>) -> (Seq<NodeView>, bool)
    decreases s, 1nat,
{
    match top_index(s, id) {
        Some(k) => (s.remove(k), true),
        None => remove_in_children(s, id),
    }
}

pub open spec fn remove_in_children(s: Seq<NodeView>, id: Seq<char>) -> (Seq<NodeView>, bool)
    decreases s, 0nat,
{
    if s.len() == 0 {
        (s, false)
    } else {
        let n = s[0];
        let inner = match n {
            NodeView::Widget { .. } => (Seq::<NodeView>::empty(), false),
            NodeView::Container { children, .. } => remove_in(children, id),
        };
        if inner.1 {
            (s.update(0, nv_with_children(n, inner.0)), true)
        } else {
            let rest = remove_in_children(s.drop_first(), id);
            (seq![n] + rest.0, rest.1)
        }
    }
}

/// `s` with the node at `from` moved to the place of the node at `to`.
pub open spec fn move_within(s: Seq<NodeView>, from: int, to: int) -> Seq<NodeView> {
    let item = s[from];
    let rest = s.remove(from);
    let target = if from < to {
        to - 1
    } else {
        to
    };
    rest.insert(if target < rest.len() {
        target
    } else {
        rest.len() as int
    }, item)
}

/// Moves the node `from_id` to the place of its sibling `to_id`: at this level
/// when both are here, else in the first container (in order) holding both.
pub open spec fn reorder_in(s: Seq<NodeView>, from_id: Seq<char>, to_id: Seq<char>) -> (Seq<NodeView>, bool)
    decreases s, 1nat,
{
    if from_id == to_id {
        (s, false)
    } else {
        match (top_index(s, from_id), top_index(s, to_id)) {
            (Some(f), Some(t)) => (move_within(s, f, t), true),
            _ => reorder_in_children(s, from_id, to_id),
        }
    }
}

pub open spec fn reorder_in_children(s: Seq<NodeView>, from_id: Seq<char>, to_id: Seq<char>) -> (Seq<
    NodeView,
>, bool)
    decreases s, 0nat,
{
    if s.len() == 0 {
        (s, false)
    } else {
        let n = s[0];
        let inner = match n {
            NodeView::Widget { .. } => (Seq::<NodeView>::empty(), false),
            NodeView::Container { children, .. } => reorder_in(children, from_id, to_id),
        };
        if inner.1 {
            (s.update(0, nv_with_children(n, inner.0)), true)
        } else {
            let rest = reorder_in_children(s.drop_first(), from_id, to_id);
            (seq![n] + rest.0, rest.1)
        }
    }
}


// ---------------------------------------------------------------------------
// Exec: reading the tree
// ---------------------------------------------------------------------------

impl BoardNode {
    pub fn id(&self) -> (r: &String)
        ensures
            r@ == nv_id(view_node(*self)),
    {
        match self {
            BoardNode::Widget { id, .. } => id,
            BoardNode::Container { id, .. } => id,
        }
    }

    pub fn col_span(&self) -> (r: u8)
        ensures
            r == nv_span(view_node(*self)),
    {
        match self {
            BoardNode::Widget { col_span, .. } => *col_span,
            BoardNode::Container { col_span, .. } => *col_span,
        }
    }

    pub fn set_col_span(&mut self, span: u8)
        ensures
            view_node(*final(self)) == nv_with_span(view_node(*old(self)), span),
    {
        match self {
            BoardNode::Widget { col_span, .. } => {
                *col_span = span;
            },
            BoardNode::Container { col_span, .. } => {
                *col_span = span;
            },
        }
    }
}

fn id_is(n: &BoardNode, id: &str) -> (r: bool)
    ensures
        r == (nv_id(view_node(*n)) == id@),
{
    let v = chars_of(n.id().as_str());
    let l = v.len();
    proof {
        assert(v@.subrange(0, l as int) == v@);
    }
    range_is(&v, 0, l, id)
}

proof fn lemma_find_step(v: Seq<NodeView>, i: int, id: Seq<char>)
    requires
        0 <= i < v.len(),
    ensures
        ({
            let rest = v.subrange(i, v.len() as int);
            &&& rest[0] == v[i]
            &&& rest.drop_first() == v.subrange(i + 1, v.len() as int)
        }),
{
    let rest = v.subrange(i, v.len() as int);
    assert(rest.drop_first() == v.subrange(i + 1, v.len() as int));
}

/// The first node with `id`, searching depth-first.
pub fn find_node<'a>(nodes: &'a [BoardNode], id: &str) -> (r: Option<&'a BoardNode>)
    ensures
        match r {
            Some(n) => find_first(view_nodes(nodes@), id@) == Some(view_node(*n)),
            None => find_first(view_nodes(nodes@), id@) is None,
        },
    decreases nodes@,
{
    let ghost v = view_nodes(nodes@);
    proof {
        lemma_view_nodes(nodes@);
        assert(v.subrange(0, v.len() as int) == v);
    }
    let mut i: usize = 0;
    while i < nodes.len()
        invariant
            i <= nodes@.len(),
            v == view_nodes(nodes@),
            v.len() == nodes@.len(),
            forall|k: int| 0 <= k < nodes@.len() ==> #[trigger] v[k] == view_node(nodes@[k]),
            find_first(v, id@) == find_first(v.subrange(i as int, v.len() as int), id@),
        decreases nodes@.len() - i,
    {
        proof {
            lemma_find_step(v, i as int, id@);
        }
        let node = &nodes[i];
        if id_is(node, id) {
            return Some(node);
        }
        if let BoardNode::Container { children, .. } = node {
            proof {
                assert(decreases_to!(nodes@ => nodes@[i as int]));
            }
            let found = find_node(children.as_slice(), id);
            if found.is_some() {
                return found;
            }
        }
        i += 1;
    }
    None
}

/// Whether some node of the tree carries `id`.
pub fn id_exists(nodes: &[BoardNode], id: &str) -> (r: bool)
    ensures
        r == contains_id(view_nodes(nodes@), id@),
{
    find_node(nodes, id).is_some()
}

/// The span of the first node with `id`.
pub fn find_col_span(nodes: &[BoardNode], id: &str) -> (r: Option<u8>)
    ensures
        match find_first(view_nodes(nodes@), id@) {
            Some(n) => r == Some(nv_span(n)),
            None => r is None,
        },
{
    match find_node(nodes, id) {
        Some(n) => Some(n.col_span()),
        None => None,
    }
}

/// The number of nodes of the tree.
pub fn count_nodes(nodes: &[BoardNode]) -> (r: usize)
    requires
        count(view_nodes(nodes@)) <= usize::MAX,
    ensures
        r == count(view_nodes(nodes@)),
    decreases nodes@,
{
    let ghost v = view_nodes(nodes@);
    proof {
        lemma_view_nodes(nodes@);
        assert(v.subrange(0, v.len() as int) == v);
    }
    let mut total: usize = 0;
    let mut i: usize = 0;
    while i < nodes.len()
        invariant
            i <= nodes@.len(),
            v == view_nodes(nodes@),
            v.len() == nodes@.len(),
            forall|k: int| 0 <= k < nodes@.len() ==> #[trigger] v[k] == view_node(nodes@[k]),
            count(v) <= usize::MAX,
            total + count(v.subrange(i as int, v.len() as int)) == count(v),
        decreases nodes@.len() - i,
    {
        proof {
            lemma_find_step(v, i as int, Seq::empty());
        }
        let node = &nodes[i];
        let inner: usize = match node {
            BoardNode::Widget { .. } => 0,
            BoardNode::Container { children, .. } => {
                proof {
                    assert(decreases_to!(nodes@ => nodes@[i as int]));
                }
                count_nodes(children.as_slice())
            },
        };
        total = total + 1 + inner;
        i += 1;
    }
    total
}

impl DashboardLayout {
    /// The number of nodes on the board.
    pub fn total_nodes(&self) -> (r: usize)
        requires
            count(view_nodes(self.nodes@)) <= usize::MAX,
        ensures
            r == count(view_nodes(self.nodes@)),
    {
        count_nodes(self.nodes.as_slice())
    }
}


// ---------------------------------------------------------------------------
// Facts about the edits
// ---------------------------------------------------------------------------

/// Setting a span reports exactly whether the id is on the board, and a miss
/// leaves the tree as it was.
pub proof fn lemma_set_span_flag(s: Seq<NodeView>, id: Seq<char>, span: u8)
    ensures
        set_span_in(s, id, span).1 == (find_first(s, id) is Some),
        !set_span_in(s, id, span).1 ==> set_span_in(s, id, span).0 == s,
    decreases s,
{
    if s.len() > 0 {
        let n = s[0];
        if nv_id(n) != id {
            if let NodeView::Container { children, .. } = n {
                assert(decreases_to!(s => s[0]));
                lemma_set_span_flag(children, id, span);
            }
            lemma_set_span_flag(s.drop_first(), id, span);
            let rest = set_span_in(s.drop_first(), id, span);
            if !rest.1 {
                assert(seq![n] + rest.0 =~= s);
            }
        }
    }
}

/// Sequence algebra used by the loops over a level.
proof fn lemma_level_split(v: Seq<NodeView>, i: int)
    requires
        0 <= i < v.len(),
    ensures
        v.subrange(0, i) + seq![v[i]] == v.subrange(0, i + 1),
        v.subrange(i, v.len() as int)[0] == v[i],
        v.subrange(i, v.len() as int).drop_first() == v.subrange(i + 1, v.len() as int),
        v.subrange(0, 0) + v == v,
{
    assert(v.subrange(0, i) + seq![v[i]] =~= v.subrange(0, i + 1));
    assert(v.subrange(i, v.len() as int).drop_first() =~= v.subrange(i + 1, v.len() as int));
    assert(v.subrange(0, 0) + v =~= v);
}

// ---------------------------------------------------------------------------
// Exec: editing the tree
// ---------------------------------------------------------------------------

/// Sets the column span of the first node with `id` (depth-first); returns
/// whether there was one.
pub fn set_span_by_id(nodes: &mut Vec<BoardNode>, id: &str, span: u8) -> (r: bool)
    ensures
        set_span_in(view_nodes(old(nodes)@), id@, span) == (view_nodes(final(nodes)@), r),
    decreases old(nodes)@,
{
    let ghost v = view_nodes(nodes@);
    let ghost old_nodes = nodes@;
    proof {
        lemma_view_nodes(nodes@);
        assert(v.subrange(0, v.len() as int) == v);
        assert(v.subrange(0, 0) + v =~= v);
    }
    let mut i: usize = 0;
    while i < nodes.len()
        invariant
            i <= nodes@.len(),
            nodes@.len() == old_nodes.len(),
            old_nodes == old(nodes)@,
            v == view_nodes(old_nodes),
            v.len() == old_nodes.len(),
            forall|k: int| 0 <= k < old_nodes.len() ==> #[trigger] v[k] == view_node(old_nodes[k]),
            forall|k: int| 0 <= k < old_nodes.len() ==> #[trigger] view_node(nodes@[k]) == v[k],
            forall|k: int| i <= k < old_nodes.len() ==> #[trigger] nodes@[k] == old_nodes[k],
            set_span_in(v, id@, span) == ({
                let rest = set_span_in(v.subrange(i as int, v.len() as int), id@, span);
                (v.subrange(0, i as int) + rest.0, rest.1)
            }),
        decreases old_nodes.len() - i,
    {
        proof {
            lemma_level_split(v, i as int);
        }
        let ghost n = v[i as int];
        let ghost tail = v.subrange(i as int, v.len() as int);
        let ghost before = nodes@;
        if id_is(&nodes[i], id) {
            proof {
                assert(tail[0] == n);
                assert(set_span_in(tail, id@, span) == (tail.update(0, nv_with_span(n, span)), true));
            }
            nodes[i].set_col_span(span);
            proof {
                lemma_view_nodes(nodes@);
                assert(view_node(nodes@[i as int]) == nv_with_span(n, span));
                assert(view_nodes(nodes@) =~= v.update(i as int, nv_with_span(n, span)));
                assert(v.subrange(0, i as int) + tail.update(0, nv_with_span(n, span))
                    =~= v.update(i as int, nv_with_span(n, span)));
            }
            return true;
        }
        let is_container = match &nodes[i] {
            BoardNode::Container { .. } => true,
            BoardNode::Widget { .. } => false,
        };
        if is_container {
            let found = match &mut nodes[i] {
                BoardNode::Container { children, .. } => {
                    proof {
                        assert(decreases_to!(old_nodes => old_nodes[i as int]));
                    }
                    set_span_by_id(children, id, span)
                },
                BoardNode::Widget { .. } => false,
            };
            proof {
                lemma_view_nodes(nodes@);
                assert(nodes@.len() == before.len());
                assert(forall|k: int| 0 <= k < before.len() && k != i ==> nodes@[k] == before[k]);
            }
            if found {
                proof {
                    let inner = set_span_in(nv_children(n), id@, span);
                    assert(view_node(nodes@[i as int]) == nv_with_children(n, inner.0));
                    assert(view_nodes(nodes@) =~= v.update(i as int, nv_with_children(n, inner.0)));
                    assert(v.subrange(0, i as int) + tail.update(0, nv_with_children(n, inner.0))
                        =~= v.update(i as int, nv_with_children(n, inner.0)));
                }
                return true;
            }
            proof {
                lemma_set_span_flag(nv_children(n), id@, span);
                assert(view_node(nodes@[i as int]) == n);
            }
        }
        proof {
            let rest = set_span_in(v.subrange(i + 1, v.len() as int), id@, span);
            assert(v.subrange(0, i as int) + (seq![n] + rest.0) =~= v.subrange(0, i + 1) + rest.0);
        }
        i += 1;
    }
    proof {
        assert(v.subrange(0, v.len() as int) =~= v);
        lemma_view_nodes(nodes@);
        assert(view_nodes(nodes@) =~= v);
        assert(v.subrange(v.len() as int, v.len() as int) =~= Seq::<NodeView>::empty());
        assert(v + Seq::<NodeView>::empty() =~= v);
    }
    false
}


/// What `top_index` finds: the first index of this level carrying `id`.
pub proof fn lemma_top_index(s: Seq<NodeView>, id: Seq<char>)
    ensures
        match top_index(s, id) {
            Some(k) => 0 <= k < s.len() && nv_id(s[k]) == id && forall|j: int|
                0 <= j < k ==> nv_id(#[trigger] s[j]) != id,
            None => forall|j: int| 0 <= j < s.len() ==> nv_id(#[trigger] s[j]) != id,
        },
    decreases s.len(),
{
    if s.len() > 0 {
        lemma_top_index(s.drop_first(), id);
        if nv_id(s[0]) != id {
            assert forall|j: int| 1 <= j < s.len() implies s[j] == s.drop_first()[j - 1] by {}
        }
    }
}

/// A node found at this level is found by the depth-first search too.
proof fn lemma_top_index_found(s: Seq<NodeView>, id: Seq<char>)
    requires
        top_index(s, id) is Some,
    ensures
        find_first(s, id) is Some,
    decreases s.len(),
{
    if nv_id(s[0]) != id {
        lemma_top_index_found(s.drop_first(), id);
    }
}

/// Removal reports exactly whether the id is on the board, and a miss leaves
/// the tree as it was.
pub proof fn lemma_remove_flag(s: Seq<NodeView>, id: Seq<char>)
    ensures
        remove_in(s, id).1 == (find_first(s, id) is Some),
        !remove_in(s, id).1 ==> remove_in(s, id).0 == s,
    decreases s, 1nat,
{
    match top_index(s, id) {
        Some(k) => {
            lemma_top_index_found(s, id);
        },
        None => {
            lemma_remove_children_flag(s, id);
        },
    }
}

proof fn lemma_remove_children_flag(s: Seq<NodeView>, id: Seq<char>)
    requires
        top_index(s, id) is None,
    ensures
        remove_in_children(s, id).1 == (find_first(s, id) is Some),
        !remove_in_children(s, id).1 ==> remove_in_children(s, id).0 == s,
    decreases s, 0nat,
{
    if s.len() > 0 {
        let n = s[0];
        if let NodeView::Container { children, .. } = n {
            assert(decreases_to!(s => s[0]));
            lemma_remove_flag(children, id);
        }
        assert(top_index(s.drop_first(), id) is None);
        lemma_remove_children_flag(s.drop_first(), id);
        let rest = remove_in_children(s.drop_first(), id);
        if !rest.1 {
            assert(seq![n] + rest.0 =~= s);
        }
    }
}

/// The view of a node sequence follows `remove`.
proof fn lemma_view_nodes_remove(s: Seq<BoardNode>, k: int)
    requires
        0 <= k < s.len(),
    ensures
        view_nodes(s.remove(k)) == view_nodes(s).remove(k),
{
    lemma_view_nodes(s);
    lemma_view_nodes(s.remove(k));
    assert(view_nodes(s.remove(k)) =~= view_nodes(s).remove(k));
}

/// The view of a node sequence follows `insert`.
proof fn lemma_view_nodes_insert(s: Seq<BoardNode>, j: int, x: BoardNode)
    requires
        0 <= j <= s.len(),
    ensures
        view_nodes(s.insert(j, x)) == view_nodes(s).insert(j, view_node(x)),
{
    lemma_view_nodes(s);
    lemma_view_nodes(s.insert(j, x));
    assert(view_nodes(s.insert(j, x)) =~= view_nodes(s).insert(j, view_node(x)));
}

/// The first index of this level whose node carries `id`.
fn top_position(nodes: &Vec<BoardNode>, id: &str) -> (r: Option<usize>)
    ensures
        match top_index(view_nodes(nodes@), id@) {
            Some(k) => r is Some && r->0 == k,
            None => r is None,
        },
        r is Some ==> r->0 < nodes@.len(),
{
    let ghost v = view_nodes(nodes@);
    proof {
        lemma_view_nodes(nodes@);
        lemma_top_index(v, id@);
    }
    let mut i: usize = 0;
    while i < nodes.len()
        invariant
            i <= nodes@.len(),
            v == view_nodes(nodes@),
            v.len() == nodes@.len(),
            forall|k: int| 0 <= k < nodes@.len() ==> #[trigger] v[k] == view_node(nodes@[k]),
            forall|j: int| 0 <= j < i ==> nv_id(#[trigger] v[j]) != id@,
            match top_index(v, id@) {
                Some(k) => 0 <= k < v.len() && nv_id(v[k]) == id@ && forall|j: int|
                    0 <= j < k ==> nv_id(#[trigger] v[j]) != id@,
                None => forall|j: int| 0 <= j < v.len() ==> nv_id(#[trigger] v[j]) != id@,
            },
        decreases nodes@.len() - i,
    {
        if id_is(&nodes[i], id) {
            proof {
                assert(nv_id(v[i as int]) == id@);
                match top_index(v, id@) {
                    Some(k) => {
                        if k < i {
                            assert(nv_id(v[k]) != id@);
                        }
                        if k > i {
                            assert(nv_id(v[i as int]) != id@);
                        }
                    },
                    None => {
                        assert(nv_id(v[i as int]) != id@);
                    },
                }
            }
            return Some(i);
        }
        i += 1;
    }
    proof {
        if let Some(k) = top_index(v, id@) {
            assert(nv_id(v[k]) != id@);
        }
    }
    None
}

/// Removes a node with `id`, with its subtree: the first at the top level if
/// there is one there, else the first found inside the containers, in order.
/// Returns whether a node was removed.
pub fn remove_node(nodes: &mut Vec<BoardNode>, id: &str) -> (r: bool)
    ensures
        remove_in(view_nodes(old(nodes)@), id@) == (view_nodes(final(nodes)@), r),
    decreases old(nodes)@,
{
    if let Some(idx) = top_position(nodes, id) {
        let ghost before = nodes@;
        proof {
            lemma_view_nodes_remove(before, idx as int);
            assert(top_index(view_nodes(before), id@) == Some(idx as int));
            assert(remove_in(view_nodes(before), id@) == (view_nodes(before).remove(idx as int), true));
        }
        nodes.remove(idx);
        proof {
            assert(nodes@ == before.remove(idx as int));
        }
        return true;
    }
    let ghost v = view_nodes(nodes@);
    let ghost old_nodes = nodes@;
    proof {
        lemma_view_nodes(nodes@);
        assert(v.subrange(0, v.len() as int) == v);
        assert(v.subrange(0, 0) + v =~= v);
    }
    let mut i: usize = 0;
    while i < nodes.len()
        invariant
            i <= nodes@.len(),
            nodes@.len() == old_nodes.len(),
            old_nodes == old(nodes)@,
            v == view_nodes(old_nodes),
            v.len() == old_nodes.len(),
            top_index(v, id@) is None,
            forall|k: int| 0 <= k < old_nodes.len() ==> #[trigger] v[k] == view_node(old_nodes[k]),
            forall|k: int| 0 <= k < old_nodes.len() ==> #[trigger] view_node(nodes@[k]) == v[k],
            forall|k: int| i <= k < old_nodes.len() ==> #[trigger] nodes@[k] == old_nodes[k],
            remove_in_children(v, id@) == ({
                let rest = remove_in_children(v.subrange(i as int, v.len() as int), id@);
                (v.subrange(0, i as int) + rest.0, rest.1)
            }),
        decreases old_nodes.len() - i,
    {
        proof {
            lemma_level_split(v, i as int);
        }
        let ghost n = v[i as int];
        let ghost tail = v.subrange(i as int, v.len() as int);
        let ghost before = nodes@;
        let is_container = match &nodes[i] {
            BoardNode::Container { .. } => true,
            BoardNode::Widget { .. } => false,
        };
        if is_container {
            let found = match &mut nodes[i] {
                BoardNode::Container { children, .. } => {
                    proof {
                        assert(decreases_to!(old_nodes => old_nodes[i as int]));
                    }
                    remove_node(children, id)
                },
                BoardNode::Widget { .. } => false,
            };
            proof {
                lemma_view_nodes(nodes@);
                assert(forall|k: int| 0 <= k < before.len() && k != i ==> nodes@[k] == before[k]);
            }
            if found {
                proof {
                    let inner = remove_in(nv_children(n), id@);
                    assert(view_node(nodes@[i as int]) == nv_with_children(n, inner.0));
                    assert(view_nodes(nodes@) =~= v.update(i as int, nv_with_children(n, inner.0)));
                    assert(v.subrange(0, i as int) + tail.update(0, nv_with_children(n, inner.0))
                        =~= v.update(i as int, nv_with_children(n, inner.0)));
                }
                return true;
            }
            proof {
                lemma_remove_flag(nv_children(n), id@);
                assert(view_node(nodes@[i as int]) == n);
            }
        }
        proof {
            let rest = remove_in_children(v.subrange(i + 1, v.len() as int), id@);
            assert(v.subrange(0, i as int) + (seq![n] + rest.0) =~= v.subrange(0, i + 1) + rest.0);
        }
        i += 1;
    }
    proof {
        assert(v.subrange(0, v.len() as int) =~= v);
        lemma_view_nodes(nodes@);
        assert(view_nodes(nodes@) =~= v);
        assert(v.subrange(v.len() as int, v.len() as int) =~= Seq::<NodeView>::empty());
        assert(v + Seq::<NodeView>::empty() =~= v);
    }
    false
}


/// A reorder that finds nothing leaves the tree as it was.
pub proof fn lemma_reorder_miss(s: Seq<NodeView>, from_id: Seq<char>, to_id: Seq<char>)
    ensures
        !reorder_in(s, from_id, to_id).1 ==> reorder_in(s, from_id, to_id).0 == s,
    decreases s, 1nat,
{
    if from_id != to_id {
        match (top_index(s, from_id), top_index(s, to_id)) {
            (Some(f), Some(t)) => {},
            _ => {
                lemma_reorder_children_miss(s, from_id, to_id);
            },
        }
    }
}

proof fn lemma_reorder_children_miss(s: Seq<NodeView>, from_id: Seq<char>, to_id: Seq<char>)
    ensures
        !reorder_in_children(s, from_id, to_id).1 ==> reorder_in_children(s, from_id, to_id).0 == s,
    decreases s, 0nat,
{
    if s.len() > 0 {
        let n = s[0];
        if let NodeView::Container { children, .. } = n {
            assert(decreases_to!(s => s[0]));
            lemma_reorder_miss(children, from_id, to_id);
        }
        lemma_reorder_children_miss(s.drop_first(), from_id, to_id);
        let rest = reorder_in_children(s.drop_first(), from_id, to_id);
        if !rest.1 {
            assert(seq![n] + rest.0 =~= s);
        }
    }
}

/// Moves the node `from_id` to the place of its sibling `to_id`, at the top
/// level when both are there, else inside the first container (in order) that
/// holds both. Returns whether a move was made; equal ids move nothing.
pub fn reorder_siblings(nodes: &mut Vec<BoardNode>, from_id: &str, to_id: &str) -> (r: bool)
    ensures
        reorder_in(view_nodes(old(nodes)@), from_id@, to_id@) == (view_nodes(final(nodes)@), r),
    decreases old(nodes)@,
{
    if str_eq(from_id, to_id) {
        return false;
    }
    let from_pos = top_position(nodes, from_id);
    let to_pos = top_position(nodes, to_id);
    if let (Some(from_idx), Some(to_idx)) = (from_pos, to_pos) {
        let ghost before = nodes@;
        proof {
            lemma_view_nodes_remove(before, from_idx as int);
        }
        let mut to_idx = to_idx;
        let item = nodes.remove(from_idx);
        if from_idx < to_idx {
            to_idx -= 1;
        }
        let at = if to_idx < nodes.len() {
            to_idx
        } else {
            nodes.len()
        };
        let ghost mid = nodes@;
        proof {
            lemma_view_nodes_insert(mid, at as int, item);
        }
        nodes.insert(at, item);
        proof {
            let w = view_nodes(before);
            lemma_view_nodes(before);
            assert(nodes@ == mid.insert(at as int, item));
            assert(view_node(item) == w[from_idx as int]) by {
                lemma_view_nodes(before);
            }
            assert(reorder_in(w, from_id@, to_id@) == (move_within(w, from_idx as int, to_pos->0 as int), true));
            assert(move_within(w, from_idx as int, to_pos->0 as int) == w.remove(from_idx as int).insert(at as int, w[from_idx as int]));
            assert(view_nodes(nodes@) == w.remove(from_idx as int).insert(at as int, w[from_idx as int]));
        }
        return true;
    }
    let ghost v = view_nodes(nodes@);
    let ghost old_nodes = nodes@;
    proof {
        lemma_view_nodes(nodes@);
        assert(v.subrange(0, v.len() as int) == v);
        assert(v.subrange(0, 0) + v =~= v);
    }
    let mut i: usize = 0;
    while i < nodes.len()
        invariant
            i <= nodes@.len(),
            nodes@.len() == old_nodes.len(),
            old_nodes == old(nodes)@,
            v == view_nodes(old_nodes),
            v.len() == old_nodes.len(),
            from_id@ != to_id@,
            reorder_in(v, from_id@, to_id@) == reorder_in_children(v, from_id@, to_id@),
            forall|k: int| 0 <= k < old_nodes.len() ==> #[trigger] v[k] == view_node(old_nodes[k]),
            forall|k: int| 0 <= k < old_nodes.len() ==> #[trigger] view_node(nodes@[k]) == v[k],
            forall|k: int| i <= k < old_nodes.len() ==> #[trigger] nodes@[k] == old_nodes[k],
            reorder_in_children(v, from_id@, to_id@) == ({
                let rest = reorder_in_children(v.subrange(i as int, v.len() as int), from_id@, to_id@);
                (v.subrange(0, i as int) + rest.0, rest.1)
            }),
        decreases old_nodes.len() - i,
    {
        proof {
            lemma_level_split(v, i as int);
        }
        let ghost n = v[i as int];
        let ghost tail = v.subrange(i as int, v.len() as int);
        let ghost before = nodes@;
        let is_container = match &nodes[i] {
            BoardNode::Container { .. } => true,
            BoardNode::Widget { .. } => false,
        };
        if is_container {
            let found = match &mut nodes[i] {
                BoardNode::Container { children, .. } => {
                    proof {
                        assert(decreases_to!(old_nodes => old_nodes[i as int]));
                    }
                    reorder_siblings(children, from_id, to_id)
                },
                BoardNode::Widget { .. } => false,
            };
            proof {
                lemma_view_nodes(nodes@);
                assert(forall|k: int| 0 <= k < before.len() && k != i ==> nodes@[k] == before[k]);
            }
            if found {
                proof {
                    let inner = reorder_in(nv_children(n), from_id@, to_id@);
                    assert(view_node(nodes@[i as int]) == nv_with_children(n, inner.0));
                    assert(view_nodes(nodes@) =~= v.update(i as int, nv_with_children(n, inner.0)));
                    assert(v.subrange(0, i as int) + tail.update(0, nv_with_children(n, inner.0))
                        =~= v.update(i as int, nv_with_children(n, inner.0)));
                }
                return true;
            }
            proof {
                lemma_reorder_miss(nv_children(n), from_id@, to_id@);
                assert(view_node(nodes@[i as int]) == n);
            }
        }
        proof {
            let rest = reorder_in_children(v.subrange(i + 1, v.len() as int), from_id@, to_id@);
            assert(v.subrange(0, i as int) + (seq![n] + rest.0) =~= v.subrange(0, i + 1) + rest.0);
        }
        i += 1;
    }
    proof {
        assert(v.subrange(0, v.len() as int) =~= v);
        lemma_view_nodes(nodes@);
        assert(view_nodes(nodes@) =~= v);
        assert(v.subrange(v.len() as int, v.len() as int) =~= Seq::<NodeView>::empty());
        assert(v + Seq::<NodeView>::empty() =~= v);
    }
    false
}


// ---------------------------------------------------------------------------
// Placed widget kinds
// ---------------------------------------------------------------------------

/// The texts held by a list of strings, as a set.
pub open spec fn text_set(v: Seq<String>) -> Set<Seq<char>> {
    Set::new(|k: Seq<char>| exists|i: int| 0 <= i < v.len() && #[trigger] v[i]@ == k)
}

/// No text occurs twice in the list.
pub open spec fn distinct_texts(v: Seq<String>) -> bool {
    forall|i: int, j: int| 0 <= i < j < v.len() ==> #[trigger] v[i]@ != #[trigger] v[j]@
}

/// Adds `kind` to `acc` unless it is there already.
fn add_kind(acc: &mut Vec<String>, kind: &String)
    requires
        distinct_texts(old(acc)@),
    ensures
        distinct_texts(final(acc)@),
        text_set(final(acc)@) == text_set(old(acc)@).insert(kind@),
{
    let mut i: usize = 0;
    while i < acc.len()
        invariant
            i <= acc@.len(),
            acc@ == old(acc)@,
            distinct_texts(acc@),
            forall|j: int| 0 <= j < i ==> #[trigger] acc@[j]@ != kind@,
        decreases acc@.len() - i,
    {
        if str_eq(acc[i].as_str(), kind.as_str()) {
            proof {
                assert(text_set(acc@).contains(kind@)) by {
                    assert(acc@[i as int]@ == kind@);
                }
                assert(text_set(acc@).insert(kind@) =~= text_set(acc@));
            }
            return;
        }
        i += 1;
    }
    let ghost before = acc@;
    acc.push(kind.clone());
    proof {
        assert(acc@[before.len() as int]@ == kind@);
        assert forall|k: Seq<char>| #[trigger] text_set(acc@).contains(k) == text_set(before).insert(kind@).contains(k) by {
            if text_set(before).contains(k) {
                let j = choose|j: int| 0 <= j < before.len() && #[trigger] before[j]@ == k;
                assert(acc@[j]@ == k);
            }
            if text_set(acc@).contains(k) {
                let j = choose|j: int| 0 <= j < acc@.len() && #[trigger] acc@[j]@ == k;
                if j < before.len() {
                    assert(before[j]@ == k);
                }
            }
        }
        assert(text_set(acc@) =~= text_set(before).insert(kind@));
    }
}

/// Adds the kinds of all widgets under `nodes` to `acc`.
fn walk_kinds(nodes: &[BoardNode], acc: &mut Vec<String>)
    requires
        distinct_texts(old(acc)@),
    ensures
        distinct_texts(final(acc)@),
        text_set(final(acc)@) == text_set(old(acc)@) + placed_kinds(view_nodes(nodes@)),
    decreases nodes@,
{
    let ghost v = view_nodes(nodes@);
    let ghost start = text_set(acc@);
    proof {
        lemma_view_nodes(nodes@);
        assert(v.subrange(0, v.len() as int) == v);
        assert(start + placed_kinds(v) =~= text_set(acc@) + placed_kinds(v));
    }
    let mut i: usize = 0;
    while i < nodes.len()
        invariant
            i <= nodes@.len(),
            v == view_nodes(nodes@),
            v.len() == nodes@.len(),
            forall|k: int| 0 <= k < nodes@.len() ==> #[trigger] v[k] == view_node(nodes@[k]),
            distinct_texts(acc@),
            text_set(acc@) + placed_kinds(v.subrange(i as int, v.len() as int)) == start
                + placed_kinds(v),
        decreases nodes@.len() - i,
    {
        proof {
            lemma_level_split(v, i as int);
        }
        let ghost here = text_set(acc@);
        let ghost rest = placed_kinds(v.subrange(i + 1, v.len() as int));
        match &nodes[i] {
            BoardNode::Widget { kind, .. } => {
                add_kind(acc, kind);
                proof {
                    assert(text_set(acc@) + rest =~= here + placed_kinds(
                        v.subrange(i as int, v.len() as int),
                    ));
                }
            },
            BoardNode::Container { children, .. } => {
                proof {
                    assert(decreases_to!(nodes@ => nodes@[i as int]));
                }
                walk_kinds(children.as_slice(), acc);
                proof {
                    assert(text_set(acc@) + rest =~= here + placed_kinds(
                        v.subrange(i as int, v.len() as int),
                    ));
                }
            },
        }
        i += 1;
    }
    proof {
        assert(placed_kinds(v.subrange(v.len() as int, v.len() as int)) =~= Set::<Seq<char>>::empty()) by {
            assert(v.subrange(v.len() as int, v.len() as int).len() == 0);
        }
        assert(text_set(acc@) + Set::<Seq<char>>::empty() =~= text_set(acc@));
    }
}

/// The kinds of the widgets placed on the board, each once, in the order in
/// which a depth-first walk meets them first.
pub fn collect_placed_kinds(layout: &DashboardLayout) -> (r: Vec<String>)
    ensures
        distinct_texts(r@),
        text_set(r@) == placed_kinds(view_nodes(layout.nodes@)),
{
    let mut acc: Vec<String> = Vec::new();
    proof {
        assert(text_set(acc@) =~= Set::<Seq<char>>::empty());
    }
    walk_kinds(layout.nodes.as_slice(), &mut acc);
    proof {
        assert(Set::<Seq<char>>::empty() + placed_kinds(view_nodes(layout.nodes@)) =~= placed_kinds(
            view_nodes(layout.nodes@),
        ));
    }
    acc
}


// ---------------------------------------------------------------------------
// Fresh node ids
// ---------------------------------------------------------------------------

/// All ids carried by the tree.
pub open spec fn id_set(s: Seq<NodeView>) -> Set<Seq<char>>
    decreases s,
{
    if s.len() == 0 {
        Set::empty()
    } else {
        let inner = match s[0] {
            NodeView::Widget { .. } => Set::empty(),
            NodeView::Container { children, .. } => id_set(children),
        };
        set![nv_id(s[0])] + inner + id_set(s.drop_first())
    }
}

/// The ids of a tree form a finite set no larger than its number of nodes,
/// and an id is in it exactly when the depth-first search finds it.
pub proof fn lemma_id_set(s: Seq<NodeView>)
    ensures
        id_set(s).finite(),
        id_set(s).len() <= count(s),
        forall|x: Seq<char>| #[trigger] id_set(s).contains(x) == (find_first(s, x) is Some),
    decreases s,
{
    if s.len() > 0 {
        let n = s[0];
        let inner = match n {
            NodeView::Widget { .. } => Set::<Seq<char>>::empty(),
            NodeView::Container { children, .. } => id_set(children),
        };
        let inner_count: nat = match n {
            NodeView::Widget { .. } => 0,
            NodeView::Container { children, .. } => count(children),
        };
        if let NodeView::Container { children, .. } = n {
            assert(decreases_to!(s => s[0]));
            lemma_id_set(children);
        }
        lemma_id_set(s.drop_first());
        vstd::set_lib::lemma_len_union(set![nv_id(n)], inner);
        vstd::set_lib::lemma_len_union(set![nv_id(n)] + inner, id_set(s.drop_first()));
        assert(set![nv_id(n)].len() == 1) by {
            assert(set![nv_id(n)] =~= Set::<Seq<char>>::empty().insert(nv_id(n)));
        }
        assert(inner.len() <= inner_count);
    }
}

/// The id `prefix-k` that a new node may get.
pub open spec fn node_id_candidate(prefix: Seq<char>, k: nat) -> Seq<char> {
    prefix + seq!['-'] + decimal(k)
}

proof fn lemma_candidate_injective(prefix: Seq<char>, a: nat, b: nat)
    requires
        node_id_candidate(prefix, a) == node_id_candidate(prefix, b),
    ensures
        a == b,
{
    let ca = node_id_candidate(prefix, a);
    let cb = node_id_candidate(prefix, b);
    let p = prefix.len() + 1;
    assert(ca.subrange(p as int, ca.len() as int) =~= decimal(a));
    assert(cb.subrange(p as int, cb.len() as int) =~= decimal(b));
    lemma_decimal_injective(a, b);
}

/// If every candidate from `start` through `n` is taken, the tree has at
/// least that many nodes.
proof fn lemma_taken_candidates(v: Seq<NodeView>, prefix: Seq<char>, start: nat, n: nat)
    requires
        start <= n,
        forall|j: nat| start <= j <= n ==> #[trigger] contains_id(v, node_id_candidate(prefix, j)),
    ensures
        n + 1 - start <= count(v),
{
    let f = |j: int| node_id_candidate(prefix, j as nat);
    let range = vstd::set_lib::set_int_range(start as int, (n + 1) as int);
    let taken = range.map(f);
    vstd::set_lib::lemma_int_range(start as int, (n + 1) as int);
    assert(vstd::relations::injective_on(f, range)) by {
        assert forall|x1: int, x2: int|
            range.contains(x1) && range.contains(x2) && #[trigger] f(x1) == #[trigger] f(x2) implies x1
            == x2 by {
            lemma_candidate_injective(prefix, x1 as nat, x2 as nat);
        }
    }
    vstd::set_lib::lemma_map_size(range, taken, f);
    lemma_id_set(v);
    assert(taken.subset_of(id_set(v))) by {
        assert forall|x: Seq<char>| taken.contains(x) implies id_set(v).contains(x) by {
            let j = choose|j: int| range.contains(j) && x == f(j);
            assert(contains_id(v, node_id_candidate(prefix, j as nat)));
        }
    }
    vstd::set_lib::lemma_len_subset(taken, id_set(v));
}

/// `prefix-n` as a string.
fn candidate_string(prefix: &str, n: usize) -> (r: String)
    ensures
        r@ == node_id_candidate(prefix@, n as nat),
{
    let mut s = owned(prefix);
    push_char(&mut s, '-');
    push_decimal(&mut s, n as u64);
    proof {
        assert(prefix@.push('-') == prefix@ + seq!['-']);
    }
    s
}

/// A fresh id for a new node: `prefix-n` for the first `n`, counting from one
/// past the number of nodes on the board, that no node carries yet.
pub fn next_node_id(prefix: &str, layout: &DashboardLayout) -> (r: String)
    requires
        count(view_nodes(layout.nodes@)) < usize::MAX / 2,
    ensures
        !contains_id(view_nodes(layout.nodes@), r@),
        exists|k: nat|
            count(view_nodes(layout.nodes@)) + 1 <= k && r@ == node_id_candidate(prefix@, k) && forall|
                j: nat,
            |
                count(view_nodes(layout.nodes@)) + 1 <= j < k ==> #[trigger] contains_id(
                    view_nodes(layout.nodes@),
                    node_id_candidate(prefix@, j),
                ),
{
    let ghost v = view_nodes(layout.nodes@);
    let total = layout.total_nodes();
    let start = total + 1;
    let mut n = start;
    loop
        invariant
            v == view_nodes(layout.nodes@),
            count(v) < usize::MAX / 2,
            total == count(v),
            start == total + 1,
            start <= n <= start + count(v),
            forall|j: nat| start <= j < n ==> #[trigger] contains_id(v, node_id_candidate(prefix@, j)),
        decreases start + count(v) - n,
    {
        let candidate = candidate_string(prefix, n);
        if !id_exists(layout.nodes.as_slice(), candidate.as_str()) {
            return candidate;
        }
        proof {
            lemma_taken_candidates(v, prefix@, start as nat, n as nat);
        }
        n = n + 1;
    }
}


// ---------------------------------------------------------------------------
// What the edits keep
// ---------------------------------------------------------------------------

/// Node counts and id sets add up over concatenation.
pub proof fn lemma_append(a: Seq<NodeView>, b: Seq<NodeView>)
    ensures
        count(a + b) == count(a) + count(b),
        id_set(a + b) == id_set(a) + id_set(b),
    decreases a.len(),
{
    if a.len() == 0 {
        assert(a + b =~= b);
        assert(id_set(a) + id_set(b) =~= id_set(b));
    } else {
        assert((a + b)[0] == a[0]);
        assert((a + b).drop_first() =~= a.drop_first() + b);
        lemma_append(a.drop_first(), b);
        let n = a[0];
        let inner = match n {
            NodeView::Widget { .. } => Set::<Seq<char>>::empty(),
            NodeView::Container { children, .. } => id_set(children),
        };
        assert(set![nv_id(n)] + inner + (id_set(a.drop_first()) + id_set(b)) =~= (set![nv_id(n)]
            + inner + id_set(a.drop_first())) + id_set(b));
    }
}

proof fn lemma_update_first(s: Seq<NodeView>, x: NodeView)
    requires
        s.len() > 0,
    ensures
        s.update(0, x)[0] == x,
        s.update(0, x).drop_first() == s.drop_first(),
{
    assert(s.update(0, x).drop_first() =~= s.drop_first());
}

/// Setting a span keeps every node and every id of the board.
pub proof fn set_span_keeps_nodes(s: Seq<NodeView>, id: Seq<char>, span: u8)
    ensures
        count(set_span_in(s, id, span).0) == count(s),
        id_set(set_span_in(s, id, span).0) == id_set(s),
    decreases s,
{
    if s.len() > 0 {
        let n = s[0];
        if nv_id(n) == id {
            lemma_update_first(s, nv_with_span(n, span));
        } else {
            if let NodeView::Container { children, .. } = n {
                assert(decreases_to!(s => s[0]));
                set_span_keeps_nodes(children, id, span);
                lemma_update_first(s, nv_with_children(n, set_span_in(children, id, span).0));
            }
            set_span_keeps_nodes(s.drop_first(), id, span);
            let rest = set_span_in(s.drop_first(), id, span);
            assert((seq![n] + rest.0)[0] == n);
            assert((seq![n] + rest.0).drop_first() =~= rest.0);
        }
    }
}

/// After a span is set on a node of the board, the search for its id finds
/// that node with the new span.
pub proof fn set_span_then_find(s: Seq<NodeView>, id: Seq<char>, span: u8)
    requires
        contains_id(s, id),
    ensures
        find_first(set_span_in(s, id, span).0, id) == Some(nv_with_span(find_first(s, id)->0, span)),
        nv_span(find_first(set_span_in(s, id, span).0, id)->0) == span,
    decreases s,
{
    let n = s[0];
    if nv_id(n) == id {
        lemma_update_first(s, nv_with_span(n, span));
    } else {
        let inner = match n {
            NodeView::Widget { .. } => None,
            NodeView::Container { children, .. } => find_first(children, id),
        };
        if let NodeView::Container { children, .. } = n {
            assert(decreases_to!(s => s[0]));
            lemma_set_span_flag(children, id, span);
            if inner is Some {
                set_span_then_find(children, id, span);
                lemma_update_first(s, nv_with_children(n, set_span_in(children, id, span).0));
            }
        }
        if inner is None {
            lemma_set_span_flag(s.drop_first(), id, span);
            set_span_then_find(s.drop_first(), id, span);
            let rest = set_span_in(s.drop_first(), id, span);
            assert((seq![n] + rest.0)[0] == n);
            assert((seq![n] + rest.0).drop_first() =~= rest.0);
        }
    }
}

/// A node sequence is its prefix, the node at `k`, and its suffix.
proof fn lemma_split_at(s: Seq<NodeView>, k: int)
    requires
        0 <= k < s.len(),
    ensures
        s == s.subrange(0, k) + seq![s[k]] + s.subrange(k + 1, s.len() as int),
        s.remove(k) == s.subrange(0, k) + s.subrange(k + 1, s.len() as int),
{
    assert(s =~= s.subrange(0, k) + seq![s[k]] + s.subrange(k + 1, s.len() as int));
    assert(s.remove(k) =~= s.subrange(0, k) + s.subrange(k + 1, s.len() as int));
}

/// Moving a node within a level keeps every node and every id.
proof fn lemma_move_keeps_nodes(s: Seq<NodeView>, from: int, to: int)
    requires
        0 <= from < s.len(),
        0 <= to < s.len(),
    ensures
        count(move_within(s, from, to)) == count(s),
        id_set(move_within(s, from, to)) == id_set(s),
{
    let item = s[from];
    let rest = s.remove(from);
    let target = if from < to {
        to - 1
    } else {
        to
    };
    let at = if target < rest.len() {
        target
    } else {
        rest.len() as int
    };
    lemma_split_at(s, from);
    let a = s.subrange(0, from);
    let b = s.subrange(from + 1, s.len() as int);
    let one = seq![item];
    lemma_append(a + one, b);
    lemma_append(a, one);
    lemma_append(a, b);
    assert(move_within(s, from, to) == rest.insert(at, item));
    let c = rest.subrange(0, at);
    let d = rest.subrange(at, rest.len() as int);
    assert(rest.insert(at, item) =~= c + one + d);
    assert(rest =~= c + d);
    lemma_append(c + one, d);
    lemma_append(c, one);
    lemma_append(c, d);
    let ia = id_set(a);
    let ib = id_set(b);
    let ic = id_set(c);
    let id_ = id_set(d);
    let io = id_set(one);
    assert(id_set(s) == ia + io + ib);
    assert(id_set(rest) == ia + ib);
    assert(id_set(rest) == ic + id_);
    assert(id_set(rest.insert(at, item)) == ic + io + id_);
    assert(ic + io + id_ =~= (ic + id_) + io);
    assert(ia + io + ib =~= (ia + ib) + io);
}

/// Where a moved node lands: the place its sibling had, counted after the
/// moved node left the list.
pub open spec fn landing_index(from: int, to: int) -> int {
    if from < to {
        to - 1
    } else {
        to
    }
}

/// When both ids are siblings at this level, reordering moves the one node to
/// the place of the other, and the rest of the list keeps its order.
pub proof fn reorder_moves_one_sibling(s: Seq<NodeView>, from_id: Seq<char>, to_id: Seq<char>)
    requires
        from_id != to_id,
        top_index(s, from_id) is Some,
        top_index(s, to_id) is Some,
    ensures
        ({
            let f = top_index(s, from_id)->0;
            let t = top_index(s, to_id)->0;
            let r = reorder_in(s, from_id, to_id);
            &&& r.1
            &&& r.0.len() == s.len()
            &&& 0 <= landing_index(f, t) < s.len()
            &&& r.0[landing_index(f, t)] == s[f]
            &&& r.0.remove(landing_index(f, t)) == s.remove(f)
        }),
{
    lemma_top_index(s, from_id);
    lemma_top_index(s, to_id);
    let f = top_index(s, from_id)->0;
    let t = top_index(s, to_id)->0;
    assert(f != t);
    let rest = s.remove(f);
    let p = landing_index(f, t);
    assert(p < rest.len());
    let r = rest.insert(p, s[f]);
    assert(move_within(s, f, t) == r);
    assert(r.remove(p) =~= rest);
}

/// When the ids are not both at this level, reordering changes at most one
/// node of the level: the first container whose children it reorders, and in
/// it only its children.
pub proof fn reorder_changes_one_container(s: Seq<NodeView>, from_id: Seq<char>, to_id: Seq<char>)
    ensures
        ({
            let r = reorder_in_children(s, from_id, to_id);
            &&& !r.1 ==> r.0 == s
            &&& r.1 ==> exists|k: int|
                0 <= k < s.len() && (s[k] is Container) && (#[trigger] reorder_in(
                    nv_children(s[k]),
                    from_id,
                    to_id,
                )).1 && r.0 == s.update(
                    k,
                    nv_with_children(s[k], reorder_in(nv_children(s[k]), from_id, to_id).0),
                )
        }),
    decreases s.len(),
{
    if s.len() == 0 {
    } else {
        let n = s[0];
        let inner = match n {
            NodeView::Widget { .. } => (Seq::<NodeView>::empty(), false),
            NodeView::Container { children, .. } => reorder_in(children, from_id, to_id),
        };
        if inner.1 {
            assert(s[0] is Container);
            assert(nv_children(s[0]) == match n {
                NodeView::Container { children, .. } => children,
                NodeView::Widget { .. } => Seq::<NodeView>::empty(),
            });
        } else {
            reorder_changes_one_container(s.drop_first(), from_id, to_id);
            let rest = reorder_in_children(s.drop_first(), from_id, to_id);
            if !rest.1 {
                assert(seq![n] + rest.0 =~= s);
            } else {
                let d = s.drop_first();
                let k = choose|k: int|
                    0 <= k < d.len() && (d[k] is Container) && (#[trigger] reorder_in(
                        nv_children(d[k]),
                        from_id,
                        to_id,
                    )).1 && rest.0 == d.update(
                        k,
                        nv_with_children(d[k], reorder_in(nv_children(d[k]), from_id, to_id).0),
                    );
                assert(s[k + 1] == d[k]);
                assert(seq![n] + rest.0 =~= s.update(
                    k + 1,
                    nv_with_children(s[k + 1], reorder_in(nv_children(s[k + 1]), from_id, to_id).0),
                ));
            }
        }
    }
}

/// Reordering keeps every node and every id of the board.
pub proof fn reorder_keeps_nodes(s: Seq<NodeView>, from_id: Seq<char>, to_id: Seq<char>)
    ensures
        count(reorder_in(s, from_id, to_id).0) == count(s),
        id_set(reorder_in(s, from_id, to_id).0) == id_set(s),
    decreases s, 1nat,
{
    if from_id != to_id {
        match (top_index(s, from_id), top_index(s, to_id)) {
            (Some(f), Some(t)) => {
                lemma_top_index(s, from_id);
                lemma_top_index(s, to_id);
                lemma_move_keeps_nodes(s, f, t);
            },
            _ => {
                reorder_children_keeps_nodes(s, from_id, to_id);
            },
        }
    }
}

proof fn reorder_children_keeps_nodes(s: Seq<NodeView>, from_id: Seq<char>, to_id: Seq<char>)
    ensures
        count(reorder_in_children(s, from_id, to_id).0) == count(s),
        id_set(reorder_in_children(s, from_id, to_id).0) == id_set(s),
    decreases s, 0nat,
{
    if s.len() > 0 {
        let n = s[0];
        if let NodeView::Container { children, .. } = n {
            assert(decreases_to!(s => s[0]));
            reorder_keeps_nodes(children, from_id, to_id);
            lemma_update_first(s, nv_with_children(n, reorder_in(children, from_id, to_id).0));
        }
        reorder_children_keeps_nodes(s.drop_first(), from_id, to_id);
        let rest = reorder_in_children(s.drop_first(), from_id, to_id);
        assert((seq![n] + rest.0)[0] == n);
        assert((seq![n] + rest.0).drop_first() =~= rest.0);
    }
}

/// Removing a node takes at least one node off the board and adds no id.
pub proof fn remove_shrinks(s: Seq<NodeView>, id: Seq<char>)
    ensures
        remove_in(s, id).1 ==> count(remove_in(s, id).0) < count(s),
        id_set(remove_in(s, id).0).subset_of(id_set(s)),
    decreases s, 1nat,
{
    match top_index(s, id) {
        Some(k) => {
            lemma_top_index(s, id);
            lemma_split_at(s, k);
            let a = s.subrange(0, k);
            let b = s.subrange(k + 1, s.len() as int);
            lemma_append(a + seq![s[k]], b);
            lemma_append(a, seq![s[k]]);
            lemma_append(a, b);
            assert(seq![s[k]].drop_first() =~= Seq::<NodeView>::empty());
        },
        None => {
            remove_children_shrinks(s, id);
        },
    }
}

proof fn remove_children_shrinks(s: Seq<NodeView>, id: Seq<char>)
    ensures
        remove_in_children(s, id).1 ==> count(remove_in_children(s, id).0) < count(s),
        id_set(remove_in_children(s, id).0).subset_of(id_set(s)),
    decreases s, 0nat,
{
    if s.len() > 0 {
        let n = s[0];
        if let NodeView::Container { children, .. } = n {
            assert(decreases_to!(s => s[0]));
            remove_shrinks(children, id);
            lemma_update_first(s, nv_with_children(n, remove_in(children, id).0));
        }
        remove_children_shrinks(s.drop_first(), id);
        let rest = remove_in_children(s.drop_first(), id);
        assert((seq![n] + rest.0)[0] == n);
        assert((seq![n] + rest.0).drop_first() =~= rest.0);
    }
}


// ---------------------------------------------------------------------------
// Adding widgets
// ---------------------------------------------------------------------------

/// A widget kind that may be placed once is offered only while it is not on
/// the board.
pub fn widget_already_placed(placed: &Vec<String>, kind: &str, allows_multiple: bool) -> (r: bool)
    ensures
        r == (!allows_multiple && text_set(placed@).contains(kind@)),
{
    if allows_multiple {
        return false;
    }
    let mut i: usize = 0;
    while i < placed.len()
        invariant
            i <= placed@.len(),
            !allows_multiple,
            forall|k: int| 0 <= k < i ==> #[trigger] placed@[k]@ != kind@,
        decreases placed@.len() - i,
    {
        if str_eq(placed[i].as_str(), kind) {
            proof {
                assert(placed@[i as int]@ == kind@);
            }
            return true;
        }
        i += 1;
    }
    false
}

/// Appends a new widget of `kind` at the end of the board under a fresh id
/// (`<kind>-<n>` with the least free `n` past the node count, as
/// `next_node_id` picks it), and returns that id. A notes widget starts with
/// an empty note; `http_mode` and `bind` are the display mode and binding the
/// widget kind starts with.
pub fn add_widget_node(
    layout: &mut DashboardLayout,
    kind: &str,
    col_span: u8,
    is_notes: bool,
    source_id: Option<String>,
    http_mode: &str,
    bind: &str,
) -> (r: String)
    requires
        count(view_nodes(old(layout).nodes@)) < usize::MAX / 2,
    ensures
        !contains_id(view_nodes(old(layout).nodes@), r@),
        final(layout).version == old(layout).version,
        view_nodes(final(layout).nodes@) == view_nodes(old(layout).nodes@).push(
            NodeView::Widget {
                id: r@,
                kind: kind@,
                col_span,
                note_text: if is_notes {
                    Some(Seq::<char>::empty())
                } else {
                    None
                },
                source_id: opt_text(source_id),
                http_mode: http_mode@,
                bind: bind@,
            },
        ),
        exists|k: nat|
            count(view_nodes(old(layout).nodes@)) + 1 <= k && r@ == node_id_candidate(kind@, k)
                && forall|j: nat|
                count(view_nodes(old(layout).nodes@)) + 1 <= j < k ==> #[trigger] contains_id(
                    view_nodes(old(layout).nodes@),
                    node_id_candidate(kind@, j),
                ),
{
    let id = next_node_id(kind, layout);
    let node = BoardNode::Widget {
        id: owned(id.as_str()),
        kind: owned(kind),
        col_span,
        note_text: if is_notes {
            Some(String::new())
        } else {
            None
        },
        source_id,
        http_mode: owned(http_mode),
        bind: owned(bind),
    };
    let ghost before = layout.nodes@;
    layout.nodes.push(node);
    proof {
        lemma_view_nodes(before);
        lemma_view_nodes(layout.nodes@);
        assert(view_nodes(layout.nodes@) =~= view_nodes(before).push(view_node(node)));
    }
    id
}

/// Placed kinds of two boards laid end to end.
proof fn lemma_placed_kinds_append(a: Seq<NodeView>, b: Seq<NodeView>)
    ensures
        placed_kinds(a + b) == placed_kinds(a) + placed_kinds(b),
    decreases a.len(),
{
    if a.len() == 0 {
        assert(a + b =~= b);
        assert(placed_kinds(a) + placed_kinds(b) =~= placed_kinds(b));
    } else {
        assert((a + b)[0] == a[0]);
        assert((a + b).drop_first() =~= a.drop_first() + b);
        lemma_placed_kinds_append(a.drop_first(), b);
        let here = match a[0] {
            NodeView::Widget { kind, .. } => set![kind],
            NodeView::Container { children, .. } => placed_kinds(children),
        };
        assert(here + (placed_kinds(a.drop_first()) + placed_kinds(b)) =~= (here + placed_kinds(
            a.drop_first(),
        )) + placed_kinds(b));
    }
}

/// Adding a widget to the end of a board adds its kind to the placed kinds
/// and nothing else.
pub proof fn placed_kinds_after_adding(
    v: Seq<NodeView>,
    id: Seq<char>,
    kind: Seq<char>,
    col_span: u8,
    note_text: Option<Seq<char>>,
    source_id: Option<Seq<char>>,
    http_mode: Seq<char>,
    bind: Seq<char>,
)
    ensures
        placed_kinds(
            v.push(NodeView::Widget { id, kind, col_span, note_text, source_id, http_mode, bind }),
        ) == placed_kinds(v).insert(kind),
{
    let w = NodeView::Widget { id, kind, col_span, note_text, source_id, http_mode, bind };
    lemma_placed_kinds_append(v, seq![w]);
    assert(v.push(w) =~= v + seq![w]);
    assert(seq![w].drop_first() =~= Seq::<NodeView>::empty());
    assert(seq![w][0] == w);
    assert(placed_kinds(Seq::<NodeView>::empty()) == Set::<Seq<char>>::empty());
    assert(placed_kinds(seq![w].drop_first()) == Set::<Seq<char>>::empty());
    assert(placed_kinds(seq![w]) =~= set![kind] + Set::<Seq<char>>::empty());
    assert(placed_kinds(v) + placed_kinds(seq![w]) =~= placed_kinds(v).insert(kind));
}

/// "Add to board" in the widget catalog: a kind that may be placed once and
/// is on the board already adds nothing; otherwise the widget is appended as
/// `add_widget_node` appends it, and its kind is then on the board, so the
/// next click for a single-instance kind adds nothing.
pub fn add_catalog_widget(
    layout: &mut DashboardLayout,
    kind: &str,
    allows_multiple: bool,
    col_span: u8,
    is_notes: bool,
    source_id: Option<String>,
    http_mode: &str,
    bind: &str,
) -> (r: Option<String>)
    requires
        count(view_nodes(old(layout).nodes@)) < usize::MAX / 2,
    ensures
        r is None <==> (!allows_multiple && placed_kinds(view_nodes(old(layout).nodes@)).contains(
            kind@,
        )),
        final(layout).version == old(layout).version,
        r is None ==> view_nodes(final(layout).nodes@) == view_nodes(old(layout).nodes@),
        r matches Some(id) ==> {
            &&& !contains_id(view_nodes(old(layout).nodes@), id@)
            &&& view_nodes(final(layout).nodes@) == view_nodes(old(layout).nodes@).push(
                NodeView::Widget {
                    id: id@,
                    kind: kind@,
                    col_span,
                    note_text: if is_notes {
                        Some(Seq::<char>::empty())
                    } else {
                        None
                    },
                    source_id: opt_text(source_id),
                    http_mode: http_mode@,
                    bind: bind@,
                },
            )
            &&& placed_kinds(view_nodes(final(layout).nodes@)) == placed_kinds(
                view_nodes(old(layout).nodes@),
            ).insert(kind@)
            &&& exists|k: nat|
                count(view_nodes(old(layout).nodes@)) + 1 <= k && id@ == node_id_candidate(kind@, k)
                    && forall|j: nat|
                    count(view_nodes(old(layout).nodes@)) + 1 <= j < k ==> #[trigger] contains_id(
                        view_nodes(old(layout).nodes@),
                        node_id_candidate(kind@, j),
                    )
        },
{
    let placed = collect_placed_kinds(layout);
    if widget_already_placed(&placed, kind, allows_multiple) {
        return None;
    }
    let ghost before = view_nodes(layout.nodes@);
    let ghost src = opt_text(source_id);
    let id = add_widget_node(layout, kind, col_span, is_notes, source_id, http_mode, bind);
    proof {
        placed_kinds_after_adding(
            before,
            id@,
            kind@,
            col_span,
            if is_notes {
                Some(Seq::<char>::empty())
            } else {
                None
            },
            src,
            http_mode@,
            bind@,
        );
    }
    Some(id)
}

/// The id the board gives a new container: `c-row-<n>` or `c-stack-<n>`,
/// numbered after the nodes already on the board.
pub open spec fn container_id_spec(kind: BoardContainerKind, total: nat) -> Seq<char> {
    match kind {
        BoardContainerKind::Row => "c-row-"@ + decimal(total + 1),
        BoardContainerKind::Stack => "c-stack-"@ + decimal(total + 1),
    }
}

/// Appends an empty container to the end of the board, as the catalog's
/// "Add row" (full width) and "Add stack" (half width) buttons do, and
/// returns its id.
pub fn add_container_node(layout: &mut DashboardLayout, kind: BoardContainerKind) -> (r: String)
    requires
        count(view_nodes(old(layout).nodes@)) < usize::MAX,
    ensures
        r@ == container_id_spec(kind, count(view_nodes(old(layout).nodes@))),
        final(layout).version == old(layout).version,
        view_nodes(final(layout).nodes@) == view_nodes(old(layout).nodes@).push(
            NodeView::Container {
                id: r@,
                kind,
                col_span: match kind {
                    BoardContainerKind::Row => 12u8,
                    BoardContainerKind::Stack => 6u8,
                },
                children: Seq::empty(),
            },
        ),
{
    let total = layout.total_nodes();
    let (prefix, span): (&str, u8) = match kind {
        BoardContainerKind::Row => ("c-row-", 12),
        BoardContainerKind::Stack => ("c-stack-", 6),
    };
    let mut id = owned(prefix);
    push_decimal(&mut id, (total + 1) as u64);
    let node = BoardNode::Container {
        id: owned(id.as_str()),
        kind,
        col_span: span,
        children: Vec::new(),
    };
    let ghost before = layout.nodes@;
    layout.nodes.push(node);
    proof {
        lemma_view_nodes(before);
        lemma_view_nodes(layout.nodes@);
        assert(view_nodes(Seq::<BoardNode>::empty()) =~= Seq::<NodeView>::empty());
        assert(view_nodes(layout.nodes@) =~= view_nodes(before).push(view_node(node)));
    }
    id
}

/// The dashboard's heading: the workspace's label (or "Workspace") when a
/// workspace is selected, else "Dashboard".
pub fn board_heading(has_tenant: bool, tenant_label: &Option<String>) -> (r: String)
    ensures
        r@ == if !has_tenant {
            "Dashboard"@
        } else {
            match tenant_label {
                Some(l) => l@,
                None => "Workspace"@,
            }
        },
{
    if !has_tenant {
        return owned("Dashboard");
    }
    match tenant_label {
        Some(l) => owned(l.as_str()),
        None => owned("Workspace"),
    }
}

/// The source a new query-bound widget starts bound to: the first data
/// source, else the first saved query, else none.
pub fn default_widget_source(data_source_ids: &Vec<String>, query_ids: &Vec<String>) -> (r: Option<
    String,
>)
    ensures
        opt_text(r) == if data_source_ids@.len() > 0 {
            Some(data_source_ids@[0]@)
        } else if query_ids@.len() > 0 {
            Some(query_ids@[0]@)
        } else {
            None
        },
{
    if data_source_ids.len() > 0 {
        Some(owned(data_source_ids[0].as_str()))
    } else if query_ids.len() > 0 {
        Some(owned(query_ids[0].as_str()))
    } else {
        None
    }
}

} // verus!
