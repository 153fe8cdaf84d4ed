//! The game's UI tree, as far as the mod reads and changes it: node ids,
//! visibility flags and children.
use vstd::prelude::*;

verus! {

/// A node of the UI tree.
pub struct UiNode {
    pub id: String,
    pub visible: bool,
    pub children: Vec<UiNode>,
}

/// The mathematical model of a UI node.
pub struct NodeView {
    pub id: Seq<char>,
    pub visible: bool,
    pub children: Seq<NodeView>,
}

pub open spec fn view_children(cs: Seq<UiNode>) -> Seq<NodeView>
    decreases cs,
{
    Seq::new(
        cs.len(),
        |i: int|
            if 0 <= i < cs.len() {
                view_node(cs[i])
            } else {
                NodeView { id: seq![], visible: false, children: seq![] }
            },
    )
}

pub open spec fn view_node(n: UiNode) -> NodeView
    decreases n,
{
    NodeView { id: n.id@, visible: n.visible, children: view_children(n.children@) }
}


impl View for UiNode {
    type V = NodeView;

    open spec fn view(&self) -> NodeView {
        view_node(*self)
    }
}

/// Path (child indices from `n`) to the first node in pre-order whose id is `id`.
pub open spec fn find_path(n: NodeView, id: Seq<char>) -> Option<Seq<int>>
    decreases n, 0int,
{
    if n.id == id {
        Some(seq![])
    } else {
        find_path_in(n.children, id, 0)
    }
}

/// `find_path` over the children `cs[i..]`, each path starting with its child's index.
pub open spec fn find_path_in(cs: Seq<NodeView>, id: Seq<char>, i: int) -> Option<Seq<int>>
    decreases cs, cs.len() - i,
{
    if i < 0 || i >= cs.len() {
        None
    } else {
        match find_path(cs[i], id) {
            Some(p) => Some(seq![i] + p),
            None => find_path_in(cs, id, i + 1),
        }
    }
}

/// Path to the first node in pre-order whose id is `id`, descending only through
/// visible nodes; a node counts as visible when it and all its ancestors are.
/// A node with that id that is hidden yields nothing from its own subtree (its
/// children are not searched); the search goes on with the nodes after it.
pub open spec fn find_visible_path(n: NodeView, id: Seq<char>, ancestors_visible: bool) -> Option<
    Seq<int>,
>
    decreases n, 0int,
{
    let visible = ancestors_visible && n.visible;
    if n.id == id {
        if visible {
            Some(seq![])
        } else {
            None
        }
    } else if !visible {
        None
    } else {
        find_visible_path_in(n.children, id, 0)
    }
}

pub open spec fn find_visible_path_in(cs: Seq<NodeView>, id: Seq<char>, i: int) -> Option<Seq<int>>
    decreases cs, cs.len() - i,
{
    if i < 0 || i >= cs.len() {
        None
    } else {
        match find_visible_path(cs[i], id, true) {
            Some(p) => Some(seq![i] + p),
            None => find_visible_path_in(cs, id, i + 1),
        }
    }
}

pub open spec fn as_int_path(p: Seq<usize>) -> Seq<int> {
    p.map_values(|x: usize| x as int)
}

proof fn lemma_prepend_path(i: usize, p: Seq<usize>)
    ensures
        as_int_path(seq![i] + p) == seq![i as int] + as_int_path(p),
{
    assert(as_int_path(seq![i] + p) =~= seq![i as int] + as_int_path(p));
}

proof fn lemma_child_view(n: UiNode, i: int)
    requires
        0 <= i < n.children@.len(),
    ensures
        view_node(n).children.len() == n.children@.len(),
        view_node(n).children[i] == view_node(n.children@[i]),
{
}

/// Path to the first node (in pre-order) whose id is `id`.
pub fn find_node(node: &UiNode, id: &String) -> (r: Option<Vec<usize>>)
    ensures
        match r {
            Some(p) => find_path(node@, id@) == Some(as_int_path(p@)),
            None => find_path(node@, id@) is None,
        },
    decreases node,
{
    if node.id == *id {
        let p: Vec<usize> = Vec::new();
        assert(as_int_path(p@) =~= seq![]);
        return Some(p);
    }
    let n = node.children.len();
    let mut i: usize = 0;
    while i < n
        invariant
            i <= n,
            n == node.children@.len(),
            node.id@ != id@,
            find_path(node@, id@) == find_path_in(node@.children, id@, i as int),
        decreases n - i,
    {
        proof {
            lemma_child_view(*node, i as int);
        }
        assert(decreases_to!(*node => node.children@[i as int]));
        match find_node(&node.children[i], id) {
            Some(p) => {
                let mut p = p;
                let ghost old_p = p@;
                p.insert(0, i);
                proof {
                    assert(p@ =~= seq![i] + old_p);
                    lemma_prepend_path(i, old_p);
                }
                return Some(p);
            },
            None => {},
        }
        i = i + 1;
    }
    None
}


/// Path to the first node with id `id` in pre-order, searching only through
/// visible nodes (see `find_visible_path`).
pub fn find_visible_node(node: &UiNode, id: &String, ancestors_visible: bool) -> (r: Option<
    Vec<usize>,
>)
    ensures
        match r {
            Some(p) => find_visible_path(node@, id@, ancestors_visible) == Some(as_int_path(p@)),
            None => find_visible_path(node@, id@, ancestors_visible) is None,
        },
    decreases node,
{
    let visible = ancestors_visible && node.visible;
    if node.id == *id {
        if visible {
            let p: Vec<usize> = Vec::new();
            assert(as_int_path(p@) =~= seq![]);
            return Some(p);
        }
        return None;
    }
    if !visible {
        return None;
    }
    let n = node.children.len();
    let mut i: usize = 0;
    while i < n
        invariant
            i <= n,
            n == node.children@.len(),
            find_visible_path(node@, id@, ancestors_visible) == find_visible_path_in(
                node@.children,
                id@,
                i as int,
            ),
        decreases n - i,
    {
        proof {
            lemma_child_view(*node, i as int);
        }
        assert(decreases_to!(*node => node.children@[i as int]));
        match find_visible_node(&node.children[i], id, true) {
            Some(p) => {
                let mut p = p;
                let ghost old_p = p@;
                p.insert(0, i);
                proof {
                    assert(p@ =~= seq![i] + old_p);
                    lemma_prepend_path(i, old_p);
                }
                return Some(p);
            },
            None => {},
        }
        i = i + 1;
    }
    None
}

/// Is the node with id `id` shown: found by `find_visible_path` from the root?
pub fn node_is_visible(node: &UiNode, id: &str) -> (b: bool)
    ensures
        b == find_visible_path(node@, id@, true) is Some,
{
    let id = id.to_owned();
    find_visible_node(node, &id, true).is_some()
}

/// The tree with the first node (in pre-order) whose id is `id` shown or hidden,
/// and whether there was such a node.
pub open spec fn set_visible(n: NodeView, id: Seq<char>, visible: bool) -> (NodeView, bool)
    decreases n, 0int,
{
    if n.id == id {
        (NodeView { visible, ..n }, true)
    } else {
        let (cs, found) = set_visible_in(n.children, id, visible, 0);
        (NodeView { children: cs, ..n }, found)
    }
}

pub open spec fn set_visible_in(cs: Seq<NodeView>, id: Seq<char>, visible: bool, i: int) -> (
    Seq<NodeView>,
    bool,
)
    decreases cs, cs.len() - i,
{
    if i < 0 || i >= cs.len() {
        (cs, false)
    } else {
        let (c, found) = set_visible(cs[i], id, visible);
        if found {
            (cs.update(i, c), true)
        } else {
            set_visible_in(cs, id, visible, i + 1)
        }
    }
}

/// Shows or hides the first node (in pre-order) whose id is `id`; tells whether there was one.
pub fn set_node_visible(node: &mut UiNode, id: &String, visible: bool) -> (found: bool)
    ensures
        (final(node)@, found) == set_visible(old(node)@, id@, visible),
    decreases old(node)@,
{
    if node.id == *id {
        node.visible = visible;
        proof {
            assert(view_node(*node).children =~= view_node(*old(node)).children);
        }
        return true;
    }
    let n = node.children.len();
    let mut i: usize = 0;
    while i < n
        invariant
            i <= n,
            n == node.children@.len(),
            node@ == old(node)@,
            set_visible(old(node)@, id@, visible) == ({
                let (cs, found) = set_visible_in(old(node)@.children, id@, visible, i as int);
                (NodeView { children: cs, ..old(node)@ }, found)
            }),
        decreases n - i,
    {
        proof {
            lemma_child_view(*node, i as int);
        }
        let ghost before = *node;
        let mut child = node.children.remove(i);
        assert(child@ == old(node)@.children[i as int]);
        assert(decreases_to!(old(node)@ => child@));
        let found = set_node_visible(&mut child, id, visible);
        node.children.insert(i, child);
        assert(node.children@ =~= before.children@.update(i as int, child));
        if found {
            proof {
                assert(view_node(*node).children =~= view_node(*old(node)).children.update(
                    i as int,
                    view_node(child),
                ));
            }
            return true;
        }
        proof {
            lemma_set_visible_unchanged(old(node)@.children[i as int], id@, visible);
            assert(view_node(*node).children =~= view_node(before).children);
        }
        i = i + 1;
    }
    false
}

/// When no node has the id, nothing changes.
proof fn lemma_set_visible_unchanged(n: NodeView, id: Seq<char>, visible: bool)
    ensures
        !set_visible(n, id, visible).1 ==> set_visible(n, id, visible).0 == n,
    decreases n, 0int,
{
    if n.id != id {
        lemma_set_visible_in_unchanged(n.children, id, visible, 0);
    }
}

proof fn lemma_set_visible_in_unchanged(cs: Seq<NodeView>, id: Seq<char>, visible: bool, i: int)
    ensures
        !set_visible_in(cs, id, visible, i).1 ==> set_visible_in(cs, id, visible, i).0 == cs,
    decreases cs, cs.len() - i,
{
    if 0 <= i < cs.len() {
        lemma_set_visible_unchanged(cs[i], id, visible);
        lemma_set_visible_in_unchanged(cs, id, visible, i + 1);
    }
}

/// The visibility flag of the first node in pre-order whose id is `id`, if there is one.
pub open spec fn shown(n: NodeView, id: Seq<char>) -> Option<bool>
    decreases n, 0int,
{
    if n.id == id {
        Some(n.visible)
    } else {
        shown_in(n.children, id, 0)
    }
}

/// `shown` over the children `cs[i..]`.
pub open spec fn shown_in(cs: Seq<NodeView>, id: Seq<char>, i: int) -> Option<bool>
    decreases cs, cs.len() - i,
{
    if i < 0 || i >= cs.len() {
        None
    } else {
        match shown(cs[i], id) {
            Some(v) => Some(v),
            None => shown_in(cs, id, i + 1),
        }
    }
}

proof fn lemma_set_visible_in_prefix(cs: Seq<NodeView>, id: Seq<char>, visible: bool, j: int)
    requires
        0 <= j,
    ensures
        set_visible_in(cs, id, visible, j).0.len() == cs.len(),
        forall|k: int| 0 <= k < j && k < cs.len() ==> #[trigger] set_visible_in(cs, id, visible, j).0[k] == cs[k],
    decreases cs.len() - j,
{
    if j < cs.len() {
        let (c, found) = set_visible(cs[j], id, visible);
        if !found {
            lemma_set_visible_in_prefix(cs, id, visible, j + 1);
        }
    }
}

proof fn lemma_shown_in_suffix(cs: Seq<NodeView>, ds: Seq<NodeView>, id: Seq<char>, j: int)
    requires
        0 <= j,
        cs.len() == ds.len(),
        forall|k: int| j <= k < cs.len() ==> #[trigger] cs[k] == ds[k],
    ensures
        shown_in(cs, id, j) == shown_in(ds, id, j),
    decreases cs.len() - j,
{
    if j < cs.len() {
        lemma_shown_in_suffix(cs, ds, id, j + 1);
    }
}

/// Setting the visibility of the first node with `id` finds a node exactly when
/// there is one, and that node then has the new visibility.
pub proof fn lemma_set_visible_shown(n: NodeView, id: Seq<char>, visible: bool)
    ensures
        set_visible(n, id, visible).1 == shown(n, id) is Some,
        shown(set_visible(n, id, visible).0, id) == (if shown(n, id) is Some {
            Some(visible)
        } else {
            None
        }),
    decreases n, 0int,
{
    if n.id != id {
        lemma_set_visible_in_shown(n.children, id, visible, 0);
    }
}

proof fn lemma_set_visible_in_shown(cs: Seq<NodeView>, id: Seq<char>, visible: bool, i: int)
    requires
        0 <= i,
    ensures
        set_visible_in(cs, id, visible, i).1 == shown_in(cs, id, i) is Some,
        shown_in(set_visible_in(cs, id, visible, i).0, id, i) == (if shown_in(cs, id, i) is Some {
            Some(visible)
        } else {
            None
        }),
    decreases cs, cs.len() - i,
{
    if i < cs.len() {
        lemma_set_visible_shown(cs[i], id, visible);
        let (c, found) = set_visible(cs[i], id, visible);
        if found {
            assert(cs.update(i, c)[i] == c);
        } else {
            lemma_set_visible_in_shown(cs, id, visible, i + 1);
            lemma_set_visible_in_prefix(cs, id, visible, i + 1);
            let r = set_visible_in(cs, id, visible, i + 1).0;
            assert(r[i] == cs[i]);
        }
    }
}

/// Setting the visibility of the first node with another id leaves what shows
/// for `id` as it was.
pub proof fn lemma_set_visible_other(n: NodeView, other: Seq<char>, id: Seq<char>, visible: bool)
    requires
        other != id,
    ensures
        shown(set_visible(n, other, visible).0, id) == shown(n, id),
    decreases n, 0int,
{
    if n.id != other {
        lemma_set_visible_in_other(n.children, other, id, visible, 0);
    }
}

proof fn lemma_set_visible_in_other(cs: Seq<NodeView>, other: Seq<char>, id: Seq<char>, visible: bool, i: int)
    requires
        other != id,
        0 <= i,
    ensures
        shown_in(set_visible_in(cs, other, visible, i).0, id, i) == shown_in(cs, id, i),
    decreases cs, cs.len() - i,
{
    if i < cs.len() {
        lemma_set_visible_other(cs[i], other, id, visible);
        let (c, found) = set_visible(cs[i], other, visible);
        if found {
            let r = cs.update(i, c);
            assert(r[i] == c);
            lemma_shown_in_suffix(r, cs, id, i + 1);
        } else {
            lemma_set_visible_in_other(cs, other, id, visible, i + 1);
            lemma_set_visible_in_prefix(cs, other, visible, i + 1);
            let r = set_visible_in(cs, other, visible, i + 1).0;
            assert(r[i] == cs[i]);
        }
    }
}

} // verus!
