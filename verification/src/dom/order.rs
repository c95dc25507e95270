//! Document order: where a node stands among its siblings, its chain of
//! ancestors, and which of two nodes comes first.

use vstd::prelude::*;

use crate::dom::tree::{DomTree, Node, NodeId};

verus! {

/// The chain of ancestors of `n`, root first and `n` last.
pub open spec fn path(dom: DomTree, n: NodeId) -> Seq<NodeId>
    decreases dom.depth(n),
{
    match dom.parent(n) {
        Some(p) => if dom.depth(p) < dom.depth(n) {
            path(dom, p).push(n)
        } else {
            seq![n]
        },
        None => seq![n],
    }
}

/// The topmost ancestor of `n`, `n` itself without a parent.
pub open spec fn root(dom: DomTree, n: NodeId) -> NodeId
    decreases dom.depth(n),
{
    match dom.parent(n) {
        Some(p) => if dom.depth(p) < dom.depth(n) {
            root(dom, p)
        } else {
            n
        },
        None => n,
    }
}

/// `a` is `b` or one of its ancestors, at most `hops` edges up.
pub open spec fn ancestor_within(dom: DomTree, a: NodeId, b: NodeId, hops: nat) -> bool
    decreases hops,
{
    a == b || (hops > 0 && match dom.parent(b) {
        Some(p) => ancestor_within(dom, a, p, (hops - 1) as nat),
        None => false,
    })
}

/// `a` is `b` or one of its ancestors.
pub open spec fn inclusive_ancestor(dom: DomTree, a: NodeId, b: NodeId) -> bool {
    path(dom, b).contains(a)
}

/// The first index from `i` on at which `p` and `q` differ or one of them
/// ends.
pub open spec fn fork(p: Seq<NodeId>, q: Seq<NodeId>, i: int) -> int
    decreases p.len() - i,
{
    if 0 <= i < p.len() && i < q.len() && p[i] == q[i] {
        fork(p, q, i + 1)
    } else {
        i
    }
}

/// Document order of `a` against `b`: -1 before, 1 after, 0 the same node. An
/// ancestor comes before its descendants, and otherwise the positions of the
/// two branches under the last common ancestor decide. Nodes of different
/// trees are ordered by their identities.
pub open spec fn order(dom: DomTree, a: NodeId, b: NodeId) -> int {
    let p: Seq<NodeId> = path(dom, a);
    let q: Seq<NodeId> = path(dom, b);
    let i: int = fork(p, q, 0);
    if a == b {
        0
    } else if p[0] != q[0] {
        if a < b {
            -1
        } else {
            1
        }
    } else if i >= p.len() {
        -1
    } else if i >= q.len() {
        1
    } else if dom.index(p[i]) < dom.index(q[i]) {
        -1
    } else {
        1
    }
}

/// The parent of a node stands one edge higher.
pub proof fn parent_step(dom: DomTree, n: NodeId)
    requires
        dom.wf(),
    ensures
        match dom.parent(n) {
            Some(p) => {
                &&& dom.node(p) is Some
                &&& dom.depth(n) == dom.depth(p) + 1
                &&& dom.index(n) < dom.children(p).len()
                &&& dom.children(p)[dom.index(n) as int] == n
            },
            None => dom.index(n) == 0,
        },
{
    if dom.node(n) is Some {
        let node: Node = dom.node(n)->0;
        assert(dom.linked(n, node));
        if node.parent is Some {
            let p: NodeId = node.parent->0;
            assert(dom.linked(p, dom.node(p)->0));
            assert(dom.child_linked(p, dom.node(p)->0, node.index as int));
        }
    }
}

proof fn prev_step(dom: DomTree, n: NodeId)
    requires
        dom.wf(),
        dom.node(n) is Some,
    ensures
        match (dom.node(n)->0).prev_sibling {
            Some(p) => dom.node(p) is Some && dom.index(p) + 1 == dom.index(n),
            None => dom.index(n) == 0,
        },
{
    let node: Node = dom.node(n)->0;
    assert(dom.linked(n, node));
    if node.parent is Some {
        let p: NodeId = node.parent->0;
        let k: int = node.index as int;
        assert(dom.linked(p, dom.node(p)->0));
        assert(dom.child_linked(p, dom.node(p)->0, k));
        if k > 0 {
            assert(dom.child_linked(p, dom.node(p)->0, k - 1));
        }
    }
}

/// Index of `n` among its parent's children, counted over the siblings before
/// it; zero for a node without a parent.
pub fn node_child_index(dom: &DomTree, n: NodeId) -> (r: usize)
    requires
        dom.wf(),
    ensures
        r == dom.index(n),
{
    proof {
        if dom.node(n) is Some {
            prev_step(*dom, n);
        }
        parent_step(*dom, n);
    }
    let ghost total: nat = dom.index(n);
    let mut i: usize = 0;
    let mut cur: Option<NodeId> = dom.prev_of(n);
    assert(total <= usize::MAX) by {
        if dom.parent(n) is Some {
            let p: NodeId = dom.parent(n)->0;
            assert((dom.node(p)->0).children@.len() <= usize::MAX) by {
                assert((dom.node(p)->0).children.len() == (dom.node(p)->0).children@.len());
            }
        }
    }
    while cur.is_some()
        invariant
            dom.wf(),
            total <= usize::MAX,
            match cur {
                Some(p) => dom.node(p) is Some && dom.index(p) + 1 + i == total,
                None => i == total,
            },
        decreases total - i,
    {
        match cur {
            Some(p) => {
                proof {
                    prev_step(*dom, p);
                }
                i = i + 1;
                cur = dom.prev_of(p);
            },
            None => {},
        }
    }
    i
}

/// The chain of ancestors of `n` from the root down to `n`.
pub fn node_ancestors_root_first(dom: &DomTree, n: NodeId) -> (r: Vec<NodeId>)
    requires
        dom.wf(),
    ensures
        r@ == path(*dom, n),
{
    let mut below: Vec<NodeId> = Vec::new();
    let mut cur: NodeId = n;
    let mut next: Option<NodeId> = dom.parent_of(n);
    assert(path(*dom, n) =~= path(*dom, cur) + below@.reverse());
    while next.is_some()
        invariant
            dom.wf(),
            next == dom.parent(cur),
            path(*dom, n) == path(*dom, cur) + below@.reverse(),
        decreases dom.depth(cur) + (if next is Some {
            1int
        } else {
            0
        }),
    {
        match next {
            Some(p) => {
                proof {
                    parent_step(*dom, cur);
                    assert(below@.push(cur).reverse() =~= seq![cur] + below@.reverse());
                    assert(path(*dom, cur) + below@.reverse() =~= path(*dom, p) + (seq![cur]
                        + below@.reverse()));
                }
                below.push(cur);
                cur = p;
                next = dom.parent_of(cur);
            },
            None => {},
        }
    }
    assert(path(*dom, cur) == seq![cur]);
    let mut r: Vec<NodeId> = Vec::new();
    r.push(cur);
    let n_below: usize = below.len();
    let mut i: usize = n_below;
    assert(below@.reverse().take(0) =~= Seq::<NodeId>::empty());
    while i > 0
        invariant
            i <= n_below,
            n_below == below@.len(),
            r@ == seq![cur] + below@.reverse().take(n_below - i),
        decreases i,
    {
        i = i - 1;
        r.push(below[i]);
        assert(below@.reverse()[n_below - i - 1] == below@[i as int]);
        assert(r@ =~= seq![cur] + below@.reverse().take(n_below - i));
    }
    assert(below@.reverse().take(n_below as int) =~= below@.reverse());
    r
}

proof fn fork_facts(p: Seq<NodeId>, q: Seq<NodeId>, i: int)
    requires
        0 <= i <= p.len(),
        i <= q.len(),
    ensures
        i <= fork(p, q, i) <= p.len(),
        fork(p, q, i) <= q.len(),
        forall|j: int| i <= j < fork(p, q, i) ==> p[j] == #[trigger] q[j],
        fork(p, q, i) < p.len() && fork(p, q, i) < q.len() ==> p[fork(p, q, i)] != q[fork(
            p,
            q,
            i,
        )],
    decreases p.len() - i,
{
    if i < p.len() && i < q.len() && p[i] == q[i] {
        fork_facts(p, q, i + 1);
    }
}

proof fn fork_is(p: Seq<NodeId>, q: Seq<NodeId>, i: int, k: int)
    requires
        0 <= i <= k <= p.len(),
        k <= q.len(),
        forall|j: int| i <= j < k ==> p[j] == #[trigger] q[j],
        k < p.len() && k < q.len() ==> p[k] != q[k],
    ensures
        fork(p, q, i) == k,
    decreases k - i,
{
    if i < k {
        assert(p[i] == q[i]);
        fork_is(p, q, i + 1, k);
    }
}

/// Preorder comparison of two nodes: -1 where `a` comes before `b` in document
/// order, 1 where it comes after, 0 for the same node.
pub fn compare_node_order(dom: &DomTree, a: NodeId, b: NodeId) -> (r: i32)
    requires
        dom.wf(),
    ensures
        r == order(*dom, a, b),
{
    if a == b {
        return 0;
    }
    let aa: Vec<NodeId> = node_ancestors_root_first(dom, a);
    let bb: Vec<NodeId> = node_ancestors_root_first(dom, b);
    proof {
        path_facts(*dom, a);
        path_facts(*dom, b);
    }
    if aa[0] != bb[0] {
        return if a < b {
            -1
        } else {
            1
        };
    }
    let mut i: usize = 0;
    while i < aa.len() && i < bb.len() && aa[i] == bb[i]
        invariant
            i <= aa@.len(),
            i <= bb@.len(),
            fork(aa@, bb@, 0) == fork(aa@, bb@, i as int),
        decreases aa@.len() - i,
    {
        i = i + 1;
    }
    if i >= aa.len() {
        return -1;
    }
    if i >= bb.len() {
        return 1;
    }
    if node_child_index(dom, aa[i]) < node_child_index(dom, bb[i]) {
        -1
    } else {
        1
    }
}

proof fn path_facts(dom: DomTree, n: NodeId)
    requires
        dom.wf(),
    ensures
        path(dom, n).len() > 0,
        path(dom, n).last() == n,
        path(dom, n)[0] == root(dom, n),
        dom.parent(path(dom, n)[0]) is None,
        forall|k: int|
            0 < k < path(dom, n).len() ==> dom.parent(#[trigger] path(dom, n)[k]) == Some(
                path(dom, n)[k - 1],
            ),
    decreases dom.depth(n),
{
    parent_step(dom, n);
    if dom.parent(n) is Some {
        path_facts(dom, dom.parent(n)->0);
    }
}

proof fn path_prefix(dom: DomTree, n: NodeId, k: int)
    requires
        dom.wf(),
        0 <= k < path(dom, n).len(),
    ensures
        path(dom, path(dom, n)[k]) == path(dom, n).take(k + 1),
    decreases dom.depth(n),
{
    parent_step(dom, n);
    path_facts(dom, n);
    let p: Seq<NodeId> = path(dom, n);
    if k == p.len() - 1 {
        assert(p.take(k + 1) =~= p);
    } else {
        let up: NodeId = dom.parent(n)->0;
        path_prefix(dom, up, k);
        assert(path(dom, up).take(k + 1) =~= p.take(k + 1));
    }
}

/// Equal positions under one parent are one node.
proof fn same_place(dom: DomTree, x: NodeId, y: NodeId)
    requires
        dom.wf(),
        dom.parent(x) is Some,
        dom.parent(x) == dom.parent(y),
        dom.index(x) == dom.index(y),
    ensures
        x == y,
{
    parent_step(dom, x);
    parent_step(dom, y);
}

/// The place of the fork of two different nodes of one tree: below the root,
/// and where neither chain ends there the two branches are different children
/// of one parent.
proof fn fork_place(dom: DomTree, a: NodeId, b: NodeId)
    requires
        dom.wf(),
        root(dom, a) == root(dom, b),
    ensures
        ({
            let p: Seq<NodeId> = path(dom, a);
            let q: Seq<NodeId> = path(dom, b);
            let i: int = fork(p, q, 0);
            &&& 0 < i <= p.len()
            &&& i <= q.len()
            &&& forall|j: int| 0 <= j < i ==> p[j] == #[trigger] q[j]
            &&& i == p.len() && i == q.len() ==> a == b
            &&& i < p.len() && i < q.len() ==> {
                &&& dom.parent(p[i]) is Some
                &&& dom.parent(p[i]) == dom.parent(q[i])
                &&& dom.index(p[i]) != dom.index(q[i])
            }
            &&& fork(q, p, 0) == i
        }),
{
    let p: Seq<NodeId> = path(dom, a);
    let q: Seq<NodeId> = path(dom, b);
    path_facts(dom, a);
    path_facts(dom, b);
    fork_facts(p, q, 0);
    let i: int = fork(p, q, 0);
    assert(p[0] == q[0]);
    assert(fork(p, q, 0) == fork(p, q, 1));
    fork_facts(p, q, 1);
    if i < p.len() && i < q.len() {
        assert(p[i - 1] == q[i - 1]);
        if dom.index(p[i]) == dom.index(q[i]) {
            same_place(dom, p[i], q[i]);
        }
    }
    if i == p.len() && i == q.len() {
        assert(p[i - 1] == q[i - 1]);
    }
    assert forall|j: int| 0 <= j < i implies q[j] == #[trigger] p[j] by {
        assert(p[j] == q[j]);
    }
    fork_is(q, p, 0, i);
}

/// The order of two nodes is the reverse of the order of the two the other
/// way round, and only a node and itself are level.
pub proof fn order_antisymmetric(dom: DomTree, a: NodeId, b: NodeId)
    requires
        dom.wf(),
    ensures
        order(dom, a, b) == -order(dom, b, a),
        order(dom, a, b) == 0 <==> a == b,
{
    path_facts(dom, a);
    path_facts(dom, b);
    if a != b && root(dom, a) == root(dom, b) {
        fork_place(dom, a, b);
    }
}

/// A node comes before all its descendants.
pub proof fn ancestors_come_first(dom: DomTree, a: NodeId, b: NodeId)
    requires
        dom.wf(),
        inclusive_ancestor(dom, a, b),
        a != b,
    ensures
        order(dom, a, b) == -1,
{
    let q: Seq<NodeId> = path(dom, b);
    let k: int = choose|k: int| 0 <= k < q.len() && q[k] == a;
    path_facts(dom, a);
    path_facts(dom, b);
    path_prefix(dom, b, k);
    let p: Seq<NodeId> = path(dom, a);
    assert(p == q.take(k + 1));
    assert forall|j: int| 0 <= j < k + 1 implies p[j] == #[trigger] q[j] by {}
    assert(k + 1 < q.len()) by {
        if k + 1 == q.len() {
            assert(q.last() == a);
        }
    }
    fork_is(p, q, 0, k + 1);
    assert(p[0] == q[0]);
}

/// Everything under an earlier sibling comes before everything under a later
/// one.
pub proof fn earlier_subtrees_come_first(
    dom: DomTree,
    x: NodeId,
    y: NodeId,
    a: NodeId,
    b: NodeId,
)
    requires
        dom.wf(),
        dom.parent(x) is Some,
        dom.parent(x) == dom.parent(y),
        dom.index(x) < dom.index(y),
        inclusive_ancestor(dom, x, a),
        inclusive_ancestor(dom, y, b),
    ensures
        order(dom, a, b) == -1,
{
    let p: Seq<NodeId> = path(dom, a);
    let q: Seq<NodeId> = path(dom, b);
    let i: int = choose|k: int| 0 <= k < p.len() && p[k] == x;
    let j: int = choose|k: int| 0 <= k < q.len() && q[k] == y;
    path_facts(dom, a);
    path_facts(dom, b);
    path_prefix(dom, a, i);
    path_prefix(dom, b, j);
    let up: NodeId = dom.parent(x)->0;
    parent_step(dom, x);
    parent_step(dom, y);
    assert(p.take(i + 1) == path(dom, up).push(x));
    assert(q.take(j + 1) == path(dom, up).push(y));
    assert(p.take(i + 1).len() == path(dom, up).push(x).len());
    assert(i == j);
    path_facts(dom, up);
    assert forall|k: int| 0 <= k < i implies p[k] == #[trigger] q[k] by {
        assert(p.take(i + 1)[k] == path(dom, up)[k]);
        assert(q.take(i + 1)[k] == path(dom, up)[k]);
    }
    fork_is(p, q, 0, i);
    assert(p[0] == q[0]);
    if a == b {
        assert(p == q);
    }
}

/// Within one tree, what comes before a node that comes before another comes
/// before that other.
pub proof fn order_transitive(dom: DomTree, a: NodeId, b: NodeId, c: NodeId)
    requires
        dom.wf(),
        root(dom, a) == root(dom, b),
        root(dom, b) == root(dom, c),
        order(dom, a, b) == -1,
        order(dom, b, c) == -1,
    ensures
        order(dom, a, c) == -1,
{
    let p: Seq<NodeId> = path(dom, a);
    let q: Seq<NodeId> = path(dom, b);
    let r: Seq<NodeId> = path(dom, c);
    path_facts(dom, a);
    path_facts(dom, b);
    path_facts(dom, c);
    fork_place(dom, a, b);
    fork_place(dom, b, c);
    fork_place(dom, a, c);
    let i: int = fork(p, q, 0);
    let j: int = fork(q, r, 0);
    let k: int = if i < j {
        i
    } else {
        j
    };
    assert forall|m: int| 0 <= m < k implies p[m] == #[trigger] r[m] by {
        assert(p[m] == q[m]);
        assert(q[m] == r[m]);
    }
    if i < j {
        assert(q[i] == r[i]);
        fork_is(p, r, 0, i);
    } else if j < i {
        assert(p[j] == q[j]);
        fork_is(p, r, 0, j);
    } else if i < p.len() {
        assert(i < q.len() && i < r.len());
        assert(p[i] != r[i]);
        fork_is(p, r, 0, i);
    } else {
        fork_is(p, r, 0, i);
    }
    if a == c {
        order_antisymmetric(dom, a, b);
    }
}

/// Document order is total: of two different nodes one comes first.
pub proof fn order_total(dom: DomTree, a: NodeId, b: NodeId)
    requires
        dom.wf(),
        a != b,
    ensures
        order(dom, a, b) == -1 || order(dom, b, a) == -1,
{
    order_antisymmetric(dom, a, b);
}

/// Root of the tree that `n` stands in.
pub fn node_root(dom: &DomTree, n: NodeId) -> (r: NodeId)
    requires
        dom.wf(),
    ensures
        r == root(*dom, n),
{
    let mut cur: NodeId = n;
    let mut next: Option<NodeId> = dom.parent_of(n);
    while next.is_some()
        invariant
            dom.wf(),
            next == dom.parent(cur),
            root(*dom, n) == root(*dom, cur),
        decreases dom.depth(cur) + (if next is Some {
            1int
        } else {
            0
        }),
    {
        match next {
            Some(p) => {
                proof {
                    parent_step(*dom, cur);
                }
                cur = p;
                next = dom.parent_of(cur);
            },
            None => {},
        }
    }
    cur
}

/// The number of edges that an ancestor test climbs at most.
pub const ANCESTOR_HOP_LIMIT: u32 = 1_000_000;

/// Whether `ancestor` is `n` or one of its ancestors, `ANCESTOR_HOP_LIMIT`
/// edges up at most.
pub fn is_inclusive_ancestor(dom: &DomTree, ancestor: NodeId, n: NodeId) -> (r: bool)
    ensures
        r == ancestor_within(*dom, ancestor, n, ANCESTOR_HOP_LIMIT as nat),
{
    let mut cur: NodeId = n;
    let mut hops: u32 = 0;
    loop
        invariant
            hops <= ANCESTOR_HOP_LIMIT,
            ancestor_within(*dom, ancestor, n, ANCESTOR_HOP_LIMIT as nat) == ancestor_within(
                *dom,
                ancestor,
                cur,
                (ANCESTOR_HOP_LIMIT - hops) as nat,
            ),
        decreases ANCESTOR_HOP_LIMIT - hops,
    {
        if cur == ancestor {
            return true;
        }
        if hops == ANCESTOR_HOP_LIMIT {
            return false;
        }
        hops = hops + 1;
        match dom.parent_of(cur) {
            Some(p) => {
                cur = p;
            },
            None => {
                return false;
            },
        }
    }
}

/// Whether `ancestor` is among the ancestors of `n`, `n` itself left out.
pub open spec fn proper_ancestor(dom: DomTree, ancestor: NodeId, n: NodeId) -> bool {
    ancestor != n && inclusive_ancestor(dom, ancestor, n)
}

/// A test that may climb at least as many edges as the node is deep finds
/// every ancestor.
pub proof fn deep_enough_test_finds_every_ancestor(
    dom: DomTree,
    a: NodeId,
    b: NodeId,
    hops: nat,
)
    requires
        dom.wf(),
        dom.depth(b) <= hops,
    ensures
        ancestor_within(dom, a, b, hops) == inclusive_ancestor(dom, a, b),
    decreases hops,
{
    parent_step(dom, b);
    path_facts(dom, b);
    if dom.parent(b) is Some {
        let p: NodeId = dom.parent(b)->0;
        deep_enough_test_finds_every_ancestor(dom, a, p, (hops - 1) as nat);
        let up: Seq<NodeId> = path(dom, p);
        assert(path(dom, b) == up.push(b));
        if up.contains(a) {
            let k: int = choose|k: int| 0 <= k < up.len() && up[k] == a;
            assert(up.push(b)[k] == a);
        }
        if up.push(b).contains(a) && a != b {
            let k: int = choose|k: int| 0 <= k < up.push(b).len() && up.push(b)[k] == a;
            assert(up[k] == a);
        }
        if a == b {
            assert(up.push(b)[up.len() as int] == a);
        }
    } else {
        assert(path(dom, b) == seq![b]);
        if a == b {
            assert(path(dom, b)[0] == a);
        }
    }
}

} // verus!
