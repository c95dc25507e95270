//! Which script elements have been started: the set itself, and what a
//! subtree or a clone adds to it.

use vstd::prelude::*;

use crate::dom::tree::{DomTree, NodeData, NodeId};
use crate::text::{lowered, same_ignoring_ascii_case};

verus! {

/// The script elements that have been started, as ascending identities.
pub struct StartedScripts {
    pub ids: Vec<NodeId>,
}

/// Every element is above the one before it.
pub open spec fn ascending(s: Seq<NodeId>) -> bool {
    forall|i: int, j: int| 0 <= i < j < s.len() ==> s[i] < s[j]
}

impl StartedScripts {
    /// The identities, each once and in ascending order.
    pub open spec fn wf(self) -> bool {
        ascending(self.ids@)
    }

    /// The set of started elements.
    pub open spec fn view(self) -> Set<NodeId> {
        self.ids@.to_set()
    }

    /// No element started yet.
    pub fn new() -> (r: Self)
        ensures
            r.wf(),
            r@ == Set::<NodeId>::empty(),
    {
        let ids: Vec<NodeId> = Vec::new();
        assert(ids@.to_set() =~= Set::<NodeId>::empty());
        StartedScripts { ids }
    }

    /// Whether `id` has been started.
    pub fn contains(&self, id: NodeId) -> (r: bool)
        ensures
            r == self@.contains(id),
    {
        let mut i: usize = 0;
        while i < self.ids.len()
            invariant
                i <= self.ids@.len(),
                forall|j: int| 0 <= j < i ==> self.ids@[j] != id,
            decreases self.ids@.len() - i,
        {
            if self.ids[i] == id {
                assert(self.ids@.contains(id));
                return true;
            }
            i = i + 1;
        }
        false
    }

    /// Adds `id`; true where it was not there before.
    pub fn insert(&mut self, id: NodeId) -> (r: bool)
        requires
            old(self).wf(),
        ensures
            final(self).wf(),
            final(self)@ == old(self)@.insert(id),
            r == !old(self)@.contains(id),
    {
        let mut i: usize = 0;
        while i < self.ids.len() && self.ids[i] < id
            invariant
                self.wf(),
                i <= self.ids@.len(),
                *self == *old(self),
                forall|j: int| 0 <= j < i ==> self.ids@[j] < id,
            decreases self.ids@.len() - i,
        {
            i = i + 1;
        }
        let ghost before: Seq<NodeId> = self.ids@;
        if i < self.ids.len() && self.ids[i] == id {
            assert(before.contains(id));
            assert(before.to_set().insert(id) =~= before.to_set());
            return false;
        }
        self.ids.insert(i, id);
        proof {
            assert(!before.contains(id)) by {
                if before.contains(id) {
                    let k: int = choose|k: int| 0 <= k < before.len() && before[k] == id;
                    assert(before[i as int] <= before[k]);
                }
            }
            let after: Seq<NodeId> = self.ids@;
            assert(after[i as int] == id);
            assert forall|x: NodeId| after.contains(x) == (before.contains(x) || x == id) by {
                if before.contains(x) {
                    let k: int = choose|k: int| 0 <= k < before.len() && before[k] == x;
                    if k < i {
                        assert(after[k] == x);
                    } else {
                        assert(after[k + 1] == x);
                    }
                }
                if after.contains(x) {
                    let k: int = choose|k: int| 0 <= k < after.len() && after[k] == x;
                    if k < i {
                        assert(before[k] == x);
                    } else if k > i {
                        assert(before[k - 1] == x);
                    }
                }
            }
            assert(after.to_set() =~= before.to_set().insert(id));
        }
        true
    }

    /// Adds every element of `more`.
    pub fn extend(&mut self, more: &Vec<NodeId>)
        requires
            old(self).wf(),
        ensures
            final(self).wf(),
            final(self)@ == old(self)@.union(more@.to_set()),
    {
        let mut i: usize = 0;
        assert(self@.union(more@.take(0).to_set()) =~= self@);
        while i < more.len()
            invariant
                self.wf(),
                i <= more@.len(),
                self@ == old(self)@.union(more@.take(i as int).to_set()),
            decreases more@.len() - i,
        {
            self.insert(more[i]);
            proof {
                let a: Seq<NodeId> = more@.take(i as int);
                let b: Seq<NodeId> = more@.take(i + 1);
                assert(b =~= a.push(more@[i as int]));
                assert forall|x: NodeId| b.contains(x) == (a.contains(x) || x == more@[i as int]) by {
                    if a.contains(x) {
                        let k: int = choose|k: int| 0 <= k < a.len() && a[k] == x;
                        assert(b[k] == x);
                    }
                    assert(b[i as int] == more@[i as int]);
                    if b.contains(x) && x != more@[i as int] {
                        let k: int = choose|k: int| 0 <= k < b.len() && b[k] == x;
                        assert(a[k] == x);
                    }
                }
                assert(old(self)@.union(a.to_set()).insert(more@[i as int]) =~= old(self)@.union(
                    b.to_set(),
                ));
            }
            i = i + 1;
        }
        assert(more@.take(i as int) =~= more@);
    }

    /// The started elements in ascending order.
    pub fn sorted(&self) -> (r: Vec<NodeId>)
        requires
            self.wf(),
        ensures
            ascending(r@),
            r@.to_set() == self@,
    {
        let mut r: Vec<NodeId> = Vec::new();
        let mut i: usize = 0;
        while i < self.ids.len()
            invariant
                i <= self.ids@.len(),
                r@ == self.ids@.take(i as int),
            decreases self.ids@.len() - i,
        {
            r.push(self.ids[i]);
            i = i + 1;
            assert(self.ids@.take(i as int) =~= self.ids@.take(i - 1).push(self.ids@[i - 1]));
        }
        assert(self.ids@.take(i as int) =~= self.ids@);
        r
    }
}

/// `id` is a script element; the case of ASCII letters in the name does not
/// matter.
pub open spec fn is_script(dom: DomTree, id: NodeId) -> bool {
    match dom.node(id) {
        Some(n) => match n.data {
            NodeData::Element { name, template_contents } => lowered(name.local@) == lowered(
                "script"@,
            ),
            _ => false,
        },
        None => false,
    }
}

/// Whether `node_id` is a script element.
pub fn node_is_script(dom: &DomTree, node_id: NodeId) -> (r: bool)
    ensures
        r == is_script(*dom, node_id),
{
    match dom.get_node(node_id) {
        Some(n) => match &n.data {
            NodeData::Element { name, template_contents: _ } => same_ignoring_ascii_case(
                name.local.as_str(),
                "script",
            ),
            _ => false,
        },
        None => false,
    }
}

/// `n` alone where it is a script, else nothing.
pub open spec fn own_script(dom: DomTree, n: NodeId) -> Seq<NodeId> {
    if is_script(dom, n) {
        seq![n]
    } else {
        Seq::empty()
    }
}

/// The scripts at and under `n` in document order, those of its template
/// contents after those of its children.
pub open spec fn scripts_under(dom: DomTree, n: NodeId) -> Seq<NodeId>
    decreases dom.height(n), dom.children(n).len() + 1,
{
    own_script(dom, n) + scripts_under_children(dom, n, 0) + scripts_under_template(dom, n)
}

/// The scripts under the children of `n` from position `k` on.
pub open spec fn scripts_under_children(dom: DomTree, n: NodeId, k: int) -> Seq<NodeId>
    decreases dom.height(n), dom.children(n).len() - k,
{
    if 0 <= k < dom.children(n).len() && dom.height(dom.children(n)[k]) < dom.height(n) {
        scripts_under(dom, dom.children(n)[k]) + scripts_under_children(dom, n, k + 1)
    } else {
        Seq::empty()
    }
}

/// The scripts in the template contents of `n`.
pub open spec fn scripts_under_template(dom: DomTree, n: NodeId) -> Seq<NodeId>
    decreases dom.height(n), 0int,
{
    match dom.template(n) {
        Some(t) => if dom.height(t) < dom.height(n) {
            scripts_under(dom, t)
        } else {
            Seq::empty()
        },
        None => Seq::empty(),
    }
}

/// The number of nodes at and under `n`, template contents counted.
pub open spec fn size_under(dom: DomTree, n: NodeId) -> nat
    decreases dom.height(n), dom.children(n).len() + 1,
{
    1 + size_under_children(dom, n, 0) + size_under_template(dom, n)
}

/// The number of nodes under the children of `n` from position `k` on.
pub open spec fn size_under_children(dom: DomTree, n: NodeId, k: int) -> nat
    decreases dom.height(n), dom.children(n).len() - k,
{
    if 0 <= k < dom.children(n).len() && dom.height(dom.children(n)[k]) < dom.height(n) {
        size_under(dom, dom.children(n)[k]) + size_under_children(dom, n, k + 1)
    } else {
        0
    }
}

/// The number of nodes in the template contents of `n`.
pub open spec fn size_under_template(dom: DomTree, n: NodeId) -> nat
    decreases dom.height(n), 0int,
{
    match dom.template(n) {
        Some(t) => if dom.height(t) < dom.height(n) {
            size_under(dom, t)
        } else {
            0
        },
        None => 0,
    }
}

/// The scripts under the nodes of a stack, its top first.
spec fn pending_scripts(dom: DomTree, stack: Seq<NodeId>) -> Seq<NodeId>
    decreases stack.len(),
{
    if stack.len() == 0 {
        Seq::empty()
    } else {
        scripts_under(dom, stack.last()) + pending_scripts(dom, stack.drop_last())
    }
}

/// The number of nodes under the nodes of a stack.
spec fn pending_size(dom: DomTree, stack: Seq<NodeId>) -> nat
    decreases stack.len(),
{
    if stack.len() == 0 {
        0
    } else {
        size_under(dom, stack.last()) + pending_size(dom, stack.drop_last())
    }
}

proof fn push_pending(dom: DomTree, stack: Seq<NodeId>, n: NodeId)
    ensures
        pending_scripts(dom, stack.push(n)) == scripts_under(dom, n) + pending_scripts(dom, stack),
        pending_size(dom, stack.push(n)) == size_under(dom, n) + pending_size(dom, stack),
{
    assert(stack.push(n).drop_last() =~= stack);
}

proof fn children_are_lower(dom: DomTree, n: NodeId)
    requires
        dom.wf(),
    ensures
        forall|k: int|
            0 <= k < dom.children(n).len() ==> dom.height(#[trigger] dom.children(n)[k])
                < dom.height(n),
        dom.template(n) is Some ==> dom.height(dom.template(n)->0) < dom.height(n),
{
    if dom.node(n) is Some {
        assert(dom.linked(n, dom.node(n)->0));
        assert forall|k: int| 0 <= k < dom.children(n).len() implies dom.height(
            #[trigger] dom.children(n)[k],
        ) < dom.height(n) by {
            assert(dom.child_linked(n, dom.node(n)->0, k));
        }
    }
}

/// The scripts at and under `root`, template contents included.
pub fn script_nodes_including_template_contents(dom: &DomTree, root: NodeId) -> (r: Vec<NodeId>)
    requires
        dom.wf(),
    ensures
        r@ == scripts_under(*dom, root),
{
    let mut scripts: Vec<NodeId> = Vec::new();
    let mut stack: Vec<NodeId> = Vec::new();
    proof {
        push_pending(*dom, stack@, root);
    }
    stack.push(root);
    assert(scripts@ + pending_scripts(*dom, stack@) =~= scripts_under(*dom, root));
    while stack.len() > 0
        invariant
            dom.wf(),
            scripts@ + pending_scripts(*dom, stack@) == scripts_under(*dom, root),
        decreases pending_size(*dom, stack@),
    {
        let ghost before: Seq<NodeId> = stack@;
        let ghost done: Seq<NodeId> = scripts@;
        match stack.pop() {
            Some(node_id) => {
                let ghost rest: Seq<NodeId> = stack@;
                assert(rest =~= before.drop_last());
                proof {
                    children_are_lower(*dom, node_id);
                }
                if node_is_script(dom, node_id) {
                    scripts.push(node_id);
                }
                assert(scripts@ =~= done + own_script(*dom, node_id));
                match dom.template_of(node_id) {
                    Some(contents) => {
                        proof {
                            push_pending(*dom, rest, contents);
                        }
                        stack.push(contents);
                    },
                    None => {
                        assert(scripts_under_template(*dom, node_id) + pending_scripts(*dom, rest)
                            =~= pending_scripts(*dom, rest));
                    },
                }
                let ghost base: Seq<NodeId> = stack@;
                let children: Vec<NodeId> = dom.children_of(node_id);
                let n: usize = children.len();
                let mut k: usize = n;
                assert(scripts_under_children(*dom, node_id, n as int) + pending_scripts(*dom, base)
                    =~= pending_scripts(*dom, base));
                while k > 0
                    invariant
                        dom.wf(),
                        k <= n,
                        n == children@.len(),
                        children@ == dom.children(node_id),
                        forall|j: int|
                            0 <= j < n ==> dom.height(#[trigger] dom.children(node_id)[j])
                                < dom.height(node_id),
                        pending_scripts(*dom, stack@) == scripts_under_children(
                            *dom,
                            node_id,
                            k as int,
                        ) + pending_scripts(*dom, base),
                        pending_size(*dom, stack@) == size_under_children(*dom, node_id, k as int)
                            + pending_size(*dom, base),
                    decreases k,
                {
                    k = k - 1;
                    proof {
                        push_pending(*dom, stack@, children@[k as int]);
                        assert(dom.children(node_id)[k as int] == children@[k as int]);
                    }
                    let ghost tail: Seq<NodeId> = scripts_under_children(
                        *dom,
                        node_id,
                        k + 1,
                    );
                    let ghost head: Seq<NodeId> = scripts_under(*dom, children@[k as int]);
                    stack.push(children[k]);
                    assert(head + (tail + pending_scripts(*dom, base)) =~= (head + tail)
                        + pending_scripts(*dom, base));
                }
                proof {
                    let own: Seq<NodeId> = own_script(*dom, node_id);
                    let kids: Seq<NodeId> = scripts_under_children(*dom, node_id, 0);
                    let tmpl: Seq<NodeId> = scripts_under_template(*dom, node_id);
                    let more: Seq<NodeId> = pending_scripts(*dom, rest);
                    assert(pending_scripts(*dom, base) == tmpl + more);
                    assert((done + own) + (kids + (tmpl + more)) =~= done + ((own + kids + tmpl)
                        + more));
                }
            },
            None => {},
        }
    }
    assert(scripts@ + pending_scripts(*dom, stack@) =~= scripts@);
    scripts
}

/// `x` is `n` or stands under it, in its children or template contents.
pub open spec fn stands_under(dom: DomTree, n: NodeId, x: NodeId) -> bool
    decreases dom.height(n), dom.children(n).len() + 1,
{
    ||| x == n
    ||| stands_under_children(dom, n, 0, x)
    ||| match dom.template(n) {
        Some(t) => dom.height(t) < dom.height(n) && stands_under(dom, t, x),
        None => false,
    }
}

/// `x` stands at or under a child of `n` from position `k` on.
pub open spec fn stands_under_children(dom: DomTree, n: NodeId, k: int, x: NodeId) -> bool
    decreases dom.height(n), dom.children(n).len() - k,
{
    0 <= k < dom.children(n).len() && dom.height(dom.children(n)[k]) < dom.height(n) && (
    stands_under(dom, dom.children(n)[k], x) || stands_under_children(dom, n, k + 1, x))
}

/// The scripts under a node are exactly the script elements that stand at or
/// under it, template contents included.
pub proof fn scripts_under_are_the_scripts(dom: DomTree, n: NodeId, x: NodeId)
    requires
        dom.wf(),
    ensures
        scripts_under(dom, n).contains(x) <==> stands_under(dom, n, x) && is_script(dom, x),
    decreases dom.height(n), dom.children(n).len() + 1,
{
    children_are_lower(dom, n);
    let own: Seq<NodeId> = own_script(dom, n);
    let kids: Seq<NodeId> = scripts_under_children(dom, n, 0);
    let tmpl: Seq<NodeId> = scripts_under_template(dom, n);
    scripts_under_children_are_the_scripts(dom, n, 0, x);
    if dom.template(n) is Some {
        scripts_under_are_the_scripts(dom, dom.template(n)->0, x);
    }
    in_either(own, kids, x);
    in_either(own + kids, tmpl, x);
    if is_script(dom, n) {
        assert(own[0] == n);
    }
}

proof fn scripts_under_children_are_the_scripts(dom: DomTree, n: NodeId, k: int, x: NodeId)
    requires
        dom.wf(),
        0 <= k,
    ensures
        scripts_under_children(dom, n, k).contains(x) <==> stands_under_children(dom, n, k, x)
            && is_script(dom, x),
    decreases dom.height(n), dom.children(n).len() - k,
{
    children_are_lower(dom, n);
    if k < dom.children(n).len() {
        let c: NodeId = dom.children(n)[k];
        assert(dom.height(c) < dom.height(n));
        scripts_under_are_the_scripts(dom, c, x);
        scripts_under_children_are_the_scripts(dom, n, k + 1, x);
        in_either(scripts_under(dom, c), scripts_under_children(dom, n, k + 1), x);
    }
}

proof fn in_either(a: Seq<NodeId>, b: Seq<NodeId>, x: NodeId)
    ensures
        (a + b).contains(x) <==> a.contains(x) || b.contains(x),
{
    if a.contains(x) {
        let k: int = choose|k: int| 0 <= k < a.len() && a[k] == x;
        assert((a + b)[k] == x);
    }
    if b.contains(x) {
        let k: int = choose|k: int| 0 <= k < b.len() && b[k] == x;
        assert((a + b)[a.len() + k] == x);
    }
    if (a + b).contains(x) {
        let k: int = choose|k: int| 0 <= k < (a + b).len() && (a + b)[k] == x;
        if k < a.len() {
            assert(a[k] == x);
        } else {
            assert(b[k - a.len()] == x);
        }
    }
}

/// The clones of started elements: `c` stands for `s`, and so on down the
/// children that both have and the template contents that both have.
pub open spec fn carried(dom: DomTree, started: Set<NodeId>, s: NodeId, c: NodeId) -> Seq<NodeId>
    decreases dom.height(s), dom.children(s).len() + 1,
{
    own_carried(started, s, c) + carried_children(dom, started, s, c, 0) + carried_template(
        dom,
        started,
        s,
        c,
    )
}

/// `c` alone where `s` is started, else nothing.
pub open spec fn own_carried(started: Set<NodeId>, s: NodeId, c: NodeId) -> Seq<NodeId> {
    if started.contains(s) {
        seq![c]
    } else {
        Seq::empty()
    }
}

/// The clones of started elements under the children from position `k` on.
pub open spec fn carried_children(
    dom: DomTree,
    started: Set<NodeId>,
    s: NodeId,
    c: NodeId,
    k: int,
) -> Seq<NodeId>
    decreases dom.height(s), dom.children(s).len() - k,
{
    if 0 <= k < dom.children(s).len() && k < dom.children(c).len() && dom.height(
        dom.children(s)[k],
    ) < dom.height(s) {
        carried(dom, started, dom.children(s)[k], dom.children(c)[k]) + carried_children(
            dom,
            started,
            s,
            c,
            k + 1,
        )
    } else {
        Seq::empty()
    }
}

/// The clones of started elements in the template contents.
pub open spec fn carried_template(
    dom: DomTree,
    started: Set<NodeId>,
    s: NodeId,
    c: NodeId,
) -> Seq<NodeId>
    decreases dom.height(s), 0int,
{
    match (dom.template(s), dom.template(c)) {
        (Some(t), Some(u)) => if dom.height(t) < dom.height(s) {
            carried(dom, started, t, u)
        } else {
            Seq::empty()
        },
        _ => Seq::empty(),
    }
}

/// What the pairs of a stack carry, its top first.
spec fn pending_carried(
    dom: DomTree,
    started: Set<NodeId>,
    stack: Seq<(NodeId, NodeId)>,
) -> Seq<NodeId>
    decreases stack.len(),
{
    if stack.len() == 0 {
        Seq::empty()
    } else {
        carried(dom, started, stack.last().0, stack.last().1) + pending_carried(
            dom,
            started,
            stack.drop_last(),
        )
    }
}

/// The number of nodes under the sources of a stack of pairs.
spec fn pending_pair_size(dom: DomTree, stack: Seq<(NodeId, NodeId)>) -> nat
    decreases stack.len(),
{
    if stack.len() == 0 {
        0
    } else {
        size_under(dom, stack.last().0) + pending_pair_size(dom, stack.drop_last())
    }
}

proof fn push_pending_pair(
    dom: DomTree,
    started: Set<NodeId>,
    stack: Seq<(NodeId, NodeId)>,
    s: NodeId,
    c: NodeId,
)
    ensures
        pending_carried(dom, started, stack.push((s, c))) == carried(dom, started, s, c)
            + pending_carried(dom, started, stack),
        pending_pair_size(dom, stack.push((s, c))) == size_under(dom, s) + pending_pair_size(
            dom,
            stack,
        ),
{
    assert(stack.push((s, c)).drop_last() =~= stack);
}

fn carried_nodes(
    dom: &DomTree,
    source_root: NodeId,
    cloned_root: NodeId,
    started: &StartedScripts,
) -> (r: Vec<NodeId>)
    requires
        dom.wf(),
    ensures
        r@ == carried(*dom, started@, source_root, cloned_root),
{
    let mut additions: Vec<NodeId> = Vec::new();
    let mut pairs: Vec<(NodeId, NodeId)> = Vec::new();
    let ghost flags: Set<NodeId> = started@;
    proof {
        push_pending_pair(*dom, flags, pairs@, source_root, cloned_root);
    }
    pairs.push((source_root, cloned_root));
    assert(additions@ + pending_carried(*dom, flags, pairs@) =~= carried(
        *dom,
        flags,
        source_root,
        cloned_root,
    ));
    while pairs.len() > 0
        invariant
            dom.wf(),
            flags == started@,
            additions@ + pending_carried(*dom, flags, pairs@) == carried(
                *dom,
                flags,
                source_root,
                cloned_root,
            ),
        decreases pending_pair_size(*dom, pairs@),
    {
        let ghost before: Seq<(NodeId, NodeId)> = pairs@;
        let ghost done: Seq<NodeId> = additions@;
        match pairs.pop() {
            Some((source, cloned)) => {
                let ghost rest: Seq<(NodeId, NodeId)> = pairs@;
                assert(rest =~= before.drop_last());
                proof {
                    children_are_lower(*dom, source);
                }
                if started.contains(source) {
                    additions.push(cloned);
                }
                assert(additions@ =~= done + own_carried(flags, source, cloned));
                match (dom.template_of(source), dom.template_of(cloned)) {
                    (Some(t), Some(u)) => {
                        proof {
                            push_pending_pair(*dom, flags, rest, t, u);
                        }
                        pairs.push((t, u));
                    },
                    _ => {
                        assert(carried_template(*dom, flags, source, cloned) + pending_carried(
                            *dom,
                            flags,
                            rest,
                        ) =~= pending_carried(*dom, flags, rest));
                    },
                }
                let ghost base: Seq<(NodeId, NodeId)> = pairs@;
                let ss: Vec<NodeId> = dom.children_of(source);
                let cs: Vec<NodeId> = dom.children_of(cloned);
                let n: usize = if ss.len() < cs.len() {
                    ss.len()
                } else {
                    cs.len()
                };
                let mut k: usize = n;
                assert(carried_children(*dom, flags, source, cloned, n as int) + pending_carried(
                    *dom,
                    flags,
                    base,
                ) =~= pending_carried(*dom, flags, base));
                while k > 0
                    invariant
                        dom.wf(),
                        k <= n,
                        n <= ss@.len(),
                        n <= cs@.len(),
                        ss@ == dom.children(source),
                        cs@ == dom.children(cloned),
                        forall|j: int|
                            0 <= j < ss@.len() ==> dom.height(#[trigger] dom.children(source)[j])
                                < dom.height(source),
                        pending_carried(*dom, flags, pairs@) == carried_children(
                            *dom,
                            flags,
                            source,
                            cloned,
                            k as int,
                        ) + pending_carried(*dom, flags, base),
                        pending_pair_size(*dom, pairs@) <= size_under_children(
                            *dom,
                            source,
                            k as int,
                        ) + pending_pair_size(*dom, base),
                    decreases k,
                {
                    k = k - 1;
                    proof {
                        push_pending_pair(*dom, flags, pairs@, ss@[k as int], cs@[k as int]);
                        assert(dom.children(source)[k as int] == ss@[k as int]);
                    }
                    let ghost head: Seq<NodeId> = carried(
                        *dom,
                        flags,
                        ss@[k as int],
                        cs@[k as int],
                    );
                    let ghost tail: Seq<NodeId> = carried_children(
                        *dom,
                        flags,
                        source,
                        cloned,
                        k + 1,
                    );
                    pairs.push((ss[k], cs[k]));
                    assert(head + (tail + pending_carried(*dom, flags, base)) =~= (head + tail)
                        + pending_carried(*dom, flags, base));
                }
                proof {
                    let own: Seq<NodeId> = own_carried(flags, source, cloned);
                    let kids: Seq<NodeId> = carried_children(*dom, flags, source, cloned, 0);
                    let tmpl: Seq<NodeId> = carried_template(*dom, flags, source, cloned);
                    let more: Seq<NodeId> = pending_carried(*dom, flags, rest);
                    assert(pending_carried(*dom, flags, base) == tmpl + more);
                    assert((done + own) + (kids + (tmpl + more)) =~= done + ((own + kids + tmpl)
                        + more));
                }
            },
            None => {},
        }
    }
    assert(additions@ + pending_carried(*dom, flags, pairs@) =~= additions@);
    additions
}

/// Marks as started every clone, at and under `cloned_root`, of a started
/// element at and under `source_root`.
pub fn propagate_script_start_state(
    dom: &DomTree,
    source_root: NodeId,
    cloned_root: NodeId,
    started: &mut StartedScripts,
)
    requires
        dom.wf(),
        old(started).wf(),
    ensures
        final(started).wf(),
        final(started)@ == started_after_clone(*dom, old(started)@, source_root, cloned_root),
{
    let additions: Vec<NodeId> = carried_nodes(dom, source_root, cloned_root, started);
    started.extend(&additions);
}

/// `y` is at the place under `c` where `x` is under `s`.
pub open spec fn corresponds(dom: DomTree, s: NodeId, c: NodeId, x: NodeId, y: NodeId) -> bool
    decreases dom.height(s), dom.children(s).len() + 1,
{
    ||| x == s && y == c
    ||| corresponds_children(dom, s, c, 0, x, y)
    ||| match (dom.template(s), dom.template(c)) {
        (Some(t), Some(u)) => dom.height(t) < dom.height(s) && corresponds(dom, t, u, x, y),
        _ => false,
    }
}

/// `y` is at the place under a child of `c`, from position `k` on, where `x`
/// is under the child of `s` at that position.
pub open spec fn corresponds_children(
    dom: DomTree,
    s: NodeId,
    c: NodeId,
    k: int,
    x: NodeId,
    y: NodeId,
) -> bool
    decreases dom.height(s), dom.children(s).len() - k,
{
    0 <= k < dom.children(s).len() && k < dom.children(c).len() && dom.height(dom.children(s)[k])
        < dom.height(s) && (corresponds(dom, dom.children(s)[k], dom.children(c)[k], x, y)
        || corresponds_children(dom, s, c, k + 1, x, y))
}

proof fn started_sources_are_carried(
    dom: DomTree,
    started: Set<NodeId>,
    s: NodeId,
    c: NodeId,
    x: NodeId,
    y: NodeId,
)
    requires
        dom.wf(),
        corresponds(dom, s, c, x, y),
        started.contains(x),
    ensures
        carried(dom, started, s, c).contains(y),
    decreases dom.height(s), dom.children(s).len() + 1,
{
    let own: Seq<NodeId> = own_carried(started, s, c);
    let kids: Seq<NodeId> = carried_children(dom, started, s, c, 0);
    let tmpl: Seq<NodeId> = carried_template(dom, started, s, c);
    in_either(own, kids, y);
    in_either(own + kids, tmpl, y);
    if x == s && y == c {
        assert(own[0] == c);
    } else if corresponds_children(dom, s, c, 0, x, y) {
        started_children_are_carried(dom, started, s, c, 0, x, y);
    } else {
        started_sources_are_carried(dom, started, dom.template(s)->0, dom.template(c)->0, x, y);
    }
}

proof fn started_children_are_carried(
    dom: DomTree,
    started: Set<NodeId>,
    s: NodeId,
    c: NodeId,
    k: int,
    x: NodeId,
    y: NodeId,
)
    requires
        dom.wf(),
        corresponds_children(dom, s, c, k, x, y),
        started.contains(x),
    ensures
        carried_children(dom, started, s, c, k).contains(y),
    decreases dom.height(s), dom.children(s).len() - k,
{
    let a: NodeId = dom.children(s)[k];
    let b: NodeId = dom.children(c)[k];
    in_either(carried(dom, started, a, b), carried_children(dom, started, s, c, k + 1), y);
    if corresponds(dom, a, b, x, y) {
        started_sources_are_carried(dom, started, a, b, x, y);
    } else {
        started_children_are_carried(dom, started, s, c, k + 1, x, y);
    }
}

proof fn carried_has_a_source(
    dom: DomTree,
    started: Set<NodeId>,
    s: NodeId,
    c: NodeId,
    y: NodeId,
) -> (x: NodeId)
    requires
        carried(dom, started, s, c).contains(y),
    ensures
        corresponds(dom, s, c, x, y),
        started.contains(x),
    decreases dom.height(s), dom.children(s).len() + 1,
{
    let own: Seq<NodeId> = own_carried(started, s, c);
    let kids: Seq<NodeId> = carried_children(dom, started, s, c, 0);
    let tmpl: Seq<NodeId> = carried_template(dom, started, s, c);
    in_either(own, kids, y);
    in_either(own + kids, tmpl, y);
    if own.contains(y) {
        s
    } else if kids.contains(y) {
        carried_child_has_a_source(dom, started, s, c, 0, y)
    } else {
        carried_has_a_source(dom, started, dom.template(s)->0, dom.template(c)->0, y)
    }
}

proof fn carried_child_has_a_source(
    dom: DomTree,
    started: Set<NodeId>,
    s: NodeId,
    c: NodeId,
    k: int,
    y: NodeId,
) -> (x: NodeId)
    requires
        carried_children(dom, started, s, c, k).contains(y),
    ensures
        corresponds_children(dom, s, c, k, x, y),
        started.contains(x),
    decreases dom.height(s), dom.children(s).len() - k,
{
    let a: NodeId = dom.children(s)[k];
    let b: NodeId = dom.children(c)[k];
    in_either(carried(dom, started, a, b), carried_children(dom, started, s, c, k + 1), y);
    if carried(dom, started, a, b).contains(y) {
        carried_has_a_source(dom, started, a, b, y)
    } else {
        carried_child_has_a_source(dom, started, s, c, k + 1, y)
    }
}

/// `n` is a child of `p` or its template contents.
spec fn holds(dom: DomTree, p: NodeId, n: NodeId) -> bool {
    dom.parent(n) == Some(p) || dom.template(p) == Some(n)
}

proof fn holder_is_above(dom: DomTree, p: NodeId, n: NodeId)
    requires
        dom.wf(),
        holds(dom, p, n),
    ensures
        dom.height(n) < dom.height(p),
{
    if dom.template(p) == Some(n) {
        assert(dom.linked(p, dom.node(p)->0));
    } else {
        assert(dom.linked(n, dom.node(n)->0));
        let i: int = dom.node(n)->0.index as int;
        assert(dom.linked(p, dom.node(p)->0));
        assert(dom.child_linked(p, dom.node(p)->0, i));
    }
}

proof fn one_holder(dom: DomTree, p: NodeId, q: NodeId, n: NodeId)
    requires
        dom.wf(),
        holds(dom, p, n),
        holds(dom, q, n),
    ensures
        p == q,
{
    if dom.template(p) == Some(n) {
        assert(dom.linked(p, dom.node(p)->0));
    }
    if dom.template(q) == Some(n) {
        assert(dom.linked(q, dom.node(q)->0));
    }
}

proof fn children_are_held(dom: DomTree, n: NodeId)
    requires
        dom.wf(),
    ensures
        forall|k: int| 0 <= k < dom.children(n).len() ==> holds(dom, n, #[trigger] dom.children(n)[k]),
        forall|k: int|
            0 <= k < dom.children(n).len() ==> dom.index(#[trigger] dom.children(n)[k]) == k,
{
    if dom.node(n) is Some {
        assert(dom.linked(n, dom.node(n)->0));
        assert forall|k: int| 0 <= k < dom.children(n).len() implies holds(
            dom,
            n,
            #[trigger] dom.children(n)[k],
        ) && dom.index(dom.children(n)[k]) == k by {
            assert(dom.child_linked(n, dom.node(n)->0, k));
        }
    }
}

proof fn nothing_is_above_its_root(dom: DomTree, a: NodeId, y: NodeId)
    requires
        dom.wf(),
        stands_under(dom, a, y),
    ensures
        dom.height(y) <= dom.height(a),
        y != a ==> dom.height(y) < dom.height(a),
    decreases dom.height(a), dom.children(a).len() + 1,
{
    if stands_under_children(dom, a, 0, y) {
        nothing_is_above_its_parent(dom, a, 0, y);
    } else if y != a {
        nothing_is_above_its_root(dom, dom.template(a)->0, y);
    }
}

proof fn nothing_is_above_its_parent(dom: DomTree, a: NodeId, k: int, y: NodeId)
    requires
        dom.wf(),
        stands_under_children(dom, a, k, y),
    ensures
        dom.height(y) < dom.height(a),
    decreases dom.height(a), dom.children(a).len() - k,
{
    if stands_under(dom, dom.children(a)[k], y) {
        nothing_is_above_its_root(dom, dom.children(a)[k], y);
    } else {
        nothing_is_above_its_parent(dom, a, k + 1, y);
    }
}

proof fn holder(dom: DomTree, a: NodeId, y: NodeId) -> (p: NodeId)
    requires
        dom.wf(),
        stands_under(dom, a, y),
        a != y,
    ensures
        holds(dom, p, y),
        stands_under(dom, a, p),
    decreases dom.height(a), dom.children(a).len() + 1,
{
    if stands_under_children(dom, a, 0, y) {
        holder_from(dom, a, 0, y)
    } else {
        let t: NodeId = dom.template(a)->0;
        if t == y {
            a
        } else {
            holder(dom, t, y)
        }
    }
}

proof fn holder_from(dom: DomTree, a: NodeId, k: int, y: NodeId) -> (p: NodeId)
    requires
        dom.wf(),
        stands_under_children(dom, a, k, y),
    ensures
        holds(dom, p, y),
        p == a || stands_under_children(dom, a, k, p),
    decreases dom.height(a), dom.children(a).len() - k,
{
    children_are_held(dom, a);
    let c: NodeId = dom.children(a)[k];
    if c == y {
        a
    } else if stands_under(dom, c, y) {
        holder(dom, c, y)
    } else {
        holder_from(dom, a, k + 1, y)
    }
}

proof fn siblings_are_apart(dom: DomTree, p: NodeId, a: NodeId, b: NodeId, y: NodeId)
    requires
        dom.wf(),
        holds(dom, p, a),
        holds(dom, p, b),
        a != b,
        stands_under(dom, a, y),
    ensures
        !stands_under(dom, b, y),
    decreases dom.height(a) - dom.height(y),
{
    holder_is_above(dom, p, a);
    holder_is_above(dom, p, b);
    nothing_is_above_its_root(dom, a, y);
    if stands_under(dom, b, y) {
        if y == a {
            let q: NodeId = holder(dom, b, a);
            one_holder(dom, p, q, a);
            nothing_is_above_its_root(dom, b, p);
        } else if y == b {
            let q: NodeId = holder(dom, a, b);
            one_holder(dom, p, q, b);
            nothing_is_above_its_root(dom, a, p);
        } else {
            let q: NodeId = holder(dom, a, y);
            let r: NodeId = holder(dom, b, y);
            one_holder(dom, q, r, y);
            holder_is_above(dom, q, y);
            nothing_is_above_its_root(dom, a, q);
            siblings_are_apart(dom, p, a, b, q);
        }
    }
}

proof fn counterpart_is_in_the_clone(dom: DomTree, s: NodeId, c: NodeId, x: NodeId, y: NodeId)
    requires
        dom.wf(),
        corresponds(dom, s, c, x, y),
    ensures
        stands_under(dom, c, y),
    decreases dom.height(s), dom.children(s).len() + 1,
{
    children_are_lower(dom, c);
    if corresponds_children(dom, s, c, 0, x, y) {
        counterpart_is_in_the_children(dom, s, c, 0, x, y);
    } else if !(x == s && y == c) {
        counterpart_is_in_the_clone(dom, dom.template(s)->0, dom.template(c)->0, x, y);
    }
}

proof fn counterpart_is_in_the_children(
    dom: DomTree,
    s: NodeId,
    c: NodeId,
    k: int,
    x: NodeId,
    y: NodeId,
)
    requires
        dom.wf(),
        corresponds_children(dom, s, c, k, x, y),
    ensures
        stands_under_children(dom, c, k, y),
    decreases dom.height(s), dom.children(s).len() - k,
{
    children_are_lower(dom, c);
    assert(dom.height(dom.children(c)[k]) < dom.height(c));
    if corresponds(dom, dom.children(s)[k], dom.children(c)[k], x, y) {
        counterpart_is_in_the_clone(dom, dom.children(s)[k], dom.children(c)[k], x, y);
    } else {
        counterpart_is_in_the_children(dom, s, c, k + 1, x, y);
    }
}

/// Where a counterpart is to be found: at the root, under the child at a
/// position, or in the template contents.
spec fn found_at(dom: DomTree, s: NodeId, c: NodeId, x: NodeId, y: NodeId, j: int) -> bool {
    if j == -2 {
        x == s && y == c
    } else if j == -1 {
        &&& dom.template(s) is Some
        &&& dom.template(c) is Some
        &&& dom.height(dom.template(s)->0) < dom.height(s)
        &&& corresponds(dom, dom.template(s)->0, dom.template(c)->0, x, y)
    } else {
        &&& 0 <= j < dom.children(s).len()
        &&& j < dom.children(c).len()
        &&& dom.height(dom.children(s)[j]) < dom.height(s)
        &&& corresponds(dom, dom.children(s)[j], dom.children(c)[j], x, y)
    }
}

proof fn place_of(dom: DomTree, s: NodeId, c: NodeId, x: NodeId, y: NodeId) -> (j: int)
    requires
        corresponds(dom, s, c, x, y),
    ensures
        found_at(dom, s, c, x, y, j),
{
    if x == s && y == c {
        -2
    } else if corresponds_children(dom, s, c, 0, x, y) {
        place_from(dom, s, c, 0, x, y)
    } else {
        -1
    }
}

proof fn place_from(dom: DomTree, s: NodeId, c: NodeId, k: int, x: NodeId, y: NodeId) -> (j: int)
    requires
        corresponds_children(dom, s, c, k, x, y),
    ensures
        j >= 0,
        found_at(dom, s, c, x, y, j),
    decreases dom.children(s).len() - k,
{
    if corresponds(dom, dom.children(s)[k], dom.children(c)[k], x, y) {
        k
    } else {
        place_from(dom, s, c, k + 1, x, y)
    }
}

proof fn place_is_the_same(
    dom: DomTree,
    s: NodeId,
    c: NodeId,
    x: NodeId,
    z: NodeId,
    y: NodeId,
    i: int,
    j: int,
)
    requires
        dom.wf(),
        found_at(dom, s, c, x, y, i),
        found_at(dom, s, c, z, y, j),
    ensures
        i == j,
{
    children_are_held(dom, c);
    let a: NodeId = if i == -1 {
        dom.template(c)->0
    } else {
        dom.children(c)[i]
    };
    let b: NodeId = if j == -1 {
        dom.template(c)->0
    } else {
        dom.children(c)[j]
    };
    if i != -2 {
        let from: NodeId = if i == -1 {
            dom.template(s)->0
        } else {
            dom.children(s)[i]
        };
        assert(holds(dom, c, a));
        counterpart_is_in_the_clone(dom, from, a, x, y);
        holder_is_above(dom, c, a);
        nothing_is_above_its_root(dom, a, y);
    }
    if j != -2 {
        let from: NodeId = if j == -1 {
            dom.template(s)->0
        } else {
            dom.children(s)[j]
        };
        assert(holds(dom, c, b));
        counterpart_is_in_the_clone(dom, from, b, z, y);
        holder_is_above(dom, c, b);
        nothing_is_above_its_root(dom, b, y);
    }
    if i != j && i != -2 && j != -2 {
        if a == b {
            assert(dom.linked(c, dom.node(c)->0));
            if i >= 0 {
                assert(dom.index(dom.children(c)[i]) == i);
                assert(dom.child_linked(c, dom.node(c)->0, i));
            }
            if j >= 0 {
                assert(dom.index(dom.children(c)[j]) == j);
                assert(dom.child_linked(c, dom.node(c)->0, j));
            }
        } else {
            siblings_are_apart(dom, c, a, b, y);
        }
    }
}

proof fn counterpart_has_one_source(
    dom: DomTree,
    s: NodeId,
    c: NodeId,
    x: NodeId,
    z: NodeId,
    y: NodeId,
)
    requires
        dom.wf(),
        corresponds(dom, s, c, x, y),
        corresponds(dom, s, c, z, y),
    ensures
        x == z,
    decreases dom.height(s),
{
    let i: int = place_of(dom, s, c, x, y);
    let j: int = place_of(dom, s, c, z, y);
    place_is_the_same(dom, s, c, x, z, y, i, j);
    if i == -1 {
        counterpart_has_one_source(dom, dom.template(s)->0, dom.template(c)->0, x, z, y);
    } else if i >= 0 {
        counterpart_has_one_source(dom, dom.children(s)[i], dom.children(c)[i], x, z, y);
    }
}

/// The started elements once the state of a subtree was carried to its clone.
pub open spec fn started_after_clone(
    dom: DomTree,
    started: Set<NodeId>,
    s: NodeId,
    c: NodeId,
) -> Set<NodeId> {
    started.union(carried(dom, started, s, c).to_set())
}

/// A clone is started exactly where what it stands for is: `y`, which stands in
/// the clone for `x`, is started afterwards if and only if `x` was. Every
/// element that was started stays so, and none is added but those that stand
/// for a started one.
pub proof fn clones_keep_started_state(
    dom: DomTree,
    started: Set<NodeId>,
    s: NodeId,
    c: NodeId,
    x: NodeId,
    y: NodeId,
)
    requires
        dom.wf(),
        forall|n: NodeId| stands_under(dom, c, n) ==> !#[trigger] started.contains(n),
        corresponds(dom, s, c, x, y),
    ensures
        started_after_clone(dom, started, s, c).contains(y) <==> started.contains(x),
        forall|n: NodeId| #[trigger]
            started.contains(n) ==> started_after_clone(dom, started, s, c).contains(n),
        forall|n: NodeId| #[trigger]
            started_after_clone(dom, started, s, c).contains(n) && !started.contains(n)
                ==> exists|m: NodeId| started.contains(m) && #[trigger] corresponds(dom, s, c, m, n),
{
    let after: Set<NodeId> = started_after_clone(dom, started, s, c);
    let more: Seq<NodeId> = carried(dom, started, s, c);
    counterpart_is_in_the_clone(dom, s, c, x, y);
    assert(!started.contains(y));
    if started.contains(x) {
        started_sources_are_carried(dom, started, s, c, x, y);
        assert(more.to_set().contains(y));
    }
    if after.contains(y) {
        assert(more.contains(y));
        let z: NodeId = carried_has_a_source(dom, started, s, c, y);
        counterpart_has_one_source(dom, s, c, x, z, y);
    }
    assert forall|n: NodeId| #[trigger] after.contains(n) && !started.contains(n) implies exists|
        m: NodeId,
    | started.contains(m) && #[trigger] corresponds(dom, s, c, m, n) by {
        assert(more.contains(n));
        let m: NodeId = carried_has_a_source(dom, started, s, c, n);
        assert(corresponds(dom, s, c, m, n));
    }
}

/// An element is a script where its local name is `script` in any case of its
/// letters; nothing else is one.
pub proof fn scripts_go_by_their_local_name(dom: DomTree, id: NodeId)
    ensures
        match dom.node(id) {
            Some(n) => match n.data {
                NodeData::Element { name, template_contents } => {
                    &&& lowered(name.local@) == lowered("script"@) ==> is_script(dom, id)
                    &&& name.local@ == "script"@ ==> is_script(dom, id)
                    &&& lowered(name.local@) != lowered("script"@) ==> !is_script(dom, id)
                },
                _ => !is_script(dom, id),
            },
            None => !is_script(dom, id),
        },
{
}

} // verus!
