//! A document tree as plain values: what the page-side logic reads of it.

use vstd::prelude::*;

use crate::text::opt_text;

verus! {

/// A node's identity: its slot in the tree.
pub type NodeId = u64;

/// A qualified element name: namespace, optional prefix and local name.
pub struct QualName<S> {
    pub prefix: Option<S>,
    pub ns: S,
    pub local: S,
}

impl QualName<String> {
    /// The name over scalar sequences.
    pub open spec fn view(self) -> QualName<Seq<char>> {
        QualName { prefix: opt_text(self.prefix), ns: self.ns@, local: self.local@ }
    }

    /// A copy of the name.
    pub fn copied(&self) -> (r: Self)
        ensures
            r@ == self@,
    {
        let prefix: Option<String> = match &self.prefix {
            Some(p) => Some(p.as_str().to_owned()),
            None => None,
        };
        QualName { prefix, ns: self.ns.as_str().to_owned(), local: self.local.as_str().to_owned() }
    }
}

/// What kind of node stands in a slot, with the data of its kind.
pub enum NodeData<S> {
    Document,
    Element { name: QualName<S>, template_contents: Option<NodeId> },
    Text { contents: S },
    Comment { contents: S },
    Doctype { name: S, public_id: S, system_id: S },
    ProcessingInstruction { target: S, data: S },
}

impl NodeData<String> {
    /// The data over scalar sequences.
    pub open spec fn view(self) -> NodeData<Seq<char>> {
        match self {
            NodeData::Document => NodeData::Document,
            NodeData::Element { name, template_contents } => NodeData::Element {
                name: name@,
                template_contents,
            },
            NodeData::Text { contents } => NodeData::Text { contents: contents@ },
            NodeData::Comment { contents } => NodeData::Comment { contents: contents@ },
            NodeData::Doctype { name, public_id, system_id } => NodeData::Doctype {
                name: name@,
                public_id: public_id@,
                system_id: system_id@,
            },
            NodeData::ProcessingInstruction { target, data } => NodeData::ProcessingInstruction {
                target: target@,
                data: data@,
            },
        }
    }
}

/// One node: its data and its edges. `depth` counts its ancestors, `index` is
/// its position among its parent's children, and `height` is above that of
/// every child and of the template contents.
pub struct Node {
    pub data: NodeData<String>,
    pub parent: Option<NodeId>,
    pub first_child: Option<NodeId>,
    pub last_child: Option<NodeId>,
    pub next_sibling: Option<NodeId>,
    pub prev_sibling: Option<NodeId>,
    pub children: Vec<NodeId>,
    pub connected: bool,
    pub depth: u64,
    pub index: u64,
    pub height: u64,
}

impl Node {
    /// The slot of the template contents, where this is a template with any.
    pub open spec fn template(self) -> Option<NodeId> {
        match self.data {
            NodeData::Element { name, template_contents } => template_contents,
            _ => None,
        }
    }
}

/// A document tree. A slot may be empty.
pub struct DomTree {
    pub nodes: Vec<Option<Node>>,
    pub document: NodeId,
}

impl DomTree {
    /// The node in slot `id`, where there is one.
    pub open spec fn node(self, id: NodeId) -> Option<Node> {
        if id < self.nodes@.len() {
            self.nodes@[id as int]
        } else {
            None
        }
    }

    /// The parent of `id`.
    pub open spec fn parent(self, id: NodeId) -> Option<NodeId> {
        match self.node(id) {
            Some(n) => n.parent,
            None => None,
        }
    }

    /// The children of `id`, in order.
    pub open spec fn children(self, id: NodeId) -> Seq<NodeId> {
        match self.node(id) {
            Some(n) => n.children@,
            None => Seq::empty(),
        }
    }

    /// The template contents of `id`.
    pub open spec fn template(self, id: NodeId) -> Option<NodeId> {
        match self.node(id) {
            Some(n) => n.template(),
            None => None,
        }
    }

    /// The number of ancestors of `id`.
    pub open spec fn depth(self, id: NodeId) -> nat {
        match self.node(id) {
            Some(n) => n.depth as nat,
            None => 0,
        }
    }

    /// The height of `id` over its children and its template contents.
    pub open spec fn height(self, id: NodeId) -> nat {
        match self.node(id) {
            Some(n) => n.height as nat,
            None => 0,
        }
    }

    /// The position of `id` among its parent's children, zero without one.
    pub open spec fn index(self, id: NodeId) -> nat {
        match self.node(id) {
            Some(n) => n.index as nat,
            None => 0,
        }
    }

    /// Whether `id` is connected to the document.
    pub open spec fn connected(self, id: NodeId) -> bool {
        match self.node(id) {
            Some(n) => n.connected,
            None => false,
        }
    }

    /// `c` is the child of `n` (in slot `id`) at position `k`, with the edges
    /// that go with that place.
    pub open spec fn child_linked(self, id: NodeId, n: Node, k: int) -> bool {
        match self.node(n.children@[k]) {
            Some(c) => {
                &&& c.parent == Some(id)
                &&& c.index == k
                &&& c.depth == n.depth + 1
                &&& c.height < n.height
                &&& c.prev_sibling == (if k == 0 {
                    None
                } else {
                    Some(n.children@[k - 1])
                })
                &&& c.next_sibling == (if k + 1 == n.children@.len() {
                    None
                } else {
                    Some(n.children@[k + 1])
                })
            },
            None => false,
        }
    }

    /// The upward edges of `n` agree with its parent's child list; a node
    /// without a parent has no siblings.
    pub open spec fn parent_linked(self, id: NodeId, n: Node) -> bool {
        match n.parent {
            Some(p) => match self.node(p) {
                Some(q) => n.index < q.children@.len() && q.children@[n.index as int] == id,
                None => false,
            },
            None => n.index == 0 && n.depth == 0 && n.prev_sibling is None
                && n.next_sibling is None,
        }
    }

    /// The edges of the node in slot `id` are those of a tree.
    pub open spec fn linked(self, id: NodeId, n: Node) -> bool {
        &&& self.parent_linked(id, n)
        &&& n.first_child == (if n.children@.len() == 0 {
            None
        } else {
            Some(n.children@[0])
        })
        &&& n.last_child == (if n.children@.len() == 0 {
            None
        } else {
            Some(n.children@.last())
        })
        &&& match n.template() {
            Some(t) => self.node(t) is Some && self.parent(t) is None && self.height(t) < n.height,
            None => true,
        }
        &&& forall|k: int| 0 <= k < n.children@.len() ==> #[trigger] self.child_linked(id, n, k)
    }

    /// No two templates share their contents.
    pub open spec fn templates_apart(self) -> bool {
        forall|a: NodeId, b: NodeId|
            (#[trigger] self.template(a)) is Some && self.template(a) == (#[trigger] self.template(
                b,
            )) ==> a == b
    }

    /// Every slot holds a properly linked node or none, the document's slot
    /// holds one, and no two templates share their contents.
    pub open spec fn wf(self) -> bool {
        &&& self.node(self.document) is Some
        &&& self.templates_apart()
        &&& forall|id: NodeId|
            (#[trigger] self.node(id)) is Some ==> self.linked(id, self.node(id)->0)
    }

    /// The node in slot `id`, where there is one.
    pub fn get_node(&self, id: NodeId) -> (r: Option<&Node>)
        ensures
            match r {
                Some(n) => self.node(id) == Some(*n),
                None => self.node(id) is None,
            },
    {
        if id < self.nodes.len() as u64 {
            self.nodes[id as usize].as_ref()
        } else {
            None
        }
    }

    /// The parent of `id`.
    pub fn parent_of(&self, id: NodeId) -> (r: Option<NodeId>)
        ensures
            r == self.parent(id),
    {
        match self.get_node(id) {
            Some(n) => n.parent,
            None => None,
        }
    }

    /// The sibling before `id`.
    pub fn prev_of(&self, id: NodeId) -> (r: Option<NodeId>)
        ensures
            r == (match self.node(id) {
                Some(n) => n.prev_sibling,
                None => None,
            }),
    {
        match self.get_node(id) {
            Some(n) => n.prev_sibling,
            None => None,
        }
    }

    /// The template contents of `id`.
    pub fn template_of(&self, id: NodeId) -> (r: Option<NodeId>)
        ensures
            r == self.template(id),
    {
        match self.get_node(id) {
            Some(n) => match &n.data {
                NodeData::Element { name: _, template_contents } => *template_contents,
                _ => None,
            },
            None => None,
        }
    }

    /// The children of `id`, in order.
    pub fn children_of(&self, id: NodeId) -> (r: Vec<NodeId>)
        ensures
            r@ == self.children(id),
    {
        let mut r: Vec<NodeId> = Vec::new();
        match self.get_node(id) {
            Some(n) => {
                let mut i: usize = 0;
                while i < n.children.len()
                    invariant
                        i <= n.children@.len(),
                        r@ == n.children@.take(i as int),
                    decreases n.children@.len() - i,
                {
                    r.push(n.children[i]);
                    i = i + 1;
                    assert(n.children@.take(i as int) =~= n.children@.take(i - 1).push(
                        n.children@[i - 1],
                    ));
                }
                assert(n.children@.take(i as int) =~= n.children@);
            },
            None => {},
        }
        r
    }

    /// Whether `id` is connected to the document.
    pub fn is_connected(&self, id: NodeId) -> (r: bool)
        ensures
            r == self.connected(id),
    {
        match self.get_node(id) {
            Some(n) => n.connected,
            None => false,
        }
    }

    fn check_child(&self, id: NodeId, n: &Node, k: usize) -> (r: bool)
        requires
            k < n.children@.len(),
        ensures
            r == self.child_linked(id, *n, k as int),
    {
        let len: usize = n.children.len();
        match self.get_node(n.children[k]) {
            Some(c) => {
                let before: Option<NodeId> = if k == 0 {
                    None
                } else {
                    Some(n.children[k - 1])
                };
                let after: Option<NodeId> = if k + 1 == len {
                    None
                } else {
                    Some(n.children[k + 1])
                };
                c.parent == Some(id) && c.index == k as u64 && c.depth > 0 && c.depth - 1 == n.depth
                    && c.height < n.height && c.prev_sibling == before && c.next_sibling == after
            },
            None => false,
        }
    }

    fn check_parent(&self, id: NodeId, n: &Node) -> (r: bool)
        ensures
            r == self.parent_linked(id, *n),
    {
        match n.parent {
            Some(p) => match self.get_node(p) {
                Some(q) => n.index < q.children.len() as u64 && q.children[n.index as usize] == id,
                None => false,
            },
            None => n.index == 0 && n.depth == 0 && n.prev_sibling.is_none()
                && n.next_sibling.is_none(),
        }
    }

    fn check_node(&self, id: NodeId, n: &Node) -> (r: bool)
        ensures
            r == self.linked(id, *n),
    {
        let len: usize = n.children.len();
        let first: Option<NodeId> = if len == 0 {
            None
        } else {
            Some(n.children[0])
        };
        let last: Option<NodeId> = if len == 0 {
            None
        } else {
            Some(n.children[len - 1])
        };
        if !self.check_parent(id, n) || n.first_child != first || n.last_child != last {
            return false;
        }
        match &n.data {
            NodeData::Element { name: _, template_contents } => match *template_contents {
                Some(t) => match self.get_node(t) {
                    Some(q) => {
                        if q.parent.is_some() || q.height >= n.height {
                            return false;
                        }
                    },
                    None => {
                        return false;
                    },
                },
                None => {},
            },
            _ => {},
        }
        let mut k: usize = 0;
        while k < len
            invariant
                k <= len,
                len == n.children@.len(),
                forall|j: int| 0 <= j < k ==> #[trigger] self.child_linked(id, *n, j),
            decreases len - k,
        {
            if !self.check_child(id, n, k) {
                return false;
            }
            k = k + 1;
        }
        true
    }

    fn check_templates(&self) -> (r: bool)
        requires
            forall|id: NodeId|
                (#[trigger] self.template(id)) is Some ==> self.template(id)->0
                    < self.nodes@.len(),
        ensures
            r == self.templates_apart(),
    {
        let n: usize = self.nodes.len();
        let mut seen: Vec<bool> = Vec::new();
        let mut k: usize = 0;
        while k < n
            invariant
                k <= n,
                seen@.len() == k,
                forall|t: int| 0 <= t < k ==> !#[trigger] seen@[t],
            decreases n - k,
        {
            seen.push(false);
            k = k + 1;
        }
        let mut i: usize = 0;
        while i < n
            invariant
                i <= n,
                n == self.nodes@.len(),
                seen@.len() == n,
                forall|id: NodeId|
                    (#[trigger] self.template(id)) is Some ==> self.template(id)->0
                        < self.nodes@.len(),
                forall|t: NodeId|
                    t < n ==> (#[trigger] seen@[t as int] <==> exists|a: NodeId|
                        a < i && #[trigger] self.template(a) == Some(t)),
                forall|a: NodeId, b: NodeId|
                    a < i && b < i && (#[trigger] self.template(a)) is Some && self.template(a) == (
                    #[trigger] self.template(b)) ==> a == b,
            decreases n - i,
        {
            match self.template_of(i as u64) {
                Some(t) => {
                    if seen[t as usize] {
                        proof {
                            let a: NodeId = choose|a: NodeId|
                                a < i && #[trigger] self.template(a) == Some(t);
                            assert(self.template(a) == self.template(i as u64));
                        }
                        return false;
                    }
                    let ghost before: Seq<bool> = seen@;
                    seen.set(t as usize, true);
                    assert forall|u: NodeId| u < n implies (#[trigger] seen@[u as int]
                        <==> exists|a: NodeId| a < i + 1 && #[trigger] self.template(a) == Some(
                        u,
                    )) by {
                        assert(self.template(i as u64) == Some(t));
                        if u != t {
                            assert(seen@[u as int] == before[u as int]);
                        }
                    }
                    assert(!before[t as int]);
                },
                None => {},
            }
            i = i + 1;
        }
        true
    }

    /// The tree with these slots, where they are linked as a tree.
    pub fn build(nodes: Vec<Option<Node>>, document: NodeId) -> (r: Option<DomTree>)
        ensures
            match r {
                Some(t) => t == (DomTree { nodes, document }) && t.wf(),
                None => !(DomTree { nodes, document }).wf(),
            },
    {
        let tree: DomTree = DomTree { nodes, document };
        if tree.get_node(document).is_none() {
            return None;
        }
        let n: usize = tree.nodes.len();
        let mut i: usize = 0;
        while i < n
            invariant
                i <= n,
                n == tree.nodes@.len(),
                tree.node(document) is Some,
                tree.document == document,
                tree == (DomTree { nodes, document }),
                forall|id: NodeId|
                    id < i && (#[trigger] tree.node(id)) is Some ==> tree.linked(
                        id,
                        tree.node(id)->0,
                    ),
            decreases n - i,
        {
            match tree.get_node(i as u64) {
                Some(node) => {
                    if !tree.check_node(i as u64, node) {
                        assert(tree.node(i as u64) is Some);
                        return None;
                    }
                },
                None => {},
            }
            i = i + 1;
        }
        assert forall|id: NodeId| (#[trigger] tree.template(id)) is Some implies tree.template(id)->0
            < tree.nodes@.len() by {
            assert(tree.linked(id, tree.node(id)->0));
        }
        if tree.check_templates() {
            Some(tree)
        } else {
            None
        }
    }
}

} // verus!
