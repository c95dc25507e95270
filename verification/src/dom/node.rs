//! Nodes and events as page script sees them.

use vstd::prelude::*;

use crate::dom::command::{character_data, has_character_data};
use crate::dom::impact::is_empty;
use crate::dom::order::{inclusive_ancestor, node_ancestors_root_first, parent_step, path};
use crate::dom::read::{element_name, kind_number, name_of, node_name, node_name_text, node_type};
use crate::dom::tree::{DomTree, Node, NodeId, QualName};

verus! {

/// A change of the tree. `S` is the type of texts and `L` that of lists of
/// nodes.
pub enum DomEdit<S, L> {
    AppendChild(NodeId, NodeId),
    RemoveChild(NodeId),
    /// Inserts the second node before the first.
    InsertBefore(NodeId, NodeId),
    SetCharacterData(NodeId, S),
    Detach(L),
    AppendText(NodeId, S),
    /// Parses HTML in the context of an element name, and appends what it
    /// holds to a node.
    ImportHtml(NodeId, QualName<S>, S),
}

/// A change over scalar sequences.
pub type EditView = DomEdit<Seq<char>, Seq<NodeId>>;

impl DomEdit<String, Vec<NodeId>> {
    /// The change over scalar sequences.
    pub open spec fn view(self) -> EditView {
        match self {
            DomEdit::AppendChild(p, c) => DomEdit::AppendChild(p, c),
            DomEdit::RemoveChild(c) => DomEdit::RemoveChild(c),
            DomEdit::InsertBefore(r, n) => DomEdit::InsertBefore(r, n),
            DomEdit::SetCharacterData(n, s) => DomEdit::SetCharacterData(n, s@),
            DomEdit::Detach(l) => DomEdit::Detach(l@),
            DomEdit::AppendText(n, s) => DomEdit::AppendText(n, s@),
            DomEdit::ImportHtml(n, q, s) => DomEdit::ImportHtml(n, q@, s@),
        }
    }
}

/// Changes over scalar sequences.
pub open spec fn edits(v: Seq<DomEdit<String, Vec<NodeId>>>) -> Seq<EditView> {
    v.map_values(|e: DomEdit<String, Vec<NodeId>>| e@)
}

/// What the tree engine makes of a change that moves a node: `after` is a tree
/// that it may leave.
pub open spec fn may_leave(edit: EditView, after: DomTree) -> bool {
    match edit {
        DomEdit::AppendChild(parent, child) => {
            &&& after.parent(child) == Some(parent)
            &&& after.node(parent) matches Some(p) && p.last_child == Some(child)
        },
        DomEdit::RemoveChild(child) => after.parent(child) is None,
        DomEdit::InsertBefore(reference, new_node) => {
            &&& after.parent(new_node) == after.parent(reference)
            &&& after.node(new_node) matches Some(n) && n.next_sibling == Some(reference)
        },
        _ => true,
    }
}

/// A node as page script holds it.
pub struct JsNode {
    pub nid: NodeId,
}

/// The node in the page's tree.
pub open spec fn page_node(dom: Option<DomTree>, id: NodeId) -> Option<Node> {
    match dom {
        Some(d) => d.node(id),
        None => None,
    }
}

/// The changes that setting the text of a node makes: a node with text of its
/// own takes it, any other loses its children and gets one text, unless it is
/// empty.
pub open spec fn text_edits(dom: Option<DomTree>, id: NodeId, value: Seq<char>) -> Seq<EditView> {
    match dom {
        None => Seq::empty(),
        Some(d) => if character_data(d, id) {
            seq![EditView::SetCharacterData(id, value)]
        } else if value.len() == 0 {
            seq![EditView::Detach(d.children(id))]
        } else {
            seq![EditView::Detach(d.children(id)), EditView::AppendText(id, value)]
        },
    }
}

/// The changes that setting the HTML of a node makes: the document is left
/// alone, and what is no element only loses its children.
pub open spec fn html_edits(dom: Option<DomTree>, id: NodeId, html: Seq<char>) -> Seq<EditView> {
    match dom {
        None => Seq::empty(),
        Some(d) => if id == d.document {
            Seq::empty()
        } else {
            let emptied: EditView = EditView::Detach(d.children(id));
            match element_name(d.node(id)) {
                Some(name) => if html.len() == 0 {
                    seq![emptied]
                } else {
                    seq![emptied, EditView::ImportHtml(id, name, html)]
                },
                None => seq![emptied],
            }
        },
    }
}

/// The nearest of the node and its ancestors that is among `matching`.
pub open spec fn nearest(dom: DomTree, id: NodeId, matching: Seq<NodeId>) -> Option<NodeId>
    decreases dom.depth(id),
{
    if matching.contains(id) {
        Some(id)
    } else {
        match dom.parent(id) {
            Some(p) => if dom.depth(p) < dom.depth(id) {
                nearest(dom, p, matching)
            } else {
                None
            },
            None => None,
        }
    }
}

fn among(ids: &Vec<NodeId>, id: NodeId) -> (r: bool)
    ensures
        r == ids@.contains(id),
{
    let mut i: usize = 0;
    while i < ids.len()
        invariant
            i <= ids@.len(),
            forall|j: int| 0 <= j < i ==> #[trigger] ids@[j] != id,
        decreases ids@.len() - i,
    {
        if ids[i] == id {
            return true;
        }
        i = i + 1;
    }
    false
}

fn find_nearest(dom: &DomTree, from: NodeId, matching: &Vec<NodeId>) -> (r: Option<NodeId>)
    requires
        dom.wf(),
    ensures
        r == nearest(*dom, from, matching@),
{
    let mut id: NodeId = from;
    loop
        invariant
            dom.wf(),
            nearest(*dom, id, matching@) == nearest(*dom, from, matching@),
        decreases dom.depth(id),
    {
        if among(matching, id) {
            return Some(id);
        }
        match dom.parent_of(id) {
            Some(p) => {
                proof {
                    parent_step(*dom, id);
                }
                id = p;
            },
            None => {
                return None;
            },
        }
    }
}

fn one_edit(edit: DomEdit<String, Vec<NodeId>>) -> (r: Vec<DomEdit<String, Vec<NodeId>>>)
    ensures
        edits(r@) == seq![edit@],
{
    let mut v: Vec<DomEdit<String, Vec<NodeId>>> = Vec::new();
    v.push(edit);
    assert(edits(v@) =~= seq![edit@]);
    v
}

fn two_edits(first: DomEdit<String, Vec<NodeId>>, second: DomEdit<String, Vec<NodeId>>) -> (r: Vec<
    DomEdit<String, Vec<NodeId>>,
>)
    ensures
        edits(r@) == seq![first@, second@],
{
    let mut v: Vec<DomEdit<String, Vec<NodeId>>> = Vec::new();
    v.push(first);
    v.push(second);
    assert(edits(v@) =~= seq![first@, second@]);
    v
}

fn no_edit() -> (r: Vec<DomEdit<String, Vec<NodeId>>>)
    ensures
        edits(r@) == Seq::<EditView>::empty(),
{
    let v: Vec<DomEdit<String, Vec<NodeId>>> = Vec::new();
    assert(edits(v@) =~= Seq::<EditView>::empty());
    v
}

impl JsNode {
    /// The number of the node's kind; zero where there is no such node.
    pub fn node_type(&self, dom: &Option<DomTree>) -> (r: i32)
        ensures
            r == kind_number(page_node(*dom, self.nid)),
    {
        match dom {
            Some(d) => node_type(d, self.nid),
            None => 0,
        }
    }

    /// The name of the node; empty where there is no such node.
    pub fn node_name(&self, dom: &Option<DomTree>) -> (r: String)
        ensures
            r@ == node_name_text(page_node(*dom, self.nid)),
    {
        match dom {
            Some(d) => node_name(d, self.nid),
            None => String::new(),
        }
    }

    /// The parent.
    pub fn parent_node(&self, dom: &Option<DomTree>) -> (r: Option<NodeId>)
        ensures
            r == (match page_node(*dom, self.nid) {
                Some(n) => n.parent,
                None => None,
            }),
    {
        match dom {
            Some(d) => match d.get_node(self.nid) {
                Some(n) => n.parent,
                None => None,
            },
            None => None,
        }
    }

    /// The first child.
    pub fn first_child(&self, dom: &Option<DomTree>) -> (r: Option<NodeId>)
        ensures
            r == (match page_node(*dom, self.nid) {
                Some(n) => n.first_child,
                None => None,
            }),
    {
        match dom {
            Some(d) => match d.get_node(self.nid) {
                Some(n) => n.first_child,
                None => None,
            },
            None => None,
        }
    }

    /// The last child.
    pub fn last_child(&self, dom: &Option<DomTree>) -> (r: Option<NodeId>)
        ensures
            r == (match page_node(*dom, self.nid) {
                Some(n) => n.last_child,
                None => None,
            }),
    {
        match dom {
            Some(d) => match d.get_node(self.nid) {
                Some(n) => n.last_child,
                None => None,
            },
            None => None,
        }
    }

    /// The sibling behind the node.
    pub fn next_sibling(&self, dom: &Option<DomTree>) -> (r: Option<NodeId>)
        ensures
            r == (match page_node(*dom, self.nid) {
                Some(n) => n.next_sibling,
                None => None,
            }),
    {
        match dom {
            Some(d) => match d.get_node(self.nid) {
                Some(n) => n.next_sibling,
                None => None,
            },
            None => None,
        }
    }

    /// The sibling before the node.
    pub fn previous_sibling(&self, dom: &Option<DomTree>) -> (r: Option<NodeId>)
        ensures
            r == (match page_node(*dom, self.nid) {
                Some(n) => n.prev_sibling,
                None => None,
            }),
    {
        match dom {
            Some(d) => match d.get_node(self.nid) {
                Some(n) => n.prev_sibling,
                None => None,
            },
            None => None,
        }
    }

    /// Whether the node stands in the document.
    pub fn is_connected(&self, dom: &Option<DomTree>) -> (r: bool)
        ensures
            r == (match *dom {
                Some(d) => d.connected(self.nid),
                None => false,
            }),
    {
        match dom {
            Some(d) => d.is_connected(self.nid),
            None => false,
        }
    }

    /// Whether the node has children.
    pub fn has_child_nodes(&self, dom: &Option<DomTree>) -> (r: bool)
        ensures
            r == (match page_node(*dom, self.nid) {
                Some(n) => n.first_child is Some,
                None => false,
            }),
    {
        match self.first_child(dom) {
            Some(_) => true,
            None => false,
        }
    }

    /// Whether the other node is this one or stands below it.
    pub fn contains(&self, dom: &Option<DomTree>, other: Option<NodeId>) -> (r: bool)
        requires
            match *dom {
                Some(d) => d.wf(),
                None => true,
            },
        ensures
            r == (match (*dom, other) {
                (Some(d), Some(o)) => inclusive_ancestor(d, self.nid, o),
                _ => false,
            }),
    {
        match other {
            Some(o) => match dom {
                Some(d) => {
                    let up: Vec<NodeId> = node_ancestors_root_first(d, o);
                    among(&up, self.nid)
                },
                None => false,
            },
            None => false,
        }
    }

    /// The nearest of the node and its ancestors that matches a selector,
    /// given the nodes that match it.
    pub fn closest(&self, dom: &Option<DomTree>, matching: &Vec<NodeId>) -> (r: Option<NodeId>)
        requires
            match *dom {
                Some(d) => d.wf(),
                None => true,
            },
        ensures
            r == (match *dom {
                Some(d) => nearest(d, self.nid, matching@),
                None => None,
            }),
    {
        match dom {
            Some(d) => find_nearest(d, self.nid, matching),
            None => None,
        }
    }

    /// Appends a child.
    pub fn append_child(&self, dom: &Option<DomTree>, child: NodeId) -> (r: Vec<
        DomEdit<String, Vec<NodeId>>,
    >)
        ensures
            edits(r@) == (if dom is Some {
                seq![EditView::AppendChild(self.nid, child)]
            } else {
                Seq::empty()
            }),
            dom is Some ==> forall|after: DomTree| #[trigger]
                may_leave(edits(r@)[0], after) ==> after.parent(child) == Some(self.nid) && (
                after.node(self.nid)->0).last_child == Some(child),
    {
        match dom {
            Some(_) => one_edit(DomEdit::AppendChild(self.nid, child)),
            None => no_edit(),
        }
    }

    /// Removes a child.
    pub fn remove_child(&self, dom: &Option<DomTree>, child: NodeId) -> (r: Vec<
        DomEdit<String, Vec<NodeId>>,
    >)
        ensures
            edits(r@) == (if dom is Some {
                seq![EditView::RemoveChild(child)]
            } else {
                Seq::empty()
            }),
            dom is Some ==> forall|after: DomTree| #[trigger]
                may_leave(edits(r@)[0], after) ==> after.parent(child) is None,
    {
        match dom {
            Some(_) => one_edit(DomEdit::RemoveChild(child)),
            None => no_edit(),
        }
    }

    /// Inserts a child before another, or appends it where none is given.
    pub fn insert_before(
        &self,
        dom: &Option<DomTree>,
        new_child: NodeId,
        ref_child: Option<NodeId>,
    ) -> (r: Vec<DomEdit<String, Vec<NodeId>>>)
        ensures
            edits(r@) == (if dom is Some {
                match ref_child {
                    Some(reference) => seq![EditView::InsertBefore(reference, new_child)],
                    None => seq![EditView::AppendChild(self.nid, new_child)],
                }
            } else {
                Seq::empty()
            }),
            dom is Some ==> forall|after: DomTree| #[trigger]
                may_leave(edits(r@)[0], after) ==> match ref_child {
                    Some(reference) => after.parent(new_child) == after.parent(reference) && (
                    after.node(new_child)->0).next_sibling == Some(reference),
                    None => after.parent(new_child) == Some(self.nid) && (after.node(
                        self.nid,
                    )->0).last_child == Some(new_child),
                },
    {
        match dom {
            Some(_) => match ref_child {
                Some(reference) => one_edit(DomEdit::InsertBefore(reference, new_child)),
                None => one_edit(DomEdit::AppendChild(self.nid, new_child)),
            },
            None => no_edit(),
        }
    }

    /// Puts a child in the place of another.
    pub fn replace_child(&self, dom: &Option<DomTree>, new_child: NodeId, old_child: NodeId) -> (r:
        Vec<DomEdit<String, Vec<NodeId>>>)
        ensures
            edits(r@) == (if dom is Some {
                seq![
                    EditView::InsertBefore(old_child, new_child),
                    EditView::RemoveChild(old_child),
                ]
            } else {
                Seq::empty()
            }),
            dom is Some ==> forall|between: DomTree, after: DomTree|
                #[trigger] may_leave(edits(r@)[0], between) && #[trigger] may_leave(
                    edits(r@)[1],
                    after,
                ) ==> {
                    &&& between.parent(new_child) == between.parent(old_child)
                    &&& (between.node(new_child)->0).next_sibling == Some(old_child)
                    &&& after.parent(old_child) is None
                },
    {
        match dom {
            Some(_) => two_edits(
                DomEdit::InsertBefore(old_child, new_child),
                DomEdit::RemoveChild(old_child),
            ),
            None => no_edit(),
        }
    }

    /// Sets the text of the node.
    pub fn set_text_content(&self, dom: &Option<DomTree>, value: String) -> (r: Vec<
        DomEdit<String, Vec<NodeId>>,
    >)
        ensures
            edits(r@) == text_edits(*dom, self.nid, value@),
    {
        match dom {
            Some(d) => {
                if has_character_data(d, self.nid) {
                    one_edit(DomEdit::SetCharacterData(self.nid, value))
                } else {
                    let children: Vec<NodeId> = d.children_of(self.nid);
                    if is_empty(value.as_str()) {
                        one_edit(DomEdit::Detach(children))
                    } else {
                        two_edits(
                            DomEdit::Detach(children),
                            DomEdit::AppendText(self.nid, value),
                        )
                    }
                }
            },
            None => no_edit(),
        }
    }

    /// Sets the HTML of the node.
    pub fn set_inner_html(&self, dom: &Option<DomTree>, html: String) -> (r: Vec<
        DomEdit<String, Vec<NodeId>>,
    >)
        ensures
            edits(r@) == html_edits(*dom, self.nid, html@),
    {
        match dom {
            Some(d) => {
                if self.nid == d.document {
                    return no_edit();
                }
                let emptied: DomEdit<String, Vec<NodeId>> = DomEdit::Detach(
                    d.children_of(self.nid),
                );
                match name_of(d, self.nid) {
                    Some(name) => {
                        if is_empty(html.as_str()) {
                            one_edit(emptied)
                        } else {
                            two_edits(emptied, DomEdit::ImportHtml(self.nid, name.copied(), html))
                        }
                    },
                    None => one_edit(emptied),
                }
            },
            None => no_edit(),
        }
    }
}

/// What is found nearest matches and is the node or one of its ancestors, and
/// something is found wherever one of them matches.
pub proof fn closest_is_a_matching_ancestor(
    dom: DomTree,
    id: NodeId,
    matching: Seq<NodeId>,
    other: NodeId,
)
    requires
        dom.wf(),
    ensures
        match nearest(dom, id, matching) {
            Some(n) => matching.contains(n) && inclusive_ancestor(dom, n, id),
            None => inclusive_ancestor(dom, other, id) ==> !matching.contains(other),
        },
    decreases dom.depth(id),
{
    parent_step(dom, id);
    match dom.parent(id) {
        Some(p) => {
            let up: Seq<NodeId> = path(dom, p);
            assert(path(dom, id) == up.push(id));
            assert(up.push(id)[up.len() as int] == id);
            if !matching.contains(id) {
                closest_is_a_matching_ancestor(dom, p, matching, other);
                match nearest(dom, id, matching) {
                    Some(n) => {
                        let k: int = choose|k: int| 0 <= k < up.len() && up[k] == n;
                        assert(up.push(id)[k] == n);
                    },
                    None => {
                        if up.push(id).contains(other) && other != id {
                            let k: int = choose|k: int|
                                0 <= k < up.push(id).len() && up.push(id)[k] == other;
                            assert(up[k] == other);
                        }
                    },
                }
            }
        },
        None => {
            assert(path(dom, id) == seq![id]);
            assert(seq![id][0] == id);
        },
    }
}

/// Whether an option is given and true.
pub open spec fn flag_or_false(flag: Option<bool>) -> bool {
    flag == Some(true)
}

/// An event.
pub struct JsEvent {
    pub type_: String,
    pub bubbles: bool,
    pub cancelable: bool,
}

impl JsEvent {
    /// An event of a type, with the options that were given.
    pub fn new(type_: String, bubbles: Option<bool>, cancelable: Option<bool>) -> (r: Self)
        ensures
            r.type_ == type_,
            r.bubbles == flag_or_false(bubbles),
            r.cancelable == flag_or_false(cancelable),
    {
        let bubbles: bool = match bubbles {
            Some(b) => b,
            None => false,
        };
        let cancelable: bool = match cancelable {
            Some(c) => c,
            None => false,
        };
        JsEvent { type_, bubbles, cancelable }
    }

    /// The type.
    pub fn type_(&self) -> (r: String)
        ensures
            r@ == self.type_@,
    {
        self.type_.as_str().to_owned()
    }

    /// Whether the event bubbles.
    pub fn bubbles(&self) -> (r: bool)
        ensures
            r == self.bubbles,
    {
        self.bubbles
    }

    /// Whether the event can be cancelled.
    pub fn cancelable(&self) -> (r: bool)
        ensures
            r == self.cancelable,
    {
        self.cancelable
    }
}

/// An event that carries data of the page's own.
pub struct JsCustomEvent {
    pub type_: String,
    pub bubbles: bool,
    pub cancelable: bool,
}

impl JsCustomEvent {
    /// An event of a type, with the options that were given.
    pub fn new(type_: String, bubbles: Option<bool>, cancelable: Option<bool>) -> (r: Self)
        ensures
            r.type_ == type_,
            r.bubbles == flag_or_false(bubbles),
            r.cancelable == flag_or_false(cancelable),
    {
        let bubbles: bool = match bubbles {
            Some(b) => b,
            None => false,
        };
        let cancelable: bool = match cancelable {
            Some(c) => c,
            None => false,
        };
        JsCustomEvent { type_, bubbles, cancelable }
    }

    /// The type.
    pub fn type_(&self) -> (r: String)
        ensures
            r@ == self.type_@,
    {
        self.type_.as_str().to_owned()
    }
}

/// A node with text of its own takes the new text. Any other loses its children
/// and gets the text behind, where there is any; without a page nothing
/// changes.
pub proof fn new_text_replaces_what_was_there(dom: DomTree, id: NodeId, value: Seq<char>)
    ensures
        character_data(dom, id) ==> text_edits(Some(dom), id, value).len() == 1 && text_edits(
            Some(dom),
            id,
            value,
        )[0] == EditView::SetCharacterData(id, value),
        !character_data(dom, id) ==> text_edits(Some(dom), id, value).len() == (if value.len()
            == 0 {
            1int
        } else {
            2
        }) && text_edits(Some(dom), id, value)[0] == EditView::Detach(dom.children(id)),
        !character_data(dom, id) && value.len() > 0 ==> text_edits(Some(dom), id, value)[1]
            == EditView::AppendText(id, value),
        text_edits(None, id, value).len() == 0,
{
}

/// A node loses its children and gets what the HTML holds, read in the context
/// of its own name; what is no element only loses them, and the document is
/// left alone.
pub proof fn new_html_replaces_what_was_there(dom: DomTree, id: NodeId, html: Seq<char>)
    ensures
        id == dom.document ==> html_edits(Some(dom), id, html).len() == 0,
        id != dom.document ==> html_edits(Some(dom), id, html).len() > 0 && html_edits(
            Some(dom),
            id,
            html,
        )[0] == EditView::Detach(dom.children(id)),
        id != dom.document && html.len() > 0 ==> (element_name(dom.node(id)) matches Some(name)
            ==> html_edits(Some(dom), id, html).len() == 2 && html_edits(Some(dom), id, html)[1]
            == EditView::ImportHtml(id, name, html)),
        id != dom.document && (html.len() == 0 || element_name(dom.node(id)) is None)
            ==> html_edits(Some(dom), id, html).len() == 1,
        html_edits(None, id, html).len() == 0,
{
}

/// A node is found in the page where there is one; an option of an event is on
/// only where it is given and true.
pub proof fn nodes_and_options_are_those_given(dom: DomTree, id: NodeId)
    ensures
        page_node(Some(dom), id) == dom.node(id),
        page_node(None, id) is None,
        flag_or_false(Some(true)),
        !flag_or_false(Some(false)),
        !flag_or_false(None),
{
}

} // verus!
