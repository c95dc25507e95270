//! What a command reads off a node: its kind, its names, its edges and its
//! place.

use vstd::prelude::*;

use crate::dom::names::DomCommand;
use crate::dom::order::{node_child_index, node_root, root};
use crate::dom::tree::{DomTree, Node, NodeData, NodeId, QualName};
use crate::json::{
    bool_text, ints, json_ints, json_ints_text, json_member, json_member_text, json_object,
    json_object_text, json_quoted, json_string, write_bool,
};
use crate::number::{decimal, signed_decimal, write_decimal, write_signed};
use crate::state::{low_signed, to_i32};
use crate::text::{raised, same_text, texts, to_upper};

verus! {

/// The namespace of HTML elements.
pub open spec fn html_namespace() -> Seq<char> {
    "http://www.w3.org/1999/xhtml"@
}

/// An identity as text, `-1` where there is none.
pub open spec fn id_or_none(id: Option<NodeId>) -> Seq<char> {
    match id {
        Some(n) => decimal(n as nat),
        None => "-1"@,
    }
}

/// An identity as text, `-1` where there is none.
pub fn write_id(id: Option<NodeId>) -> (r: String)
    ensures
        r@ == id_or_none(id),
{
    match id {
        Some(n) => write_decimal(n),
        None => "-1".to_owned(),
    }
}

/// The identities as 32-bit numbers.
pub open spec fn low_ids(ids: Seq<NodeId>) -> Seq<int> {
    Seq::new(ids.len(), |i: int| low_signed(ids[i]))
}

/// The JSON array of the identities as 32-bit numbers.
pub fn write_ids(ids: &Vec<NodeId>) -> (r: String)
    ensures
        r@ == json_ints_text(low_ids(ids@)),
{
    let mut low: Vec<i32> = Vec::new();
    let mut i: usize = 0;
    while i < ids.len()
        invariant
            i <= ids@.len(),
            low@.len() == i,
            forall|j: int| 0 <= j < i ==> #[trigger] low@[j] == low_signed(ids@[j]),
        decreases ids@.len() - i,
    {
        low.push(to_i32(ids[i]));
        i = i + 1;
    }
    assert(ints(low@) =~= low_ids(ids@));
    json_ints(&low)
}

/// The number of a node kind.
pub open spec fn kind_number(node: Option<Node>) -> int {
    match node {
        Some(n) => match n.data {
            NodeData::Document => 9,
            NodeData::Element { name, template_contents } => 1,
            NodeData::Text { contents } => 3,
            NodeData::Comment { contents } => 8,
            NodeData::Doctype { name, public_id, system_id } => 10,
            NodeData::ProcessingInstruction { target, data } => 7,
        },
        None => 0,
    }
}

/// The number of a node kind, zero where there is no node.
pub fn node_type(dom: &DomTree, id: NodeId) -> (r: i32)
    ensures
        r == kind_number(dom.node(id)),
{
    match dom.get_node(id) {
        Some(n) => match &n.data {
            NodeData::Document => 9,
            NodeData::Element { name: _, template_contents: _ } => 1,
            NodeData::Text { contents: _ } => 3,
            NodeData::Comment { contents: _ } => 8,
            NodeData::Doctype { name: _, public_id: _, system_id: _ } => 10,
            NodeData::ProcessingInstruction { target: _, data: _ } => 7,
        },
        None => 0,
    }
}

/// The name of a node, the empty text where there is no node.
pub open spec fn node_name_text(node: Option<Node>) -> Seq<char> {
    match node {
        Some(n) => match n.data {
            NodeData::Document => "#document"@,
            NodeData::Element { name, template_contents } => raised(name.local@),
            NodeData::Text { contents } => "#text"@,
            NodeData::Comment { contents } => "#comment"@,
            NodeData::Doctype { name, public_id, system_id } => name@,
            NodeData::ProcessingInstruction { target, data } => target@,
        },
        None => Seq::empty(),
    }
}

/// The name of a node, the empty text where there is no node.
pub fn node_name(dom: &DomTree, id: NodeId) -> (r: String)
    ensures
        r@ == node_name_text(dom.node(id)),
{
    match dom.get_node(id) {
        Some(n) => match &n.data {
            NodeData::Document => "#document".to_owned(),
            NodeData::Element { name, template_contents: _ } => to_upper(name.local.as_str()),
            NodeData::Text { contents: _ } => "#text".to_owned(),
            NodeData::Comment { contents: _ } => "#comment".to_owned(),
            NodeData::Doctype { name, public_id: _, system_id: _ } => name.as_str().to_owned(),
            NodeData::ProcessingInstruction { target, data: _ } => target.as_str().to_owned(),
        },
        None => String::new(),
    }
}

/// The name of an element, where the node is one.
pub open spec fn element_name(node: Option<Node>) -> Option<QualName<Seq<char>>> {
    match node {
        Some(n) => match n.data {
            NodeData::Element { name, template_contents } => Some(name@),
            _ => None,
        },
        None => None,
    }
}

/// The name of an element, where the node is one.
pub fn name_of(dom: &DomTree, id: NodeId) -> (r: Option<&QualName<String>>)
    ensures
        match r {
            Some(n) => element_name(dom.node(id)) == Some(n@),
            None => element_name(dom.node(id)) is None,
        },
{
    match dom.get_node(id) {
        Some(n) => match &n.data {
            NodeData::Element { name, template_contents: _ } => Some(name),
            _ => None,
        },
        None => None,
    }
}

/// The tag name of an element: in capitals in the HTML namespace, elsewhere
/// the qualified name as it is.
pub open spec fn tag_text(name: Option<QualName<Seq<char>>>) -> Seq<char> {
    match name {
        Some(q) => if q.ns == html_namespace() {
            raised(q.local)
        } else {
            match q.prefix {
                Some(p) => p + ":"@ + q.local,
                None => q.local,
            }
        },
        None => Seq::empty(),
    }
}

/// The tag name of an element, the empty text for any other node.
pub fn tag_name(dom: &DomTree, id: NodeId) -> (r: String)
    ensures
        r@ == tag_text(element_name(dom.node(id))),
{
    match name_of(dom, id) {
        Some(q) => {
            if same_text(q.ns.as_str(), "http://www.w3.org/1999/xhtml") {
                to_upper(q.local.as_str())
            } else {
                match &q.prefix {
                    Some(p) => {
                        let mut r: String = p.as_str().to_owned();
                        r.append(":");
                        r.append(q.local.as_str());
                        r
                    },
                    None => q.local.as_str().to_owned(),
                }
            }
        },
        None => String::new(),
    }
}

/// The elements among `ids`, in order.
pub open spec fn elements_among(dom: DomTree, ids: Seq<NodeId>) -> Seq<NodeId>
    decreases ids.len(),
{
    if ids.len() == 0 {
        Seq::empty()
    } else if element_name(dom.node(ids.last())) is Some {
        elements_among(dom, ids.drop_last()).push(ids.last())
    } else {
        elements_among(dom, ids.drop_last())
    }
}

/// The children of `id` that are elements, in order.
pub fn element_children(dom: &DomTree, id: NodeId) -> (r: Vec<NodeId>)
    ensures
        r@ == elements_among(*dom, dom.children(id)),
{
    let all: Vec<NodeId> = dom.children_of(id);
    let mut r: Vec<NodeId> = Vec::new();
    let mut i: usize = 0;
    while i < all.len()
        invariant
            i <= all@.len(),
            r@ == elements_among(*dom, all@.take(i as int)),
        decreases all@.len() - i,
    {
        assert(all@.take(i + 1).drop_last() =~= all@.take(i as int));
        if name_of(dom, all[i]).is_some() {
            r.push(all[i]);
        }
        i = i + 1;
    }
    assert(all@.take(i as int) =~= all@);
    r
}

/// An edge of a node that a command reads.
pub open spec fn edge(node: Option<Node>, cmd: DomCommand) -> Option<NodeId> {
    match node {
        Some(n) => match cmd {
            DomCommand::ParentNode => n.parent,
            DomCommand::FirstChild => n.first_child,
            DomCommand::LastChild => n.last_child,
            DomCommand::NextSibling => n.next_sibling,
            DomCommand::PrevSibling => n.prev_sibling,
            _ => None,
        },
        None => None,
    }
}

/// Whether a command reads an edge of a node.
pub open spec fn reads_edge(cmd: DomCommand) -> bool {
    cmd is ParentNode || cmd is FirstChild || cmd is LastChild || cmd is NextSibling
        || cmd is PrevSibling
}

/// Whether a command reads an edge of a node.
pub fn is_edge_read(cmd: DomCommand) -> (r: bool)
    ensures
        r == reads_edge(cmd),
{
    match cmd {
        DomCommand::ParentNode
        | DomCommand::FirstChild
        | DomCommand::LastChild
        | DomCommand::NextSibling
        | DomCommand::PrevSibling => true,
        _ => false,
    }
}

/// The neighbour along the edge that a command reads.
pub fn read_edge(dom: &DomTree, id: NodeId, cmd: DomCommand) -> (r: Option<NodeId>)
    ensures
        r == edge(dom.node(id), cmd),
{
    match dom.get_node(id) {
        Some(n) => match cmd {
            DomCommand::ParentNode => n.parent,
            DomCommand::FirstChild => n.first_child,
            DomCommand::LastChild => n.last_child,
            DomCommand::NextSibling => n.next_sibling,
            DomCommand::PrevSibling => n.prev_sibling,
            _ => None,
        },
        None => None,
    }
}

/// What a tree-edge read replies: the neighbour as a 32-bit number, -1 where
/// the edge is empty or there is no document, and nothing for any other
/// command.
pub open spec fn tree_query(dom: Option<DomTree>, cmd: DomCommand, id: NodeId) -> Option<int> {
    if reads_edge(cmd) {
        match dom {
            Some(d) => match edge(d.node(id), cmd) {
                Some(n) => Some(low_signed(n)),
                None => Some(-1),
            },
            None => Some(-1),
        }
    } else {
        None
    }
}

/// Parent, child and sibling reads: the neighbour's number, or -1 where the
/// edge is empty. Nothing where `cmd` is no such read.
pub fn op_dom_tree_query(dom: &Option<DomTree>, cmd: DomCommand, nid: NodeId) -> (r: Option<i32>)
    ensures
        match r {
            Some(v) => tree_query(*dom, cmd, nid) == Some(v as int),
            None => tree_query(*dom, cmd, nid) is None,
        },
{
    if !is_edge_read(cmd) {
        return None;
    }
    match dom {
        Some(d) => match read_edge(d, nid, cmd) {
            Some(n) => Some(to_i32(n)),
            None => Some(-1),
        },
        None => Some(-1),
    }
}

/// The first of `ids`, from position `k` on, that is an element named `html`.
pub open spec fn first_html(dom: DomTree, ids: Seq<NodeId>, k: int) -> Option<NodeId>
    decreases ids.len() - k,
{
    if 0 <= k < ids.len() {
        match element_name(dom.node(ids[k])) {
            Some(q) => if q.local == "html"@ {
                Some(ids[k])
            } else {
                first_html(dom, ids, k + 1)
            },
            None => first_html(dom, ids, k + 1),
        }
    } else {
        None
    }
}

/// The root element: the first child of the document named `html`.
pub fn document_element(dom: &DomTree) -> (r: Option<NodeId>)
    ensures
        r == first_html(*dom, dom.children(dom.document), 0),
{
    let ids: Vec<NodeId> = dom.children_of(dom.document);
    let mut i: usize = 0;
    while i < ids.len()
        invariant
            i <= ids@.len(),
            ids@ == dom.children(dom.document),
            first_html(*dom, ids@, 0) == first_html(*dom, ids@, i as int),
        decreases ids@.len() - i,
    {
        match name_of(dom, ids[i]) {
            Some(q) => {
                if same_text(q.local.as_str(), "html") {
                    return Some(ids[i]);
                }
            },
            None => {},
        }
        i = i + 1;
    }
    None
}

/// The JSON object that describes a doctype node.
pub open spec fn doctype_text(
    id: NodeId,
    name: Seq<char>,
    public_id: Seq<char>,
    system_id: Seq<char>,
) -> Seq<char> {
    json_object_text(
        seq![
            json_member_text("name"@, json_quoted(name)),
            json_member_text("nodeId"@, decimal(id as nat)),
            json_member_text("publicId"@, json_quoted(public_id)),
            json_member_text("systemId"@, json_quoted(system_id)),
        ],
    )
}

fn write_doctype(id: NodeId, name: &str, public_id: &str, system_id: &str) -> (r: String)
    ensures
        r@ == doctype_text(id, name@, public_id@, system_id@),
{
    let mut m: Vec<String> = Vec::new();
    m.push(json_member("name", json_string(name).as_str()));
    m.push(json_member("nodeId", write_decimal(id).as_str()));
    m.push(json_member("publicId", json_string(public_id).as_str()));
    m.push(json_member("systemId", json_string(system_id).as_str()));
    assert(texts(m@) =~= seq![
        json_member_text("name"@, json_quoted(name@)),
        json_member_text("nodeId"@, decimal(id as nat)),
        json_member_text("publicId"@, json_quoted(public_id@)),
        json_member_text("systemId"@, json_quoted(system_id@)),
    ]);
    json_object(&m)
}

/// The description of the first doctype among `ids` from position `k` on,
/// `null` where there is none.
pub open spec fn first_doctype(dom: DomTree, ids: Seq<NodeId>, k: int) -> Seq<char>
    decreases ids.len() - k,
{
    if 0 <= k < ids.len() {
        match dom.node(ids[k]) {
            Some(n) => match n.data {
                NodeData::Doctype { name, public_id, system_id } => doctype_text(
                    ids[k],
                    name@,
                    public_id@,
                    system_id@,
                ),
                _ => first_doctype(dom, ids, k + 1),
            },
            None => first_doctype(dom, ids, k + 1),
        }
    } else {
        "null"@
    }
}

/// The description of the document's doctype, `null` without one.
pub fn document_doctype(dom: &DomTree) -> (r: String)
    ensures
        r@ == first_doctype(*dom, dom.children(dom.document), 0),
{
    let ids: Vec<NodeId> = dom.children_of(dom.document);
    let mut i: usize = 0;
    while i < ids.len()
        invariant
            i <= ids@.len(),
            ids@ == dom.children(dom.document),
            first_doctype(*dom, ids@, 0) == first_doctype(*dom, ids@, i as int),
        decreases ids@.len() - i,
    {
        match dom.get_node(ids[i]) {
            Some(n) => match &n.data {
                NodeData::Doctype { name, public_id, system_id } => {
                    return write_doctype(
                        ids[i],
                        name.as_str(),
                        public_id.as_str(),
                        system_id.as_str(),
                    );
                },
                _ => {},
            },
            None => {},
        }
        i = i + 1;
    }
    "null".to_owned()
}

/// The part of an element name that a command reads.
pub open spec fn name_part(name: Option<QualName<Seq<char>>>, ns: bool) -> Seq<char> {
    match name {
        Some(q) => if ns {
            q.ns
        } else {
            q.local
        },
        None => Seq::empty(),
    }
}

/// The target of a processing instruction, the empty text for any other node.
pub open spec fn pi_target_text(node: Option<Node>) -> Seq<char> {
    match node {
        Some(n) => match n.data {
            NodeData::ProcessingInstruction { target, data } => target@,
            _ => Seq::empty(),
        },
        None => Seq::empty(),
    }
}

/// The name or the public identifier of a doctype, the empty text for any
/// other node.
pub open spec fn doctype_part(node: Option<Node>, public: bool) -> Seq<char> {
    match node {
        Some(n) => match n.data {
            NodeData::Doctype { name, public_id, system_id } => if public {
                public_id@
            } else {
                name@
            },
            _ => Seq::empty(),
        },
        None => Seq::empty(),
    }
}

fn pi_target(dom: &DomTree, id: NodeId) -> (r: String)
    ensures
        r@ == pi_target_text(dom.node(id)),
{
    match dom.get_node(id) {
        Some(n) => match &n.data {
            NodeData::ProcessingInstruction { target, data: _ } => target.as_str().to_owned(),
            _ => String::new(),
        },
        None => String::new(),
    }
}

fn doctype_field(dom: &DomTree, id: NodeId, public: bool) -> (r: String)
    ensures
        r@ == doctype_part(dom.node(id), public),
{
    match dom.get_node(id) {
        Some(n) => match &n.data {
            NodeData::Doctype { name, public_id, system_id: _ } => {
                if public {
                    public_id.as_str().to_owned()
                } else {
                    name.as_str().to_owned()
                }
            },
            _ => String::new(),
        },
        None => String::new(),
    }
}

fn name_field(dom: &DomTree, id: NodeId, ns: bool) -> (r: String)
    ensures
        r@ == name_part(element_name(dom.node(id)), ns),
{
    match name_of(dom, id) {
        Some(q) => {
            if ns {
                q.ns.as_str().to_owned()
            } else {
                q.local.as_str().to_owned()
            }
        },
        None => String::new(),
    }
}

/// What a command that only reads the node `id` replies; nothing for any other
/// command.
pub open spec fn node_read(dom: DomTree, cmd: DomCommand, id: NodeId) -> Option<Seq<char>> {
    match cmd {
        DomCommand::NodeType => Some(signed_decimal(kind_number(dom.node(id)))),
        DomCommand::NodeName => Some(json_quoted(node_name_text(dom.node(id)))),
        DomCommand::ParentNode
        | DomCommand::FirstChild
        | DomCommand::LastChild
        | DomCommand::NextSibling
        | DomCommand::PrevSibling => Some(id_or_none(edge(dom.node(id), cmd))),
        DomCommand::ChildNodes => Some(json_ints_text(low_ids(dom.children(id)))),
        DomCommand::TagName => Some(json_quoted(tag_text(element_name(dom.node(id))))),
        DomCommand::LocalName => Some(json_quoted(name_part(element_name(dom.node(id)), false))),
        DomCommand::NamespaceUri => Some(json_quoted(name_part(element_name(dom.node(id)), true))),
        DomCommand::PiTarget => Some(json_quoted(pi_target_text(dom.node(id)))),
        DomCommand::DoctypeName => Some(json_quoted(doctype_part(dom.node(id), false))),
        DomCommand::DoctypePublicId => Some(json_quoted(doctype_part(dom.node(id), true))),
        DomCommand::ElementChildren => Some(
            json_ints_text(low_ids(elements_among(dom, dom.children(id)))),
        ),
        DomCommand::HasChildNodes => Some(
            bool_text(edge(dom.node(id), DomCommand::FirstChild) is Some),
        ),
        DomCommand::IsConnected => Some(bool_text(dom.connected(id))),
        DomCommand::NodeIndex => Some(decimal(dom.index(id))),
        DomCommand::NodeRoot => Some(decimal(root(dom, id) as nat)),
        _ => None,
    }
}

/// What a command that only reads the node `id` replies; nothing for any other
/// command.
pub fn read_node(dom: &DomTree, cmd: DomCommand, id: NodeId) -> (r: Option<String>)
    requires
        dom.wf(),
    ensures
        crate::text::opt_text(r) == node_read(*dom, cmd, id),
{
    match cmd {
        DomCommand::NodeType => Some(write_signed(node_type(dom, id) as i64)),
        DomCommand::NodeName => Some(json_string(node_name(dom, id).as_str())),
        DomCommand::ParentNode
        | DomCommand::FirstChild
        | DomCommand::LastChild
        | DomCommand::NextSibling
        | DomCommand::PrevSibling => Some(write_id(read_edge(dom, id, cmd))),
        DomCommand::ChildNodes => Some(write_ids(&dom.children_of(id))),
        DomCommand::TagName => Some(json_string(tag_name(dom, id).as_str())),
        DomCommand::LocalName => Some(json_string(name_field(dom, id, false).as_str())),
        DomCommand::NamespaceUri => Some(json_string(name_field(dom, id, true).as_str())),
        DomCommand::PiTarget => Some(json_string(pi_target(dom, id).as_str())),
        DomCommand::DoctypeName => Some(json_string(doctype_field(dom, id, false).as_str())),
        DomCommand::DoctypePublicId => Some(json_string(doctype_field(dom, id, true).as_str())),
        DomCommand::ElementChildren => Some(write_ids(&element_children(dom, id))),
        DomCommand::HasChildNodes => Some(
            write_bool(read_edge(dom, id, DomCommand::FirstChild).is_some()),
        ),
        DomCommand::IsConnected => Some(write_bool(dom.is_connected(id))),
        DomCommand::NodeIndex => Some(write_decimal(node_child_index(dom, id) as u64)),
        DomCommand::NodeRoot => Some(write_decimal(node_root(dom, id))),
        _ => None,
    }
}

} // verus!
