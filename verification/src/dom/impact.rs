//! Whether a mutating command can make the rendered document stale.

use vstd::prelude::*;

use crate::dom::tree::{DomTree, NodeData, NodeId};
use crate::number::{parse_decimal, parsed_decimal};
use crate::text::{cut_once, opt_str, opt_text, same_text, split_once};

verus! {

/// What a mutating command does to the rendered document.
#[derive(Clone, Copy, Debug, PartialEq, Eq, Structural)]
pub struct RenderMutationImpact {
    /// The command reaches a node that is connected to the document.
    pub connected: bool,
    /// The command changes something.
    pub actual_change: bool,
}

/// No effect at all.
pub open spec fn no_impact() -> RenderMutationImpact {
    RenderMutationImpact { connected: false, actual_change: false }
}

/// The node that a command argument names.
pub open spec fn node_named(arg: Seq<char>) -> Option<NodeId> {
    match parsed_decimal(arg, u32::MAX as nat) {
        Some(v) => Some(v as u64),
        None => None,
    }
}

/// The node that a command argument names.
pub fn parse_node(arg: &str) -> (r: Option<NodeId>)
    ensures
        r == node_named(arg@),
{
    parse_decimal(arg, 0xffff_ffff)
}

/// The pieces of `s` before the first `c`, between the first and the second,
/// and after the second, as far as there are any.
pub open spec fn cut_twice(s: Seq<char>, c: char) -> (
    Seq<char>,
    Option<Seq<char>>,
    Option<Seq<char>>,
) {
    match cut_once(s, c) {
        Some((a, rest)) => match cut_once(rest, c) {
            Some((b, d)) => (a, Some(b), Some(d)),
            None => (a, Some(rest), None),
        },
        None => (s, None, None),
    }
}

/// The pieces of `s` before the first `c`, between the first and the second,
/// and after the second, as far as there are any.
pub fn split_twice(s: &str, c: char) -> (r: (String, Option<String>, Option<String>))
    ensures
        (r.0@, opt_text(r.1), opt_text(r.2)) == cut_twice(s@, c),
{
    match split_once(s, c) {
        Some((a, rest)) => match split_once(rest.as_str(), c) {
            Some((b, d)) => (a, Some(b), Some(d)),
            None => (a, Some(rest), None),
        },
        None => (s.to_owned(), None, None),
    }
}

/// The text, or the empty text where there is none.
pub open spec fn or_empty(s: Option<Seq<char>>) -> Seq<char> {
    match s {
        Some(t) => t,
        None => Seq::empty(),
    }
}

/// The text, or the empty text where there is none.
pub fn text_or_empty(s: Option<String>) -> (r: String)
    ensures
        r@ == or_empty(opt_text(s)),
{
    match s {
        Some(t) => t,
        None => String::new(),
    }
}

/// The local part of a qualified name: what follows its first colon, or all
/// of it.
pub open spec fn local_part(qualified: Seq<char>) -> Seq<char> {
    match cut_once(qualified, ':') {
        Some((_, local)) => local,
        None => qualified,
    }
}

/// The local part of a qualified name.
pub fn local_of(qualified: &str) -> (r: String)
    ensures
        r@ == local_part(qualified@),
{
    match split_once(qualified, ':') {
        Some((_, local)) => local,
        None => qualified.to_owned(),
    }
}

/// A namespace and a local name packed with a NUL between them; a name alone
/// is in no namespace.
pub open spec fn packed_name(arg: Seq<char>) -> (Seq<char>, Seq<char>) {
    match cut_once(arg, '\0') {
        Some((ns, local)) => (ns, local),
        None => (Seq::empty(), arg),
    }
}

/// The namespace and the local name that are packed in `arg`.
pub fn unpack_name(arg: &str) -> (r: (String, String))
    ensures
        (r.0@, r.1@) == packed_name(arg@),
{
    match split_once(arg, '\0') {
        Some((ns, local)) => (ns, local),
        None => (String::new(), arg.to_owned()),
    }
}

/// Whether `cmd` is one of the commands that change the tree.
pub open spec fn mutating(cmd: Seq<char>) -> bool {
    ||| cmd == "set_attribute"@
    ||| cmd == "remove_attribute"@
    ||| cmd == "set_attribute_ns"@
    ||| cmd == "remove_attribute_ns"@
    ||| cmd == "append_child"@
    ||| cmd == "remove_child"@
    ||| cmd == "insert_before"@
    ||| cmd == "set_inner_html"@
    ||| cmd == "set_inner_html_context"@
    ||| cmd == "set_text_content"@
    ||| cmd == "set_fragment_html_executable"@
}

/// Whether `cmd` is one of the commands that change the tree.
pub fn is_mutating_dom_command(cmd: &str) -> (r: bool)
    ensures
        r == mutating(cmd@),
{
    same_text(cmd, "set_attribute") || same_text(cmd, "remove_attribute") || same_text(
        cmd,
        "set_attribute_ns",
    ) || same_text(cmd, "remove_attribute_ns") || same_text(cmd, "append_child") || same_text(
        cmd,
        "remove_child",
    ) || same_text(cmd, "insert_before") || same_text(cmd, "set_inner_html") || same_text(
        cmd,
        "set_inner_html_context",
    ) || same_text(cmd, "set_text_content") || same_text(cmd, "set_fragment_html_executable")
}

/// The effect of writing an attribute of `target`.
pub open spec fn attribute_impact(
    dom: DomTree,
    target: NodeId,
    change: bool,
) -> RenderMutationImpact {
    RenderMutationImpact { connected: dom.connected(target), actual_change: change }
}

/// The effect of moving `child` to the end of `parent`: none where it is the
/// last child already. Moving a connected node into a detached tree removes
/// what it showed, and attaching a detached node shows it.
pub open spec fn append_impact(
    dom: DomTree,
    parent: NodeId,
    child: NodeId,
) -> RenderMutationImpact {
    match (dom.node(parent), dom.node(child)) {
        (Some(p), Some(c)) => RenderMutationImpact {
            connected: p.connected || c.connected,
            actual_change: !(c.parent == Some(parent) && p.children@.len() > 0
                && p.children@.last() == child),
        },
        _ => no_impact(),
    }
}

/// The effect of moving `new_node` before `reference`: none where `reference`
/// has no parent, where the two are one node, or where `new_node` is already
/// the sibling before it.
pub open spec fn insert_impact(
    dom: DomTree,
    new_node: NodeId,
    reference: NodeId,
) -> RenderMutationImpact {
    match (dom.node(new_node), dom.node(reference)) {
        (Some(n), Some(r)) => match r.parent {
            Some(p) => RenderMutationImpact {
                connected: dom.connected(p) || n.connected,
                actual_change: new_node != reference && r.prev_sibling != Some(new_node),
            },
            None => no_impact(),
        },
        _ => no_impact(),
    }
}

/// Whether setting the text content of `target` to `text` changes it. Where
/// children are replaced, only a single text child with that very text is
/// left as it is.
pub open spec fn text_changes(dom: DomTree, target: NodeId, text: Seq<char>) -> bool {
    match dom.node(target) {
        Some(n) => match n.data {
            NodeData::Text { contents } => contents@ != text,
            NodeData::Comment { contents } => contents@ != text,
            NodeData::ProcessingInstruction { target: _, data } => data@ != text,
            _ => if n.children@.len() == 0 {
                text.len() > 0
            } else if n.children@.len() == 1 {
                match dom.node(n.children@[0]) {
                    Some(c) => match c.data {
                        NodeData::Text { contents } => contents@ != text,
                        _ => true,
                    },
                    None => true,
                }
            } else {
                true
            },
        },
        None => false,
    }
}

/// The effect of a command on the rendered document. `old` is the value of
/// the attribute that an attribute command addresses, before the command.
pub open spec fn impact(
    dom: DomTree,
    cmd: Seq<char>,
    arg1: Seq<char>,
    arg2: Seq<char>,
    old: Option<Seq<char>>,
) -> RenderMutationImpact {
    match node_named(arg1) {
        None => no_impact(),
        Some(target) => if cmd == "set_attribute"@ {
            match cut_once(arg2, '\0') {
                Some((_, value)) => attribute_impact(dom, target, old != Some(value)),
                None => no_impact(),
            }
        } else if cmd == "set_attribute_ns"@ {
            attribute_impact(dom, target, old != Some(or_empty(cut_twice(arg2, '\0').2)))
        } else if cmd == "remove_attribute"@ || cmd == "remove_attribute_ns"@ {
            attribute_impact(dom, target, old is Some)
        } else if cmd == "append_child"@ {
            match node_named(arg2) {
                Some(child) => append_impact(dom, target, child),
                None => no_impact(),
            }
        } else if cmd == "remove_child"@ {
            RenderMutationImpact {
                connected: dom.connected(target),
                actual_change: dom.parent(target) is Some,
            }
        } else if cmd == "insert_before"@ {
            match node_named(arg2) {
                Some(reference) => insert_impact(dom, target, reference),
                None => no_impact(),
            }
        } else if cmd == "set_inner_html"@ || cmd == "set_inner_html_context"@ {
            RenderMutationImpact {
                connected: dom.connected(target),
                actual_change: dom.node(target) is Some,
            }
        } else if cmd == "set_text_content"@ {
            RenderMutationImpact {
                connected: dom.connected(target),
                actual_change: text_changes(dom, target, arg2),
            }
        } else {
            no_impact()
        },
    }
}

fn nothing() -> (r: RenderMutationImpact)
    ensures
        r == no_impact(),
{
    RenderMutationImpact { connected: false, actual_change: false }
}

fn append_effect(dom: &DomTree, parent: NodeId, child: NodeId) -> (r: RenderMutationImpact)
    ensures
        r == append_impact(*dom, parent, child),
{
    match (dom.get_node(parent), dom.get_node(child)) {
        (Some(p), Some(c)) => {
            let n: usize = p.children.len();
            let already_last: bool = c.parent == Some(parent) && n > 0 && p.children[n - 1]
                == child;
            RenderMutationImpact {
                connected: p.connected || c.connected,
                actual_change: !already_last,
            }
        },
        _ => nothing(),
    }
}

fn insert_effect(dom: &DomTree, new_node: NodeId, reference: NodeId) -> (r: RenderMutationImpact)
    ensures
        r == insert_impact(*dom, new_node, reference),
{
    match (dom.get_node(new_node), dom.get_node(reference)) {
        (Some(n), Some(r)) => match r.parent {
            Some(p) => RenderMutationImpact {
                connected: dom.is_connected(p) || n.connected,
                actual_change: new_node != reference && r.prev_sibling != Some(new_node),
            },
            None => nothing(),
        },
        _ => nothing(),
    }
}

fn text_effect(dom: &DomTree, target: NodeId, text: &str) -> (r: bool)
    ensures
        r == text_changes(*dom, target, text@),
{
    match dom.get_node(target) {
        Some(n) => match &n.data {
            NodeData::Text { contents } => !same_text(contents.as_str(), text),
            NodeData::Comment { contents } => !same_text(contents.as_str(), text),
            NodeData::ProcessingInstruction { target: _, data } => !same_text(data.as_str(), text),
            _ => {
                if n.children.len() == 0 {
                    !is_empty(text)
                } else if n.children.len() == 1 {
                    match dom.get_node(n.children[0]) {
                        Some(c) => match &c.data {
                            NodeData::Text { contents } => !same_text(contents.as_str(), text),
                            _ => true,
                        },
                        None => true,
                    }
                } else {
                    true
                }
            },
        },
        None => false,
    }
}

/// Whether the text is empty.
pub fn is_empty(s: &str) -> (r: bool)
    ensures
        r == (s@.len() == 0),
{
    s.unicode_len() == 0
}

fn differs(old: Option<&str>, value: &str) -> (r: bool)
    ensures
        r == (opt_str(old) != Some(value@)),
{
    match old {
        Some(o) => !same_text(o, value),
        None => true,
    }
}

/// Classifies what a command does to the rendered document. Building in a
/// detached tree and writing a value that is already there change nothing.
/// `old` is the value, before the command, of the attribute that an attribute
/// command addresses.
pub fn render_mutation_impact(
    dom: &DomTree,
    cmd: &str,
    arg1: &str,
    arg2: &str,
    old: Option<&str>,
) -> (r: RenderMutationImpact)
    ensures
        r == impact(*dom, cmd@, arg1@, arg2@, opt_str(old)),
{
    let target: NodeId = match parse_node(arg1) {
        Some(t) => t,
        None => {
            return nothing();
        },
    };
    if same_text(cmd, "set_attribute") {
        match split_once(arg2, '\0') {
            Some((_, value)) => RenderMutationImpact {
                connected: dom.is_connected(target),
                actual_change: differs(old, value.as_str()),
            },
            None => nothing(),
        }
    } else if same_text(cmd, "set_attribute_ns") {
        let parts: (String, Option<String>, Option<String>) = split_twice(arg2, '\0');
        let value: String = text_or_empty(parts.2);
        RenderMutationImpact {
            connected: dom.is_connected(target),
            actual_change: differs(old, value.as_str()),
        }
    } else if same_text(cmd, "remove_attribute") || same_text(cmd, "remove_attribute_ns") {
        RenderMutationImpact { connected: dom.is_connected(target), actual_change: old.is_some() }
    } else if same_text(cmd, "append_child") {
        match parse_node(arg2) {
            Some(child) => append_effect(dom, target, child),
            None => nothing(),
        }
    } else if same_text(cmd, "remove_child") {
        RenderMutationImpact {
            connected: dom.is_connected(target),
            actual_change: dom.parent_of(target).is_some(),
        }
    } else if same_text(cmd, "insert_before") {
        match parse_node(arg2) {
            Some(reference) => insert_effect(dom, target, reference),
            None => nothing(),
        }
    } else if same_text(cmd, "set_inner_html") || same_text(cmd, "set_inner_html_context") {
        RenderMutationImpact {
            connected: dom.is_connected(target),
            actual_change: dom.get_node(target).is_some(),
        }
    } else if same_text(cmd, "set_text_content") {
        RenderMutationImpact {
            connected: dom.is_connected(target),
            actual_change: text_effect(dom, target, arg2),
        }
    } else {
        nothing()
    }
}

/// Assigning an attribute the value that it has is no change, whatever node
/// it stands on.
pub proof fn same_value_is_no_change(
    dom: DomTree,
    arg1: Seq<char>,
    name: Seq<char>,
    value: Seq<char>,
    arg2: Seq<char>,
)
    requires
        cut_once(arg2, '\0') == Some((name, value)),
    ensures
        !impact(dom, "set_attribute"@, arg1, arg2, Some(value)).actual_change,
{
}

/// A command on a detached node that names no other node leaves the rendered
/// document as it is.
pub proof fn detached_target_is_not_rendered(
    dom: DomTree,
    cmd: Seq<char>,
    arg1: Seq<char>,
    arg2: Seq<char>,
    old: Option<Seq<char>>,
)
    requires
        node_named(arg1) is Some ==> !dom.connected(node_named(arg1)->0),
        cmd != "append_child"@,
        cmd != "insert_before"@,
    ensures
        !impact(dom, cmd, arg1, arg2, old).connected,
{
}

} // verus!
