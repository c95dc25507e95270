//! The command interface of the document tree. A command is answered at once
//! where the tree's own values decide it; otherwise it asks for one call of
//! the tree engine after the other and goes on with what each gave back.

use vstd::prelude::*;

use crate::dom::impact::{
    cut_twice, impact, is_empty, is_mutating_dom_command, local_of, local_part, mutating,
    no_impact, node_named, or_empty, packed_name, parse_node, render_mutation_impact, split_twice,
    text_or_empty, unpack_name, RenderMutationImpact,
};
use crate::dom::names::{command_named, parse_command, DomCommand};
use crate::dom::order::{
    ancestor_within, compare_node_order, is_inclusive_ancestor, node_ancestors_root_first, order,
    path, proper_ancestor, ANCESTOR_HOP_LIMIT,
};
use crate::dom::read::{
    document_doctype, document_element, element_name, first_doctype, first_html, html_namespace,
    id_or_none, low_ids, name_of, node_read, op_dom_tree_query, read_node, tree_query, write_id,
    write_ids,
};
use crate::dom::scripts::{carried, propagate_script_start_state, scripts_under};
use crate::dom::tree::{DomTree, NodeData, NodeId, QualName};
use crate::json::{
    bool_text, json_ints_text, json_opt, json_opt_text, json_quoted, json_string, json_strings,
    json_strings_text, write_bool,
};
use crate::number::{decimal, signed_decimal, write_decimal, write_signed};
use crate::state::{after_impact, RuntimeState};
use crate::text::{
    cut_once, join, joined, opt_pair, opt_str, opt_text, replace_char, replaced, same_text,
    split_once, split_words, texts, words,
};

verus! {

/// A call of the tree engine. `S` is the type of texts and `L` that of lists
/// of nodes.
pub enum Call<S, L> {
    QuerySelector(S),
    QuerySelectorAll(S),
    QuerySelectorFrom(NodeId, S),
    QuerySelectorAllFrom(NodeId, S),
    MatchesSelector(NodeId, S),
    ElementById(S),
    TextContent(NodeId),
    InnerHtml(NodeId),
    OuterHtml(NodeId),
    NextInSubtree(NodeId, NodeId),
    PrevInSubtree(NodeId, NodeId),
    NextAfterSubtree(NodeId, NodeId),
    Descendants(NodeId),
    GetAttribute(NodeId, S),
    GetAttributeNs(NodeId, S, S),
    AttributeNames(NodeId),
    SetAttribute(NodeId, S, S),
    SetAttributeNs(NodeId, S, S, S),
    RemoveAttribute(NodeId, S),
    RemoveAttributeNs(NodeId, S, S),
    UpdateIdIndex(NodeId, Option<S>, Option<S>),
    AppendChild(NodeId, NodeId),
    RemoveChild(NodeId),
    /// Inserts the second node before the first.
    InsertBefore(NodeId, NodeId),
    Detach(L),
    /// Parses HTML in the context of an element name, where there is one, and
    /// appends what it holds to a node.
    ImportHtml(NodeId, Option<QualName<S>>, S),
    /// Replaces the text of a text, comment or processing instruction node.
    SetCharacterData(NodeId, S),
    TemplateContents(NodeId),
    Create(NodeData<S>),
    CloneNode(NodeId, bool),
}

/// How a command goes on when the tree engine has answered.
pub enum Then<S> {
    /// Classify the command with the attribute value that came back, then
    /// carry it out.
    Mutate(S, S, S),
    /// The title element came back.
    Title,
    /// The text of the title element came back.
    TitleText,
    /// The indexed element came back; this is the identifier asked for.
    LiveById(S),
    /// Reply with the node.
    ReplyNode,
    /// Reply with the nodes.
    ReplyNodes,
    /// Reply with the flag.
    ReplyFlag,
    /// Reply with the text.
    ReplyText,
    /// Reply with the optional text.
    ReplyValue,
    /// Reply with the texts.
    ReplyNames,
    /// Reply whether the node is among those that came back.
    ReplyContains(NodeId),
    /// Reply `true`.
    ReplyTrue,
    /// The old identifier came back: write the attribute, then index it.
    WriteId(NodeId, S, S),
    /// The old identifier came back: write the namespaced attribute, then
    /// index it.
    WriteIdNs(NodeId, S, S, S),
    /// The old identifier came back: remove the namespaced attribute, then
    /// drop it from the index.
    DropIdNs(NodeId, S, S),
    /// The attribute was written: index the node under its identifier.
    IndexId(NodeId, Option<S>, Option<S>),
    /// The child was appended to the parent.
    Appended(NodeId, NodeId),
    /// The child, which had a parent or had none, was removed.
    Removed(NodeId, bool),
    /// The node was inserted under the parent of the reference.
    Inserted(NodeId, Option<NodeId>),
    /// The children are gone: import the HTML, and start no script of it where
    /// the flag says so.
    Import(NodeId, Option<QualName<S>>, S, bool),
    /// The HTML was imported under the node: its scripts count as started.
    Imported(NodeId),
    /// The clone of the node came back.
    Cloned(NodeId),
}

/// What a command does next.
pub enum Step<S, L> {
    /// It is done, with this reply.
    Done(S),
    /// It asks for a call and goes on with the answer.
    Ask(Call<S, L>, Then<S>),
}

/// What the tree engine gave back.
pub enum DomAnswer {
    Node(Option<NodeId>),
    Nodes(Vec<NodeId>),
    Text(String),
    Value(Option<String>),
    Flag(bool),
    Names(Vec<String>),
    Unit,
}

/// A step over machine texts.
pub type DomStep = Step<String, Vec<NodeId>>;

/// A step over scalar sequences.
pub type StepView = Step<Seq<char>, Seq<NodeId>>;

/// An optional element name over scalar sequences.
pub open spec fn opt_name(o: Option<QualName<String>>) -> Option<QualName<Seq<char>>> {
    match o {
        Some(q) => Some(q@),
        None => None,
    }
}

impl Call<String, Vec<NodeId>> {
    /// The call over scalar sequences.
    pub open spec fn view(self) -> Call<Seq<char>, Seq<NodeId>> {
        match self {
            Call::QuerySelector(s) => Call::QuerySelector(s@),
            Call::QuerySelectorAll(s) => Call::QuerySelectorAll(s@),
            Call::QuerySelectorFrom(n, s) => Call::QuerySelectorFrom(n, s@),
            Call::QuerySelectorAllFrom(n, s) => Call::QuerySelectorAllFrom(n, s@),
            Call::MatchesSelector(n, s) => Call::MatchesSelector(n, s@),
            Call::ElementById(s) => Call::ElementById(s@),
            Call::TextContent(n) => Call::TextContent(n),
            Call::InnerHtml(n) => Call::InnerHtml(n),
            Call::OuterHtml(n) => Call::OuterHtml(n),
            Call::NextInSubtree(a, b) => Call::NextInSubtree(a, b),
            Call::PrevInSubtree(a, b) => Call::PrevInSubtree(a, b),
            Call::NextAfterSubtree(a, b) => Call::NextAfterSubtree(a, b),
            Call::Descendants(n) => Call::Descendants(n),
            Call::GetAttribute(n, s) => Call::GetAttribute(n, s@),
            Call::GetAttributeNs(n, s, t) => Call::GetAttributeNs(n, s@, t@),
            Call::AttributeNames(n) => Call::AttributeNames(n),
            Call::SetAttribute(n, s, t) => Call::SetAttribute(n, s@, t@),
            Call::SetAttributeNs(n, s, t, u) => Call::SetAttributeNs(n, s@, t@, u@),
            Call::RemoveAttribute(n, s) => Call::RemoveAttribute(n, s@),
            Call::RemoveAttributeNs(n, s, t) => Call::RemoveAttributeNs(n, s@, t@),
            Call::UpdateIdIndex(n, s, t) => Call::UpdateIdIndex(n, opt_text(s), opt_text(t)),
            Call::AppendChild(a, b) => Call::AppendChild(a, b),
            Call::RemoveChild(n) => Call::RemoveChild(n),
            Call::InsertBefore(a, b) => Call::InsertBefore(a, b),
            Call::Detach(l) => Call::Detach(l@),
            Call::ImportHtml(n, q, s) => Call::ImportHtml(n, opt_name(q), s@),
            Call::SetCharacterData(n, s) => Call::SetCharacterData(n, s@),
            Call::TemplateContents(n) => Call::TemplateContents(n),
            Call::Create(d) => Call::Create(d@),
            Call::CloneNode(n, deep) => Call::CloneNode(n, deep),
        }
    }
}

impl Then<String> {
    /// The continuation over scalar sequences.
    pub open spec fn view(self) -> Then<Seq<char>> {
        match self {
            Then::Mutate(s, t, u) => Then::Mutate(s@, t@, u@),
            Then::Title => Then::Title,
            Then::TitleText => Then::TitleText,
            Then::LiveById(s) => Then::LiveById(s@),
            Then::ReplyNode => Then::ReplyNode,
            Then::ReplyNodes => Then::ReplyNodes,
            Then::ReplyFlag => Then::ReplyFlag,
            Then::ReplyText => Then::ReplyText,
            Then::ReplyValue => Then::ReplyValue,
            Then::ReplyNames => Then::ReplyNames,
            Then::ReplyContains(n) => Then::ReplyContains(n),
            Then::ReplyTrue => Then::ReplyTrue,
            Then::WriteId(n, s, t) => Then::WriteId(n, s@, t@),
            Then::WriteIdNs(n, s, t, u) => Then::WriteIdNs(n, s@, t@, u@),
            Then::DropIdNs(n, s, t) => Then::DropIdNs(n, s@, t@),
            Then::IndexId(n, s, t) => Then::IndexId(n, opt_text(s), opt_text(t)),
            Then::Appended(p, c) => Then::Appended(p, c),
            Then::Removed(c, had) => Then::Removed(c, had),
            Then::Inserted(n, p) => Then::Inserted(n, p),
            Then::Import(n, q, s, inert) => Then::Import(n, opt_name(q), s@, inert),
            Then::Imported(n) => Then::Imported(n),
            Then::Cloned(n) => Then::Cloned(n),
        }
    }
}

impl Step<String, Vec<NodeId>> {
    /// The step over scalar sequences.
    pub open spec fn view(self) -> StepView {
        match self {
            Step::Done(s) => Step::Done(s@),
            Step::Ask(c, t) => Step::Ask(c@, t@),
        }
    }
}

/// A fragment's context element and its HTML, packed with NULs: namespace,
/// qualified name and HTML; or a local name and HTML; or HTML alone. The
/// context is the HTML `body` where the argument leaves it open.
pub open spec fn fragment_parts(arg: Seq<char>) -> (QualName<Seq<char>>, Seq<char>) {
    let parts: (Seq<char>, Option<Seq<char>>, Option<Seq<char>>) = cut_twice(arg, '\0');
    match (parts.1, parts.2) {
        (Some(qualified), Some(html)) => (context_name(parts.0, qualified), html),
        (Some(html), None) => (context_name(html_namespace(), parts.0), html),
        _ => (context_name(html_namespace(), "body"@), parts.0),
    }
}

/// The context element with this namespace and qualified name. A colon splits
/// off a prefix where neither side of it is empty; the empty name is `body`.
pub open spec fn context_name(ns: Seq<char>, qualified: Seq<char>) -> QualName<Seq<char>> {
    match split_qualified(qualified) {
        Some((prefix, local)) => QualName { prefix: Some(prefix), ns, local },
        None => QualName {
            prefix: None,
            ns,
            local: if qualified.len() == 0 {
                "body"@
            } else {
                qualified
            },
        },
    }
}

/// Prefix and local name around the first colon, where neither is empty.
pub open spec fn split_qualified(qualified: Seq<char>) -> Option<(Seq<char>, Seq<char>)> {
    match cut_once(qualified, ':') {
        Some((prefix, local)) => if prefix.len() > 0 && local.len() > 0 {
            Some((prefix, local))
        } else {
            None
        },
        None => None,
    }
}

fn split_name(qualified: &str) -> (r: Option<(String, String)>)
    ensures
        opt_pair(r) == split_qualified(qualified@),
{
    match split_once(qualified, ':') {
        Some((prefix, local)) => {
            if !is_empty(prefix.as_str()) && !is_empty(local.as_str()) {
                Some((prefix, local))
            } else {
                None
            }
        },
        None => None,
    }
}

fn make_context(ns: String, qualified: String) -> (r: QualName<String>)
    ensures
        r@ == context_name(ns@, qualified@),
{
    match split_name(qualified.as_str()) {
        Some((prefix, local)) => QualName { prefix: Some(prefix), ns, local },
        None => {
            let local: String = if is_empty(qualified.as_str()) {
                "body".to_owned()
            } else {
                qualified
            };
            QualName { prefix: None, ns, local }
        },
    }
}

/// The context element and the HTML that are packed in a fragment argument.
pub fn fragment_context_and_html(arg: &str) -> (r: (QualName<String>, String))
    ensures
        (r.0@, r.1@) == fragment_parts(arg@),
{
    let (first, second, third): (String, Option<String>, Option<String>) = split_twice(arg, '\0');
    match second {
        Some(b) => match third {
            Some(html) => (make_context(first, b), html),
            None => (make_context("http://www.w3.org/1999/xhtml".to_owned(), first), b),
        },
        None => (
            make_context("http://www.w3.org/1999/xhtml".to_owned(), "body".to_owned()),
            first,
        ),
    }
}

/// The attribute whose value decides what an attribute command changes.
pub open spec fn attribute_probe(
    cmd: Seq<char>,
    arg1: Seq<char>,
    arg2: Seq<char>,
) -> Option<Call<Seq<char>, Seq<NodeId>>> {
    match node_named(arg1) {
        Some(target) => if cmd == "set_attribute"@ {
            match cut_once(arg2, '\0') {
                Some((name, _)) => Some(Call::GetAttribute(target, name)),
                None => None,
            }
        } else if cmd == "set_attribute_ns"@ {
            Some(
                Call::GetAttributeNs(
                    target,
                    cut_twice(arg2, '\0').0,
                    local_part(or_empty(cut_twice(arg2, '\0').1)),
                ),
            )
        } else if cmd == "remove_attribute"@ {
            Some(Call::GetAttribute(target, arg2))
        } else if cmd == "remove_attribute_ns"@ {
            Some(Call::GetAttributeNs(target, packed_name(arg2).0, packed_name(arg2).1))
        } else {
            None
        },
        None => None,
    }
}

fn probe_attribute(cmd: &str, arg1: &str, arg2: &str) -> (r: Option<Call<String, Vec<NodeId>>>)
    ensures
        match r {
            Some(c) => attribute_probe(cmd@, arg1@, arg2@) == Some(c@),
            None => attribute_probe(cmd@, arg1@, arg2@) is None,
        },
{
    match parse_node(arg1) {
        Some(target) => {
            if same_text(cmd, "set_attribute") {
                match split_once(arg2, '\0') {
                    Some((name, _)) => Some(Call::GetAttribute(target, name)),
                    None => None,
                }
            } else if same_text(cmd, "set_attribute_ns") {
                let (ns, qualified, _): (String, Option<String>, Option<String>) = split_twice(
                    arg2,
                    '\0',
                );
                let q: String = text_or_empty(qualified);
                Some(Call::GetAttributeNs(target, ns, local_of(q.as_str())))
            } else if same_text(cmd, "remove_attribute") {
                Some(Call::GetAttribute(target, arg2.to_owned()))
            } else if same_text(cmd, "remove_attribute_ns") {
                let (ns, local): (String, String) = unpack_name(arg2);
                Some(Call::GetAttributeNs(target, ns, local))
            } else {
                None
            }
        },
        None => None,
    }
}

/// The selector of the element with this identifier.
pub open spec fn id_selector(id: Seq<char>) -> Seq<char> {
    "[id=\""@ + replaced(replaced(id, '\\', "\\\\"@), '"', "\\\""@) + "\"]"@
}

fn make_id_selector(id: &str) -> (r: String)
    ensures
        r@ == id_selector(id@),
{
    let mut r: String = "[id=\"".to_owned();
    let once: String = replace_char(id, '\\', "\\\\");
    let twice: String = replace_char(once.as_str(), '"', "\\\"");
    r.append(twice.as_str());
    r.append("\"]");
    r
}

/// The node that an argument names, the document where it names none.
pub open spec fn node_or_document(arg: Seq<char>) -> NodeId {
    match node_named(arg) {
        Some(n) => n,
        None => 0,
    }
}

fn parse_or_document(arg: &str) -> (r: NodeId)
    ensures
        r == node_or_document(arg@),
{
    match parse_node(arg) {
        Some(n) => n,
        None => 0,
    }
}

/// A command that the tree engine answers without further ado.
pub open spec fn engine_read(cmd: DomCommand, arg1: Seq<char>, arg2: Seq<char>) -> Option<StepView> {
    let a: NodeId = node_or_document(arg1);
    let b: NodeId = node_or_document(arg2);
    match cmd {
        DomCommand::DocumentTitle => Some(Step::Ask(Call::QuerySelector("title"@), Then::Title)),
        DomCommand::GetElementById => Some(Step::Ask(Call::ElementById(arg1), Then::LiveById(arg1))),
        DomCommand::QuerySelector => Some(Step::Ask(Call::QuerySelector(arg1), Then::ReplyNode)),
        DomCommand::QuerySelectorAll => Some(
            Step::Ask(Call::QuerySelectorAll(arg1), Then::ReplyNodes),
        ),
        DomCommand::QuerySelectorScoped => Some(
            Step::Ask(Call::QuerySelectorFrom(a, arg2), Then::ReplyNode),
        ),
        DomCommand::QuerySelectorAllScoped => Some(
            Step::Ask(Call::QuerySelectorAllFrom(a, arg2), Then::ReplyNodes),
        ),
        DomCommand::MatchesSelector => Some(
            Step::Ask(Call::MatchesSelector(a, arg2), Then::ReplyFlag),
        ),
        DomCommand::TextContent => Some(Step::Ask(Call::TextContent(a), Then::ReplyText)),
        DomCommand::InnerHtml => Some(Step::Ask(Call::InnerHtml(a), Then::ReplyText)),
        DomCommand::OuterHtml => Some(Step::Ask(Call::OuterHtml(a), Then::ReplyText)),
        DomCommand::NextInSubtree => Some(Step::Ask(Call::NextInSubtree(a, b), Then::ReplyNode)),
        DomCommand::PrevInSubtree => Some(Step::Ask(Call::PrevInSubtree(a, b), Then::ReplyNode)),
        DomCommand::NextAfterSubtree => Some(
            Step::Ask(Call::NextAfterSubtree(a, b), Then::ReplyNode),
        ),
        DomCommand::Contains => Some(Step::Ask(Call::Descendants(a), Then::ReplyContains(b))),
        DomCommand::GetAttribute => Some(Step::Ask(Call::GetAttribute(a, arg2), Then::ReplyValue)),
        DomCommand::GetAttributeNs => Some(
            Step::Ask(
                Call::GetAttributeNs(a, packed_name(arg2).0, packed_name(arg2).1),
                Then::ReplyValue,
            ),
        ),
        DomCommand::AttributeNames => Some(Step::Ask(Call::AttributeNames(a), Then::ReplyNames)),
        DomCommand::TemplateContents => Some(
            Step::Ask(Call::TemplateContents(a), Then::ReplyNode),
        ),
        _ => None,
    }
}

fn start_engine_read(cmd: DomCommand, arg1: &str, arg2: &str) -> (r: Option<DomStep>)
    ensures
        match r {
            Some(s) => engine_read(cmd, arg1@, arg2@) == Some(s@),
            None => engine_read(cmd, arg1@, arg2@) is None,
        },
{
    let a: NodeId = parse_or_document(arg1);
    let b: NodeId = parse_or_document(arg2);
    match cmd {
        DomCommand::DocumentTitle => Some(
            Step::Ask(Call::QuerySelector("title".to_owned()), Then::Title),
        ),
        DomCommand::GetElementById => Some(
            Step::Ask(Call::ElementById(arg1.to_owned()), Then::LiveById(arg1.to_owned())),
        ),
        DomCommand::QuerySelector => Some(
            Step::Ask(Call::QuerySelector(arg1.to_owned()), Then::ReplyNode),
        ),
        DomCommand::QuerySelectorAll => Some(
            Step::Ask(Call::QuerySelectorAll(arg1.to_owned()), Then::ReplyNodes),
        ),
        DomCommand::QuerySelectorScoped => Some(
            Step::Ask(Call::QuerySelectorFrom(a, arg2.to_owned()), Then::ReplyNode),
        ),
        DomCommand::QuerySelectorAllScoped => Some(
            Step::Ask(Call::QuerySelectorAllFrom(a, arg2.to_owned()), Then::ReplyNodes),
        ),
        DomCommand::MatchesSelector => Some(
            Step::Ask(Call::MatchesSelector(a, arg2.to_owned()), Then::ReplyFlag),
        ),
        DomCommand::TextContent => Some(Step::Ask(Call::TextContent(a), Then::ReplyText)),
        DomCommand::InnerHtml => Some(Step::Ask(Call::InnerHtml(a), Then::ReplyText)),
        DomCommand::OuterHtml => Some(Step::Ask(Call::OuterHtml(a), Then::ReplyText)),
        DomCommand::NextInSubtree => Some(Step::Ask(Call::NextInSubtree(a, b), Then::ReplyNode)),
        DomCommand::PrevInSubtree => Some(Step::Ask(Call::PrevInSubtree(a, b), Then::ReplyNode)),
        DomCommand::NextAfterSubtree => Some(
            Step::Ask(Call::NextAfterSubtree(a, b), Then::ReplyNode),
        ),
        DomCommand::Contains => Some(Step::Ask(Call::Descendants(a), Then::ReplyContains(b))),
        DomCommand::GetAttribute => Some(
            Step::Ask(Call::GetAttribute(a, arg2.to_owned()), Then::ReplyValue),
        ),
        DomCommand::GetAttributeNs => {
            let (ns, local): (String, String) = unpack_name(arg2);
            Some(Step::Ask(Call::GetAttributeNs(a, ns, local), Then::ReplyValue))
        },
        DomCommand::AttributeNames => Some(Step::Ask(Call::AttributeNames(a), Then::ReplyNames)),
        DomCommand::TemplateContents => Some(
            Step::Ask(Call::TemplateContents(a), Then::ReplyNode),
        ),
        _ => None,
    }
}

/// The element that a creation command with a namespace makes; none where the
/// qualified name is empty or has an empty side around its colon.
pub open spec fn created_name(arg: Seq<char>) -> Option<QualName<Seq<char>>> {
    let (ns, qualified): (Seq<char>, Seq<char>) = packed_name(arg);
    match cut_once(qualified, ':') {
        Some((prefix, local)) => if prefix.len() > 0 && local.len() > 0 {
            Some(QualName { prefix: Some(prefix), ns, local })
        } else {
            None
        },
        None => if qualified.len() > 0 {
            Some(QualName { prefix: None, ns, local: qualified })
        } else {
            None
        },
    }
}

fn make_created_name(arg: &str) -> (r: Option<QualName<String>>)
    ensures
        opt_name(r) == created_name(arg@),
{
    let (ns, qualified): (String, String) = unpack_name(arg);
    match split_once(qualified.as_str(), ':') {
        Some((prefix, local)) => {
            if !is_empty(prefix.as_str()) && !is_empty(local.as_str()) {
                Some(QualName { prefix: Some(prefix), ns, local })
            } else {
                None
            }
        },
        None => {
            if !is_empty(qualified.as_str()) {
                Some(QualName { prefix: None, ns, local: qualified })
            } else {
                None
            }
        },
    }
}

/// The node that a creation command makes.
pub open spec fn created_data(
    cmd: DomCommand,
    arg1: Seq<char>,
    arg2: Seq<char>,
) -> Option<NodeData<Seq<char>>> {
    match cmd {
        DomCommand::CreateDocumentFragment => Some(NodeData::Document),
        DomCommand::CreateElement => Some(
            NodeData::Element {
                name: QualName { prefix: None, ns: html_namespace(), local: arg1 },
                template_contents: None,
            },
        ),
        DomCommand::CreateTextNode => Some(NodeData::Text { contents: arg1 }),
        DomCommand::CreateCommentNode => Some(NodeData::Comment { contents: arg1 }),
        DomCommand::CreateProcessingInstruction => Some(
            NodeData::ProcessingInstruction { target: arg1, data: arg2 },
        ),
        DomCommand::CreateDoctype => Some(
            NodeData::Doctype { name: arg1, public_id: arg2, system_id: Seq::empty() },
        ),
        _ => None,
    }
}

fn make_data(cmd: DomCommand, arg1: &str, arg2: &str) -> (r: Option<NodeData<String>>)
    ensures
        match r {
            Some(d) => created_data(cmd, arg1@, arg2@) == Some(d@),
            None => created_data(cmd, arg1@, arg2@) is None,
        },
{
    match cmd {
        DomCommand::CreateDocumentFragment => Some(NodeData::Document),
        DomCommand::CreateElement => Some(
            NodeData::Element {
                name: QualName {
                    prefix: None,
                    ns: "http://www.w3.org/1999/xhtml".to_owned(),
                    local: arg1.to_owned(),
                },
                template_contents: None,
            },
        ),
        DomCommand::CreateTextNode => Some(NodeData::Text { contents: arg1.to_owned() }),
        DomCommand::CreateCommentNode => Some(NodeData::Comment { contents: arg1.to_owned() }),
        DomCommand::CreateProcessingInstruction => Some(
            NodeData::ProcessingInstruction { target: arg1.to_owned(), data: arg2.to_owned() },
        ),
        DomCommand::CreateDoctype => Some(
            NodeData::Doctype {
                name: arg1.to_owned(),
                public_id: arg2.to_owned(),
                system_id: String::new(),
            },
        ),
        _ => None,
    }
}

/// The first step of a command that creates a node.
pub open spec fn creation(cmd: DomCommand, arg1: Seq<char>, arg2: Seq<char>) -> Option<StepView> {
    match cmd {
        DomCommand::CreateElementNs => match created_name(arg1) {
            Some(name) => Some(
                Step::Ask(
                    Call::Create(NodeData::Element { name, template_contents: None }),
                    Then::ReplyNode,
                ),
            ),
            None => Some(Step::Done("-1"@)),
        },
        DomCommand::CloneNode => match node_named(arg1) {
            Some(n) => Some(Step::Ask(Call::CloneNode(n, arg2 == "true"@), Then::Cloned(n))),
            None => Some(Step::Done("-1"@)),
        },
        _ => match created_data(cmd, arg1, arg2) {
            Some(d) => Some(Step::Ask(Call::Create(d), Then::ReplyNode)),
            None => None,
        },
    }
}

fn start_creation(cmd: DomCommand, arg1: &str, arg2: &str) -> (r: Option<DomStep>)
    ensures
        match r {
            Some(s) => creation(cmd, arg1@, arg2@) == Some(s@),
            None => creation(cmd, arg1@, arg2@) is None,
        },
{
    match cmd {
        DomCommand::CreateElementNs => match make_created_name(arg1) {
            Some(name) => Some(
                Step::Ask(
                    Call::Create(NodeData::Element { name, template_contents: None }),
                    Then::ReplyNode,
                ),
            ),
            None => Some(Step::Done("-1".to_owned())),
        },
        DomCommand::CloneNode => match parse_node(arg1) {
            Some(n) => Some(
                Step::Ask(Call::CloneNode(n, same_text(arg2, "true")), Then::Cloned(n)),
            ),
            None => Some(Step::Done("-1".to_owned())),
        },
        _ => match make_data(cmd, arg1, arg2) {
            Some(d) => Some(Step::Ask(Call::Create(d), Then::ReplyNode)),
            None => None,
        },
    }
}

/// The first step of a command that writes or removes an attribute. Writing
/// the identifier also keeps the identifier index up to date.
pub open spec fn attribute_write(
    cmd: DomCommand,
    arg1: Seq<char>,
    arg2: Seq<char>,
    is_element: bool,
) -> Option<StepView> {
    let n: NodeId = node_or_document(arg1);
    match cmd {
        DomCommand::SetAttribute => match cut_once(arg2, '\0') {
            Some((name, value)) => if name == "id"@ {
                Some(Step::Ask(Call::GetAttribute(n, "id"@), Then::WriteId(n, name, value)))
            } else {
                Some(Step::Ask(Call::SetAttribute(n, name, value), Then::ReplyTrue))
            },
            None => Some(Step::Done("true"@)),
        },
        DomCommand::SetAttributeNs => {
            let ns: Seq<char> = cut_twice(arg2, '\0').0;
            let qualified: Seq<char> = or_empty(cut_twice(arg2, '\0').1);
            let value: Seq<char> = or_empty(cut_twice(arg2, '\0').2);
            if qualified.len() == 0 {
                Some(Step::Done("true"@))
            } else if ns.len() == 0 && local_part(qualified) == "id"@ {
                Some(
                    Step::Ask(
                        Call::GetAttribute(n, "id"@),
                        Then::WriteIdNs(n, ns, qualified, value),
                    ),
                )
            } else {
                Some(Step::Ask(Call::SetAttributeNs(n, ns, qualified, value), Then::ReplyTrue))
            }
        },
        DomCommand::RemoveAttribute => if is_element {
            Some(Step::Ask(Call::RemoveAttribute(n, arg2), Then::ReplyTrue))
        } else {
            Some(Step::Done("true"@))
        },
        DomCommand::RemoveAttributeNs => {
            let (ns, local): (Seq<char>, Seq<char>) = packed_name(arg2);
            if ns.len() == 0 && local == "id"@ {
                Some(Step::Ask(Call::GetAttribute(n, "id"@), Then::DropIdNs(n, ns, local)))
            } else {
                Some(Step::Ask(Call::RemoveAttributeNs(n, ns, local), Then::ReplyTrue))
            }
        },
        _ => None,
    }
}

fn start_attribute_write(cmd: DomCommand, arg1: &str, arg2: &str, is_element: bool) -> (r: Option<
    DomStep,
>)
    ensures
        match r {
            Some(s) => attribute_write(cmd, arg1@, arg2@, is_element) == Some(s@),
            None => attribute_write(cmd, arg1@, arg2@, is_element) is None,
        },
{
    let n: NodeId = parse_or_document(arg1);
    match cmd {
        DomCommand::SetAttribute => match split_once(arg2, '\0') {
            Some((name, value)) => {
                if same_text(name.as_str(), "id") {
                    Some(
                        Step::Ask(
                            Call::GetAttribute(n, "id".to_owned()),
                            Then::WriteId(n, name, value),
                        ),
                    )
                } else {
                    Some(Step::Ask(Call::SetAttribute(n, name, value), Then::ReplyTrue))
                }
            },
            None => Some(Step::Done("true".to_owned())),
        },
        DomCommand::SetAttributeNs => {
            let (ns, second, third): (String, Option<String>, Option<String>) = split_twice(
                arg2,
                '\0',
            );
            let qualified: String = text_or_empty(second);
            let value: String = text_or_empty(third);
            if is_empty(qualified.as_str()) {
                Some(Step::Done("true".to_owned()))
            } else if is_empty(ns.as_str()) && same_text(
                local_of(qualified.as_str()).as_str(),
                "id",
            ) {
                Some(
                    Step::Ask(
                        Call::GetAttribute(n, "id".to_owned()),
                        Then::WriteIdNs(n, ns, qualified, value),
                    ),
                )
            } else {
                Some(Step::Ask(Call::SetAttributeNs(n, ns, qualified, value), Then::ReplyTrue))
            }
        },
        DomCommand::RemoveAttribute => {
            if is_element {
                Some(Step::Ask(Call::RemoveAttribute(n, arg2.to_owned()), Then::ReplyTrue))
            } else {
                Some(Step::Done("true".to_owned()))
            }
        },
        DomCommand::RemoveAttributeNs => {
            let (ns, local): (String, String) = unpack_name(arg2);
            if is_empty(ns.as_str()) && same_text(local.as_str(), "id") {
                Some(
                    Step::Ask(
                        Call::GetAttribute(n, "id".to_owned()),
                        Then::DropIdNs(n, ns, local),
                    ),
                )
            } else {
                Some(Step::Ask(Call::RemoveAttributeNs(n, ns, local), Then::ReplyTrue))
            }
        },
        _ => None,
    }
}

/// Whether a node holds character data of its own.
pub open spec fn character_data(dom: DomTree, id: NodeId) -> bool {
    match dom.node(id) {
        Some(n) => n.data is Text || n.data is Comment || n.data is ProcessingInstruction,
        None => false,
    }
}

/// Whether a node holds character data of its own.
pub fn has_character_data(dom: &DomTree, id: NodeId) -> (r: bool)
    ensures
        r == character_data(*dom, id),
{
    match dom.get_node(id) {
        Some(n) => match &n.data {
            NodeData::Text { contents: _ } => true,
            NodeData::Comment { contents: _ } => true,
            NodeData::ProcessingInstruction { target: _, data: _ } => true,
            _ => false,
        },
        None => false,
    }
}

/// The first step of a command that changes the children or the text of a
/// node. The document itself is never emptied by assigned HTML.
pub open spec fn structure_write(
    dom: DomTree,
    cmd: DomCommand,
    arg1: Seq<char>,
    arg2: Seq<char>,
) -> Option<StepView> {
    match cmd {
        DomCommand::AppendChild => match (node_named(arg1), node_named(arg2)) {
            (Some(parent), Some(child)) => Some(
                Step::Ask(Call::AppendChild(parent, child), Then::Appended(parent, child)),
            ),
            _ => Some(Step::Done("false"@)),
        },
        DomCommand::RemoveChild => match node_named(arg1) {
            Some(child) => Some(
                Step::Ask(
                    Call::RemoveChild(child),
                    Then::Removed(child, dom.parent(child) is Some),
                ),
            ),
            None => Some(Step::Done("false"@)),
        },
        DomCommand::InsertBefore => match (node_named(arg1), node_named(arg2)) {
            (Some(new_node), Some(reference)) => Some(
                Step::Ask(
                    Call::InsertBefore(reference, new_node),
                    Then::Inserted(new_node, dom.parent(reference)),
                ),
            ),
            _ => Some(Step::Done("false"@)),
        },
        DomCommand::SetInnerHtml => match node_named(arg1) {
            Some(n) => if n > 0 {
                Some(
                    Step::Ask(
                        Call::Detach(dom.children(n)),
                        Then::Import(n, element_name(dom.node(n)), arg2, true),
                    ),
                )
            } else {
                Some(Step::Done("false"@))
            },
            None => Some(Step::Done("false"@)),
        },
        DomCommand::SetInnerHtmlContext | DomCommand::SetFragmentHtmlExecutable => match node_named(
            arg1,
        ) {
            Some(n) => if n > 0 {
                Some(
                    Step::Ask(
                        Call::Detach(dom.children(n)),
                        Then::Import(
                            n,
                            Some(fragment_parts(arg2).0),
                            fragment_parts(arg2).1,
                            cmd is SetInnerHtmlContext,
                        ),
                    ),
                )
            } else {
                Some(Step::Done("false"@))
            },
            None => Some(Step::Done("false"@)),
        },
        DomCommand::SetTextContent => {
            let n: NodeId = node_or_document(arg1);
            if character_data(dom, n) {
                Some(Step::Ask(Call::SetCharacterData(n, arg2), Then::ReplyTrue))
            } else {
                Some(Step::Done("true"@))
            }
        },
        _ => None,
    }
}

fn refused() -> (r: Option<DomStep>)
    ensures
        r is Some,
        (r->0)@ == (StepView::Done("false"@)),
{
    Some(Step::Done("false".to_owned()))
}

fn start_structure_write(dom: &DomTree, cmd: DomCommand, arg1: &str, arg2: &str) -> (r: Option<
    DomStep,
>)
    ensures
        match r {
            Some(s) => structure_write(*dom, cmd, arg1@, arg2@) == Some(s@),
            None => structure_write(*dom, cmd, arg1@, arg2@) is None,
        },
{
    match cmd {
        DomCommand::AppendChild => match (parse_node(arg1), parse_node(arg2)) {
            (Some(parent), Some(child)) => Some(
                Step::Ask(Call::AppendChild(parent, child), Then::Appended(parent, child)),
            ),
            _ => refused(),
        },
        DomCommand::RemoveChild => match parse_node(arg1) {
            Some(child) => {
                let had: bool = dom.parent_of(child).is_some();
                Some(Step::Ask(Call::RemoveChild(child), Then::Removed(child, had)))
            },
            None => refused(),
        },
        DomCommand::InsertBefore => match (parse_node(arg1), parse_node(arg2)) {
            (Some(new_node), Some(reference)) => {
                let expected: Option<NodeId> = dom.parent_of(reference);
                Some(
                    Step::Ask(
                        Call::InsertBefore(reference, new_node),
                        Then::Inserted(new_node, expected),
                    ),
                )
            },
            _ => refused(),
        },
        DomCommand::SetInnerHtml => match parse_node(arg1) {
            Some(n) => {
                if n > 0 {
                    let context: Option<QualName<String>> = match name_of(dom, n) {
                        Some(q) => Some(q.copied()),
                        None => None,
                    };
                    Some(
                        Step::Ask(
                            Call::Detach(dom.children_of(n)),
                            Then::Import(n, context, arg2.to_owned(), true),
                        ),
                    )
                } else {
                    refused()
                }
            },
            None => refused(),
        },
        DomCommand::SetInnerHtmlContext | DomCommand::SetFragmentHtmlExecutable => match parse_node(
            arg1,
        ) {
            Some(n) => {
                if n > 0 {
                    let (context, html): (QualName<String>, String) = fragment_context_and_html(
                        arg2,
                    );
                    let inert: bool = match cmd {
                        DomCommand::SetInnerHtmlContext => true,
                        _ => false,
                    };
                    Some(
                        Step::Ask(
                            Call::Detach(dom.children_of(n)),
                            Then::Import(n, Some(context), html, inert),
                        ),
                    )
                } else {
                    refused()
                }
            },
            None => refused(),
        },
        DomCommand::SetTextContent => {
            let n: NodeId = parse_or_document(arg1);
            if has_character_data(dom, n) {
                Some(Step::Ask(Call::SetCharacterData(n, arg2.to_owned()), Then::ReplyTrue))
            } else {
                Some(Step::Done("true".to_owned()))
            }
        },
        _ => None,
    }
}

/// A command that the page's own values answer.
pub open spec fn page_read(
    state: RuntimeState,
    dom: DomTree,
    cmd: DomCommand,
    arg1: Seq<char>,
    arg2: Seq<char>,
) -> Option<Seq<char>> {
    let a: NodeId = node_or_document(arg1);
    let b: NodeId = node_or_document(arg2);
    match cmd {
        DomCommand::DocumentNodeId => Some(decimal(dom.document as nat)),
        DomCommand::DocumentUrl => Some(json_quoted(state.url@)),
        DomCommand::DocumentReferrer => Some(json_quoted(state.referrer@)),
        DomCommand::DocumentEncoding => Some(json_quoted(state.encoding@)),
        DomCommand::DocumentElement => Some(
            id_or_none(first_html(dom, dom.children(dom.document), 0)),
        ),
        DomCommand::DocumentDoctype => Some(first_doctype(dom, dom.children(dom.document), 0)),
        DomCommand::CompareOrder => Some(signed_decimal(order(dom, a, b))),
        DomCommand::IsInclusiveAncestor => Some(
            bool_text(ancestor_within(dom, a, b, ANCESTOR_HOP_LIMIT as nat)),
        ),
        _ => node_read(dom, cmd, a),
    }
}

fn answer_page_read(
    state: &RuntimeState,
    dom: &DomTree,
    cmd: DomCommand,
    arg1: &str,
    arg2: &str,
) -> (r: Option<String>)
    requires
        dom.wf(),
    ensures
        opt_text(r) == page_read(*state, *dom, cmd, arg1@, arg2@),
{
    let a: NodeId = parse_or_document(arg1);
    let b: NodeId = parse_or_document(arg2);
    match cmd {
        DomCommand::DocumentNodeId => Some(write_decimal(dom.document)),
        DomCommand::DocumentUrl => Some(json_string(state.url.as_str())),
        DomCommand::DocumentReferrer => Some(json_string(state.referrer.as_str())),
        DomCommand::DocumentEncoding => Some(json_string(state.encoding.as_str())),
        DomCommand::DocumentElement => Some(write_id(document_element(dom))),
        DomCommand::DocumentDoctype => Some(document_doctype(dom)),
        DomCommand::CompareOrder => Some(write_signed(compare_node_order(dom, a, b) as i64)),
        DomCommand::IsInclusiveAncestor => Some(write_bool(is_inclusive_ancestor(dom, a, b))),
        _ => read_node(dom, cmd, a),
    }
}

/// The first step of a command, once its effect on the rendered document is
/// recorded. Without a document, and for a name that is no command, the reply
/// is `null`.
pub open spec fn dispatched(
    state: RuntimeState,
    cmd: DomCommand,
    arg1: Seq<char>,
    arg2: Seq<char>,
) -> StepView {
    match state.dom {
        Some(dom) => match page_read(state, dom, cmd, arg1, arg2) {
            Some(reply) => Step::Done(reply),
            None => match engine_read(cmd, arg1, arg2) {
                Some(step) => step,
                None => match creation(cmd, arg1, arg2) {
                    Some(step) => step,
                    None => match attribute_write(
                        cmd,
                        arg1,
                        arg2,
                        element_name(dom.node(node_or_document(arg1))) is Some,
                    ) {
                        Some(step) => step,
                        None => match structure_write(dom, cmd, arg1, arg2) {
                            Some(step) => step,
                            None => Step::Done("null"@),
                        },
                    },
                },
            },
        },
        None => Step::Done("null"@),
    }
}

fn dispatch(state: &RuntimeState, cmd: DomCommand, arg1: &str, arg2: &str) -> (r: DomStep)
    requires
        state.wf(),
    ensures
        r@ == dispatched(*state, cmd, arg1@, arg2@),
{
    match &state.dom {
        Some(dom) => match answer_page_read(state, dom, cmd, arg1, arg2) {
            Some(reply) => Step::Done(reply),
            None => match start_engine_read(cmd, arg1, arg2) {
                Some(step) => step,
                None => match start_creation(cmd, arg1, arg2) {
                    Some(step) => step,
                    None => {
                        let is_element: bool = name_of(dom, parse_or_document(arg1)).is_some();
                        match start_attribute_write(cmd, arg1, arg2, is_element) {
                            Some(step) => step,
                            None => match start_structure_write(dom, cmd, arg1, arg2) {
                                Some(step) => step,
                                None => Step::Done("null".to_owned()),
                            },
                        }
                    },
                },
            },
        },
        None => Step::Done("null".to_owned()),
    }
}

/// What a command does to the rendered document; nothing where it does not
/// change the tree or there is none.
pub open spec fn command_impact(
    state: RuntimeState,
    cmd: Seq<char>,
    arg1: Seq<char>,
    arg2: Seq<char>,
    old: Option<Seq<char>>,
) -> RenderMutationImpact {
    match state.dom {
        Some(dom) => if mutating(cmd) {
            impact(dom, cmd, arg1, arg2, old)
        } else {
            no_impact()
        },
        None => no_impact(),
    }
}

fn record_command(
    state: &mut RuntimeState,
    cmd: &str,
    arg1: &str,
    arg2: &str,
    old_value: Option<&str>,
)
    ensures
        *final(state) == after_impact(
            *old(state),
            command_impact(*old(state), cmd@, arg1@, arg2@, opt_str(old_value)),
        ),
{
    if is_mutating_dom_command(cmd) {
        let effect: RenderMutationImpact = match &state.dom {
            Some(dom) => render_mutation_impact(dom, cmd, arg1, arg2, old_value),
            None => {
                return ;
            },
        };
        state.record_impact(effect);
    }
}

/// The neighbour that a tree-edge read replies with, where `cmd` is one and
/// its argument names a node.
pub open spec fn fast_read(
    dom: Option<DomTree>,
    cmd: DomCommand,
    arg1: Seq<char>,
) -> Option<int> {
    match node_named(arg1) {
        Some(n) => tree_query(dom, cmd, n),
        None => None,
    }
}

/// The first step of a command.
pub open spec fn command_step(
    state: RuntimeState,
    cmd: Seq<char>,
    arg1: Seq<char>,
    arg2: Seq<char>,
) -> StepView {
    match fast_read(state.dom, command_named(cmd), arg1) {
        Some(v) => Step::Done(signed_decimal(v)),
        None => match (state.dom, attribute_probe(cmd, arg1, arg2)) {
            (Some(dom), Some(probe)) => Step::Ask(probe, Then::Mutate(cmd, arg1, arg2)),
            _ => dispatched(state, command_named(cmd), arg1, arg2),
        },
    }
}

/// The page after the first step of a command.
pub open spec fn command_state(
    state: RuntimeState,
    cmd: Seq<char>,
    arg1: Seq<char>,
    arg2: Seq<char>,
) -> RuntimeState {
    if fast_read(state.dom, command_named(cmd), arg1) is Some || (state.dom is Some
        && attribute_probe(cmd, arg1, arg2) is Some) {
        state
    } else {
        after_impact(state, command_impact(state, cmd, arg1, arg2, None))
    }
}

proof fn after_impact_reads_the_same(
    state: RuntimeState,
    effect: RenderMutationImpact,
    cmd: DomCommand,
    arg1: Seq<char>,
    arg2: Seq<char>,
)
    ensures
        dispatched(after_impact(state, effect), cmd, arg1, arg2) == dispatched(
            state,
            cmd,
            arg1,
            arg2,
        ),
{
}

/// Starts a command of page script on the document tree.
pub fn op_dom_inner(state: &mut RuntimeState, cmd: &str, arg1: &str, arg2: &str) -> (r: DomStep)
    requires
        old(state).wf(),
    ensures
        final(state).wf(),
        *final(state) == command_state(*old(state), cmd@, arg1@, arg2@),
        r@ == command_step(*old(state), cmd@, arg1@, arg2@),
{
    let command: DomCommand = parse_command(cmd);
    match parse_node(arg1) {
        Some(nid) => match op_dom_tree_query(&state.dom, command, nid) {
            Some(fast) => {
                return Step::Done(write_signed(fast as i64));
            },
            None => {},
        },
        None => {},
    }
    if state.dom.is_some() {
        match probe_attribute(cmd, arg1, arg2) {
            Some(probe) => {
                return Step::Ask(
                    probe,
                    Then::Mutate(cmd.to_owned(), arg1.to_owned(), arg2.to_owned()),
                );
            },
            None => {},
        }
    }
    record_command(state, cmd, arg1, arg2, None);
    proof {
        after_impact_reads_the_same(
            *old(state),
            command_impact(*old(state), cmd@, arg1@, arg2@, None),
            command,
            arg1@,
            arg2@,
        );
    }
    dispatch(state, command, arg1, arg2)
}

/// The node of an answer; none where it is no node.
pub open spec fn answered_node(answer: DomAnswer) -> Option<NodeId> {
    match answer {
        DomAnswer::Node(n) => n,
        _ => None,
    }
}

/// The nodes of an answer; none where it is no list of nodes.
pub open spec fn answered_nodes(answer: DomAnswer) -> Seq<NodeId> {
    match answer {
        DomAnswer::Nodes(l) => l@,
        _ => Seq::empty(),
    }
}

/// The text of an answer; empty where it is no text.
pub open spec fn answered_text(answer: DomAnswer) -> Seq<char> {
    match answer {
        DomAnswer::Text(s) => s@,
        _ => Seq::empty(),
    }
}

/// The optional text of an answer; none where it is none.
pub open spec fn answered_value(answer: DomAnswer) -> Option<Seq<char>> {
    match answer {
        DomAnswer::Value(v) => opt_text(v),
        _ => None,
    }
}

/// The flag of an answer; false where it is no flag.
pub open spec fn answered_flag(answer: DomAnswer) -> bool {
    match answer {
        DomAnswer::Flag(b) => b,
        _ => false,
    }
}

/// The texts of an answer; none where it is no list of texts.
pub open spec fn answered_names(answer: DomAnswer) -> Seq<Seq<char>> {
    match answer {
        DomAnswer::Names(l) => texts(l@),
        _ => Seq::empty(),
    }
}

fn take_node(answer: &DomAnswer) -> (r: Option<NodeId>)
    ensures
        r == answered_node(*answer),
{
    match answer {
        DomAnswer::Node(n) => *n,
        _ => None,
    }
}

fn take_nodes(answer: DomAnswer) -> (r: Vec<NodeId>)
    ensures
        r@ == answered_nodes(answer),
{
    match answer {
        DomAnswer::Nodes(l) => l,
        _ => Vec::new(),
    }
}

fn take_text(answer: DomAnswer) -> (r: String)
    ensures
        r@ == answered_text(answer),
{
    match answer {
        DomAnswer::Text(s) => s,
        _ => String::new(),
    }
}

fn take_value(answer: DomAnswer) -> (r: Option<String>)
    ensures
        opt_text(r) == answered_value(answer),
{
    match answer {
        DomAnswer::Value(v) => v,
        _ => None,
    }
}

fn take_flag(answer: &DomAnswer) -> (r: bool)
    ensures
        r == answered_flag(*answer),
{
    match answer {
        DomAnswer::Flag(b) => *b,
        _ => false,
    }
}

fn take_names(answer: DomAnswer) -> (r: Vec<String>)
    ensures
        texts(r@) == answered_names(answer),
{
    match answer {
        DomAnswer::Names(l) => l,
        _ => {
            let none: Vec<String> = Vec::new();
            assert(texts(none@) =~= Seq::<Seq<char>>::empty());
            none
        },
    }
}

/// The parent of `id` in the page's document.
pub open spec fn page_parent(state: RuntimeState, id: NodeId) -> Option<NodeId> {
    match state.dom {
        Some(dom) => dom.parent(id),
        None => None,
    }
}

/// Whether `id` is a node of the page's document.
pub open spec fn page_holds(state: RuntimeState, id: NodeId) -> bool {
    match state.dom {
        Some(dom) => dom.node(id) is Some,
        None => false,
    }
}

fn parent_in(state: &RuntimeState, id: NodeId) -> (r: Option<NodeId>)
    ensures
        r == page_parent(*state, id),
{
    match &state.dom {
        Some(dom) => dom.parent_of(id),
        None => None,
    }
}

fn held_by(state: &RuntimeState, id: NodeId) -> (r: bool)
    ensures
        r == page_holds(*state, id),
{
    match &state.dom {
        Some(dom) => dom.get_node(id).is_some(),
        None => false,
    }
}

/// The element, where it stands under the document.
pub open spec fn live(state: RuntimeState, n: Option<NodeId>) -> Option<NodeId> {
    match (state.dom, n) {
        (Some(dom), Some(id)) => if proper_ancestor(dom, dom.document, id) {
            Some(id)
        } else {
            None
        },
        _ => None,
    }
}

fn live_node(state: &RuntimeState, n: Option<NodeId>) -> (r: Option<NodeId>)
    requires
        state.wf(),
    ensures
        r == live(*state, n),
{
    match (&state.dom, n) {
        (Some(dom), Some(id)) => {
            if id == dom.document {
                return None;
            }
            let chain: Vec<NodeId> = node_ancestors_root_first(dom, id);
            let mut i: usize = 0;
            while i < chain.len()
                invariant
                    i <= chain@.len(),
                    chain@ == path(*dom, id),
                    id != dom.document,
                    state.dom == Some(*dom),
                    n == Some(id),
                    forall|j: int| 0 <= j < i ==> chain@[j] != dom.document,
                decreases chain@.len() - i,
            {
                if chain[i] == dom.document {
                    assert(path(*dom, id).contains(dom.document));
                    return Some(id);
                }
                i = i + 1;
            }
            assert(!path(*dom, id).contains(dom.document));
            None
        },
        _ => None,
    }
}

/// What a command does once the tree engine has answered. The page's document
/// is the one after the call.
pub open spec fn resumed(state: RuntimeState, then: Then<Seq<char>>, answer: DomAnswer) -> StepView {
    match then {
        Then::Mutate(cmd, arg1, arg2) => dispatched(state, command_named(cmd), arg1, arg2),
        Then::Title => match answered_node(answer) {
            Some(n) => Step::Ask(Call::TextContent(n), Then::TitleText),
            None => Step::Done(json_quoted(Seq::empty())),
        },
        Then::TitleText => Step::Done(
            json_quoted(joined(words(answered_text(answer)), " "@)),
        ),
        Then::LiveById(id) => match live(state, answered_node(answer)) {
            Some(n) => Step::Done(decimal(n as nat)),
            None => Step::Ask(Call::QuerySelector(id_selector(id)), Then::ReplyNode),
        },
        Then::ReplyNode => Step::Done(id_or_none(answered_node(answer))),
        Then::ReplyNodes => Step::Done(json_ints_text(low_ids(answered_nodes(answer)))),
        Then::ReplyFlag => Step::Done(bool_text(answered_flag(answer))),
        Then::ReplyText => Step::Done(json_quoted(answered_text(answer))),
        Then::ReplyValue => Step::Done(json_opt_text(answered_value(answer))),
        Then::ReplyNames => Step::Done(json_strings_text(answered_names(answer))),
        Then::ReplyContains(n) => Step::Done(bool_text(answered_nodes(answer).contains(n))),
        Then::ReplyTrue => Step::Done("true"@),
        Then::WriteId(n, name, value) => Step::Ask(
            Call::SetAttribute(n, name, value),
            Then::IndexId(n, answered_value(answer), Some(value)),
        ),
        Then::WriteIdNs(n, ns, qualified, value) => Step::Ask(
            Call::SetAttributeNs(n, ns, qualified, value),
            Then::IndexId(n, answered_value(answer), Some(value)),
        ),
        Then::DropIdNs(n, ns, local) => Step::Ask(
            Call::RemoveAttributeNs(n, ns, local),
            Then::IndexId(n, answered_value(answer), None),
        ),
        Then::IndexId(n, before, after) => Step::Ask(
            Call::UpdateIdIndex(n, before, after),
            Then::ReplyTrue,
        ),
        Then::Appended(parent, child) => Step::Done(
            bool_text(page_parent(state, child) == Some(parent)),
        ),
        Then::Removed(child, had) => Step::Done(
            bool_text(had && page_holds(state, child) && page_parent(state, child) is None),
        ),
        Then::Inserted(n, expected) => Step::Done(
            bool_text(expected is Some && page_parent(state, n) == expected),
        ),
        Then::Import(n, context, html, inert) => if html.len() == 0 {
            Step::Done("true"@)
        } else if inert {
            Step::Ask(Call::ImportHtml(n, context, html), Then::Imported(n))
        } else {
            Step::Ask(Call::ImportHtml(n, context, html), Then::ReplyTrue)
        },
        Then::Imported(n) => Step::Done("true"@),
        Then::Cloned(n) => Step::Done(id_or_none(answered_node(answer))),
    }
}

/// The scripts under the children of `n` from position `k` on, started one
/// child after the other.
pub open spec fn started_under_children(
    dom: DomTree,
    started: Set<NodeId>,
    ids: Seq<NodeId>,
) -> Set<NodeId>
    decreases ids.len(),
{
    if ids.len() == 0 {
        started
    } else {
        started_under_children(dom, started, ids.drop_last()).union(
            scripts_under(dom, ids.last()).to_set(),
        )
    }
}

/// The started scripts once the tree engine has answered: imported scripts
/// count as started, and a clone's scripts count as started where their
/// sources do.
pub open spec fn resumed_started(
    state: RuntimeState,
    then: Then<Seq<char>>,
    answer: DomAnswer,
) -> Set<NodeId> {
    let started: Set<NodeId> = state.already_started_scripts@;
    match (state.dom, then) {
        (Some(dom), Then::Imported(n)) => started_under_children(dom, started, dom.children(n)),
        (Some(dom), Then::Cloned(n)) => match answered_node(answer) {
            Some(c) => started.union(carried(dom, started, n, c).to_set()),
            None => started,
        },
        _ => started,
    }
}

/// The activity generation once the tree engine has answered.
pub open spec fn resumed_activity(
    state: RuntimeState,
    then: Then<Seq<char>>,
    answer: DomAnswer,
) -> u64 {
    match then {
        Then::Mutate(cmd, arg1, arg2) => after_impact(
            state,
            command_impact(state, cmd, arg1, arg2, answered_value(answer)),
        ).activity_generation,
        _ => state.activity_generation,
    }
}

fn mark_children(state: &mut RuntimeState, n: NodeId)
    requires
        old(state).wf(),
    ensures
        final(state).wf(),
        final(state).already_started_scripts@ == (match old(state).dom {
            Some(dom) => started_under_children(
                dom,
                old(state).already_started_scripts@,
                dom.children(n),
            ),
            None => old(state).already_started_scripts@,
        }),
        *final(state) == (RuntimeState {
            already_started_scripts: final(state).already_started_scripts,
            ..*old(state)
        }),
{
    let ids: Vec<NodeId> = match &state.dom {
        Some(dom) => dom.children_of(n),
        None => {
            return ;
        },
    };
    let ghost dom: DomTree = state.dom->0;
    let mut i: usize = 0;
    while i < ids.len()
        invariant
            state.wf(),
            i <= ids@.len(),
            old(state).dom == Some(dom),
            state.dom == Some(dom),
            ids@ == dom.children(n),
            *state == (RuntimeState {
                already_started_scripts: state.already_started_scripts,
                ..*old(state)
            }),
            state.already_started_scripts@ == started_under_children(
                dom,
                old(state).already_started_scripts@,
                ids@.take(i as int),
            ),
        decreases ids@.len() - i,
    {
        state.mark_script_subtree_started(ids[i]);
        assert(ids@.take(i + 1).drop_last() =~= ids@.take(i as int));
        i = i + 1;
    }
    assert(ids@.take(i as int) =~= ids@);
}

fn carry_started(state: &mut RuntimeState, source: NodeId, cloned: NodeId)
    requires
        old(state).wf(),
    ensures
        final(state).wf(),
        final(state).already_started_scripts@ == (match old(state).dom {
            Some(dom) => old(state).already_started_scripts@.union(
                carried(dom, old(state).already_started_scripts@, source, cloned).to_set(),
            ),
            None => old(state).already_started_scripts@,
        }),
        *final(state) == (RuntimeState {
            already_started_scripts: final(state).already_started_scripts,
            ..*old(state)
        }),
{
    match &state.dom {
        Some(dom) => propagate_script_start_state(
            dom,
            source,
            cloned,
            &mut state.already_started_scripts,
        ),
        None => {},
    }
}

fn among(ids: &Vec<NodeId>, n: NodeId) -> (r: bool)
    ensures
        r == ids@.contains(n),
{
    let mut i: usize = 0;
    while i < ids.len()
        invariant
            i <= ids@.len(),
            forall|j: int| 0 <= j < i ==> ids@[j] != n,
        decreases ids@.len() - i,
    {
        if ids[i] == n {
            return true;
        }
        i = i + 1;
    }
    false
}

/// Goes on with a command after the tree engine's answer. The page's document
/// is the one after the call.
pub fn op_dom_resume(state: &mut RuntimeState, then: Then<String>, answer: DomAnswer) -> (r:
    DomStep)
    requires
        old(state).wf(),
    ensures
        final(state).wf(),
        r@ == resumed(*old(state), then@, answer),
        final(state).already_started_scripts@ == resumed_started(*old(state), then@, answer),
        *final(state) == (RuntimeState {
            activity_generation: resumed_activity(*old(state), then@, answer),
            already_started_scripts: final(state).already_started_scripts,
            ..*old(state)
        }),
{
    match then {
        Then::Mutate(cmd, arg1, arg2) => {
            let value: Option<String> = take_value(answer);
            let old_value: Option<&str> = match &value {
                Some(v) => Some(v.as_str()),
                None => None,
            };
            record_command(state, cmd.as_str(), arg1.as_str(), arg2.as_str(), old_value);
            let command: DomCommand = parse_command(cmd.as_str());
            proof {
                after_impact_reads_the_same(
                    *old(state),
                    command_impact(*old(state), cmd@, arg1@, arg2@, answered_value(answer)),
                    command,
                    arg1@,
                    arg2@,
                );
            }
            dispatch(state, command, arg1.as_str(), arg2.as_str())
        },
        Then::Title => match take_node(&answer) {
            Some(n) => Step::Ask(Call::TextContent(n), Then::TitleText),
            None => {
                let no_title: String = String::new();
                Step::Done(json_string(no_title.as_str()))
            },
        },
        Then::TitleText => {
            let text: String = take_text(answer);
            let parts: Vec<String> = split_words(text.as_str());
            Step::Done(json_string(join(&parts, " ").as_str()))
        },
        Then::LiveById(id) => match live_node(state, take_node(&answer)) {
            Some(n) => Step::Done(write_decimal(n)),
            None => Step::Ask(Call::QuerySelector(make_id_selector(id.as_str())), Then::ReplyNode),
        },
        Then::ReplyNode => Step::Done(write_id(take_node(&answer))),
        Then::ReplyNodes => Step::Done(write_ids(&take_nodes(answer))),
        Then::ReplyFlag => Step::Done(write_bool(take_flag(&answer))),
        Then::ReplyText => Step::Done(json_string(take_text(answer).as_str())),
        Then::ReplyValue => Step::Done(json_opt(&take_value(answer))),
        Then::ReplyNames => Step::Done(json_strings(&take_names(answer))),
        Then::ReplyContains(n) => {
            let ids: Vec<NodeId> = take_nodes(answer);
            Step::Done(write_bool(among(&ids, n)))
        },
        Then::ReplyTrue => Step::Done("true".to_owned()),
        Then::WriteId(n, name, value) => {
            let again: String = value.as_str().to_owned();
            Step::Ask(
                Call::SetAttribute(n, name, value),
                Then::IndexId(n, take_value(answer), Some(again)),
            )
        },
        Then::WriteIdNs(n, ns, qualified, value) => {
            let again: String = value.as_str().to_owned();
            Step::Ask(
                Call::SetAttributeNs(n, ns, qualified, value),
                Then::IndexId(n, take_value(answer), Some(again)),
            )
        },
        Then::DropIdNs(n, ns, local) => Step::Ask(
            Call::RemoveAttributeNs(n, ns, local),
            Then::IndexId(n, take_value(answer), None),
        ),
        Then::IndexId(n, before, after) => Step::Ask(
            Call::UpdateIdIndex(n, before, after),
            Then::ReplyTrue,
        ),
        Then::Appended(parent, child) => Step::Done(
            write_bool(parent_in(state, child) == Some(parent)),
        ),
        Then::Removed(child, had) => Step::Done(
            write_bool(had && held_by(state, child) && parent_in(state, child).is_none()),
        ),
        Then::Inserted(n, expected) => Step::Done(
            write_bool(expected.is_some() && parent_in(state, n) == expected),
        ),
        Then::Import(n, context, html, inert) => {
            if is_empty(html.as_str()) {
                Step::Done("true".to_owned())
            } else if inert {
                Step::Ask(Call::ImportHtml(n, context, html), Then::Imported(n))
            } else {
                Step::Ask(Call::ImportHtml(n, context, html), Then::ReplyTrue)
            }
        },
        Then::Imported(n) => {
            mark_children(state, n);
            Step::Done("true".to_owned())
        },
        Then::Cloned(n) => match take_node(&answer) {
            Some(c) => {
                carry_started(state, n, c);
                Step::Done(write_decimal(c))
            },
            None => Step::Done("-1".to_owned()),
        },
    }
}

/// The number of further calls that a continuation can ask for.
pub open spec fn calls_left(then: Then<Seq<char>>) -> nat {
    match then {
        Then::Mutate(cmd, arg1, arg2) => 3,
        Then::WriteId(n, name, value) => 2,
        Then::WriteIdNs(n, ns, qualified, value) => 2,
        Then::DropIdNs(n, ns, local) => 2,
        Then::IndexId(n, before, after) => 1,
        Then::Title => 1,
        Then::LiveById(id) => 1,
        Then::Import(n, context, html, inert) => 1,
        _ => 0,
    }
}

proof fn dispatched_calls_left(
    state: RuntimeState,
    cmd: DomCommand,
    arg1: Seq<char>,
    arg2: Seq<char>,
)
    ensures
        match dispatched(state, cmd, arg1, arg2) {
            Step::Ask(call, then) => calls_left(then) <= 2,
            Step::Done(reply) => true,
        },
{
}

/// Every answer brings a command nearer to its reply: what it may still ask
/// for grows less with each, so it ends after four calls at most.
pub proof fn commands_come_to_a_reply(
    state: RuntimeState,
    then: Then<Seq<char>>,
    answer: DomAnswer,
)
    ensures
        match resumed(state, then, answer) {
            Step::Ask(call, next) => calls_left(next) < calls_left(then),
            Step::Done(reply) => true,
        },
        calls_left(then) <= 3,
{
    match then {
        Then::Mutate(cmd, arg1, arg2) => {
            dispatched_calls_left(state, command_named(cmd), arg1, arg2);
        },
        _ => {},
    }
}

/// A command that does not change the tree leaves the page as it is.
pub proof fn reading_leaves_the_page_alone(
    state: RuntimeState,
    cmd: Seq<char>,
    arg1: Seq<char>,
    arg2: Seq<char>,
)
    requires
        !mutating(cmd),
    ensures
        command_state(state, cmd, arg1, arg2) == state,
{
}

proof fn started_under_children_grows(
    dom: DomTree,
    started: Set<NodeId>,
    ids: Seq<NodeId>,
    k: int,
    x: NodeId,
)
    requires
        0 <= k < ids.len(),
        scripts_under(dom, ids[k]).contains(x),
    ensures
        started_under_children(dom, started, ids).contains(x),
    decreases ids.len(),
{
    if k < ids.len() - 1 {
        assert(ids.drop_last()[k] == ids[k]);
        started_under_children_grows(dom, started, ids.drop_last(), k, x);
    }
}

/// Scripts that came in with assigned HTML are inert: once the HTML is
/// imported, every script under the node counts as started.
pub proof fn assigned_html_scripts_are_inert(
    state: RuntimeState,
    n: NodeId,
    answer: DomAnswer,
    k: int,
    x: NodeId,
)
    requires
        state.dom is Some,
        0 <= k < (state.dom->0).children(n).len(),
        scripts_under(state.dom->0, (state.dom->0).children(n)[k]).contains(x),
    ensures
        resumed_started(state, Then::Imported(n), answer).contains(x),
{
    started_under_children_grows(
        state.dom->0,
        state.already_started_scripts@,
        (state.dom->0).children(n),
        k,
        x,
    );
}

/// Scripts of a contextual fragment stay eligible: filling a fragment that way
/// starts no script at any step.
pub proof fn contextual_fragment_scripts_stay_eligible(
    state: RuntimeState,
    n: NodeId,
    context: Option<QualName<Seq<char>>>,
    html: Seq<char>,
    answer: DomAnswer,
)
    ensures
        resumed_started(state, Then::Import(n, context, html, false), answer)
            == state.already_started_scripts@,
        match resumed(state, Then::Import(n, context, html, false), answer) {
            Step::Ask(call, then) => then == Then::<Seq<char>>::ReplyTrue && resumed_started(
                state,
                then,
                answer,
            ) == state.already_started_scripts@,
            Step::Done(reply) => true,
        },
{
}

} // verus!
