//! What the commands of page script do to the document, by their names.

use vstd::prelude::*;

use crate::dom::command::{
    answered_value, command_impact, command_step, dispatched, id_selector, node_or_document,
    resumed, resumed_activity, split_qualified, Call, DomAnswer, Step, StepView, Then,
};
use crate::dom::impact::{impact, mutating, node_named, RenderMutationImpact};
use crate::dom::names::{command_named, DomCommand};
use crate::dom::order::{deep_enough_test_finds_every_ancestor, order, parent_step, path, root};
use crate::dom::read::{
    edge, element_name, elements_among, first_doctype, first_html, low_ids, reads_edge,
};
use crate::dom::tree::{DomTree, Node, NodeData, NodeId, QualName};
use crate::json::{
    json_ints_text, json_member_text, json_quoted, objects_tell_their_members, tells,
};
use crate::number::{decimal, decimal_round_trip, signed_decimal};
use crate::state::{after_impact, low_signed, RuntimeState};
use crate::text::{joined, raised, texts_are_cut_at_the_first, words};

verus! {

/// Every command answers to its own name, and to no other.
#[verifier::spinoff_prover]
#[verifier::rlimit(60)]
pub proof fn commands_answer_to_their_names(name: Seq<char>)
    ensures
        name == "document_node_id"@ <==> command_named(name) == DomCommand::DocumentNodeId,
        name == "document_title"@ <==> command_named(name) == DomCommand::DocumentTitle,
        name == "document_url"@ <==> command_named(name) == DomCommand::DocumentUrl,
        name == "document_referrer"@ <==> command_named(name) == DomCommand::DocumentReferrer,
        name == "document_encoding"@ <==> command_named(name) == DomCommand::DocumentEncoding,
        name == "document_element"@ <==> command_named(name) == DomCommand::DocumentElement,
        name == "document_doctype"@ <==> command_named(name) == DomCommand::DocumentDoctype,
        name == "get_element_by_id"@ <==> command_named(name) == DomCommand::GetElementById,
        name == "query_selector"@ <==> command_named(name) == DomCommand::QuerySelector,
        name == "query_selector_all"@ <==> command_named(name) == DomCommand::QuerySelectorAll,
        name == "query_selector_scoped"@ <==> command_named(name)
            == DomCommand::QuerySelectorScoped,
        name == "query_selector_all_scoped"@ <==> command_named(name)
            == DomCommand::QuerySelectorAllScoped,
        name == "matches_selector"@ <==> command_named(name) == DomCommand::MatchesSelector,
        name == "node_type"@ <==> command_named(name) == DomCommand::NodeType,
        name == "node_name"@ <==> command_named(name) == DomCommand::NodeName,
        name == "text_content"@ <==> command_named(name) == DomCommand::TextContent,
        name == "parent_node"@ <==> command_named(name) == DomCommand::ParentNode,
        name == "first_child"@ <==> command_named(name) == DomCommand::FirstChild,
        name == "last_child"@ <==> command_named(name) == DomCommand::LastChild,
        name == "next_sibling"@ <==> command_named(name) == DomCommand::NextSibling,
        name == "prev_sibling"@ <==> command_named(name) == DomCommand::PrevSibling,
        name == "next_in_subtree"@ <==> command_named(name) == DomCommand::NextInSubtree,
        name == "prev_in_subtree"@ <==> command_named(name) == DomCommand::PrevInSubtree,
        name == "next_after_subtree"@ <==> command_named(name) == DomCommand::NextAfterSubtree,
        name == "child_nodes"@ <==> command_named(name) == DomCommand::ChildNodes,
        name == "tag_name"@ <==> command_named(name) == DomCommand::TagName,
        name == "local_name"@ <==> command_named(name) == DomCommand::LocalName,
        name == "namespace_uri"@ <==> command_named(name) == DomCommand::NamespaceUri,
        name == "get_attribute"@ <==> command_named(name) == DomCommand::GetAttribute,
        name == "attribute_names"@ <==> command_named(name) == DomCommand::AttributeNames,
        name == "set_attribute"@ <==> command_named(name) == DomCommand::SetAttribute,
        name == "inner_html"@ <==> command_named(name) == DomCommand::InnerHtml,
        name == "outer_html"@ <==> command_named(name) == DomCommand::OuterHtml,
        name == "append_child"@ <==> command_named(name) == DomCommand::AppendChild,
        name == "remove_child"@ <==> command_named(name) == DomCommand::RemoveChild,
        name == "insert_before"@ <==> command_named(name) == DomCommand::InsertBefore,
        name == "remove_attribute"@ <==> command_named(name) == DomCommand::RemoveAttribute,
        name == "get_attribute_ns"@ <==> command_named(name) == DomCommand::GetAttributeNs,
        name == "set_attribute_ns"@ <==> command_named(name) == DomCommand::SetAttributeNs,
        name == "remove_attribute_ns"@ <==> command_named(name) == DomCommand::RemoveAttributeNs,
        name == "set_inner_html"@ <==> command_named(name) == DomCommand::SetInnerHtml,
        name == "set_inner_html_context"@ <==> command_named(name)
            == DomCommand::SetInnerHtmlContext,
        name == "set_fragment_html_executable"@ <==> command_named(name)
            == DomCommand::SetFragmentHtmlExecutable,
        name == "set_text_content"@ <==> command_named(name) == DomCommand::SetTextContent,
        name == "template_contents"@ <==> command_named(name) == DomCommand::TemplateContents,
        name == "create_document_fragment"@ <==> command_named(name)
            == DomCommand::CreateDocumentFragment,
        name == "clone_node"@ <==> command_named(name) == DomCommand::CloneNode,
        name == "create_element"@ <==> command_named(name) == DomCommand::CreateElement,
        name == "create_element_ns"@ <==> command_named(name) == DomCommand::CreateElementNs,
        name == "create_text_node"@ <==> command_named(name) == DomCommand::CreateTextNode,
        name == "create_comment_node"@ <==> command_named(name) == DomCommand::CreateCommentNode,
        name == "create_processing_instruction"@ <==> command_named(name)
            == DomCommand::CreateProcessingInstruction,
        name == "create_doctype"@ <==> command_named(name) == DomCommand::CreateDoctype,
        name == "pi_target"@ <==> command_named(name) == DomCommand::PiTarget,
        name == "doctype_name"@ <==> command_named(name) == DomCommand::DoctypeName,
        name == "doctype_public_id"@ <==> command_named(name) == DomCommand::DoctypePublicId,
        name == "element_children"@ <==> command_named(name) == DomCommand::ElementChildren,
        name == "has_child_nodes"@ <==> command_named(name) == DomCommand::HasChildNodes,
        name == "contains"@ <==> command_named(name) == DomCommand::Contains,
        name == "is_connected"@ <==> command_named(name) == DomCommand::IsConnected,
        name == "node_index"@ <==> command_named(name) == DomCommand::NodeIndex,
        name == "compare_order"@ <==> command_named(name) == DomCommand::CompareOrder,
        name == "node_root"@ <==> command_named(name) == DomCommand::NodeRoot,
        name == "is_inclusive_ancestor"@ <==> command_named(name)
            == DomCommand::IsInclusiveAncestor,
{
    reveal_strlit("document_node_id");
    assert("document_node_id"@.len() == 16 && "document_node_id"@[0] == 'd'
        && "document_node_id"@[9] == 'n');
    reveal_strlit("document_title");
    assert("document_title"@.len() == 14 && "document_title"@[10] == 'i');
    reveal_strlit("document_url");
    assert("document_url"@.len() == 12 && "document_url"@[0] == 'd' && "document_url"@[3] == 'u');
    reveal_strlit("document_referrer");
    assert("document_referrer"@.len() == 17 && "document_referrer"@[10] == 'e');
    reveal_strlit("document_encoding");
    assert("document_encoding"@.len() == 17 && "document_encoding"@[10] == 'n');
    reveal_strlit("document_element");
    assert("document_element"@.len() == 16 && "document_element"@[0] == 'd'
        && "document_element"@[9] == 'e');
    reveal_strlit("document_doctype");
    assert("document_doctype"@.len() == 16 && "document_doctype"@[0] == 'd'
        && "document_doctype"@[9] == 'd');
    reveal_strlit("get_element_by_id");
    assert("get_element_by_id"@.len() == 17 && "get_element_by_id"@[10] == 't');
    reveal_strlit("query_selector");
    assert("query_selector"@.len() == 14 && "query_selector"@[10] == 'c');
    reveal_strlit("query_selector_all");
    assert("query_selector_all"@.len() == 18 && "query_selector_all"@[0] == 'q');
    reveal_strlit("query_selector_scoped");
    assert("query_selector_scoped"@.len() == 21 && "query_selector_scoped"@[0] == 'q');
    reveal_strlit("query_selector_all_scoped");
    assert("query_selector_all_scoped"@.len() == 25);
    reveal_strlit("matches_selector");
    assert("matches_selector"@.len() == 16 && "matches_selector"@[0] == 'm'
        && "matches_selector"@[9] == 'e');
    reveal_strlit("node_type");
    assert("node_type"@.len() == 9 && "node_type"@[6] == 'y');
    reveal_strlit("node_name");
    assert("node_name"@.len() == 9 && "node_name"@[6] == 'a');
    reveal_strlit("text_content");
    assert("text_content"@.len() == 12 && "text_content"@[0] == 't' && "text_content"@[3] == 't');
    reveal_strlit("parent_node");
    assert("parent_node"@.len() == 11 && "parent_node"@[0] == 'p');
    reveal_strlit("first_child");
    assert("first_child"@.len() == 11 && "first_child"@[0] == 'f');
    reveal_strlit("last_child");
    assert("last_child"@.len() == 10 && "last_child"@[2] == 's');
    reveal_strlit("next_sibling");
    assert("next_sibling"@.len() == 12 && "next_sibling"@[0] == 'n' && "next_sibling"@[3] == 't');
    reveal_strlit("prev_sibling");
    assert("prev_sibling"@.len() == 12 && "prev_sibling"@[0] == 'p' && "prev_sibling"@[3] == 'v');
    reveal_strlit("next_in_subtree");
    assert("next_in_subtree"@.len() == 15 && "next_in_subtree"@[0] == 'n');
    reveal_strlit("prev_in_subtree");
    assert("prev_in_subtree"@.len() == 15 && "prev_in_subtree"@[0] == 'p');
    reveal_strlit("next_after_subtree");
    assert("next_after_subtree"@.len() == 18 && "next_after_subtree"@[0] == 'n');
    reveal_strlit("child_nodes");
    assert("child_nodes"@.len() == 11 && "child_nodes"@[0] == 'c');
    reveal_strlit("tag_name");
    assert("tag_name"@.len() == 8 && "tag_name"@[0] == 't');
    reveal_strlit("local_name");
    assert("local_name"@.len() == 10 && "local_name"@[2] == 'c');
    reveal_strlit("namespace_uri");
    assert("namespace_uri"@.len() == 13 && "namespace_uri"@[0] == 'n');
    reveal_strlit("get_attribute");
    assert("get_attribute"@.len() == 13 && "get_attribute"@[0] == 'g');
    reveal_strlit("attribute_names");
    assert("attribute_names"@.len() == 15 && "attribute_names"@[0] == 'a');
    reveal_strlit("set_attribute");
    assert("set_attribute"@.len() == 13 && "set_attribute"@[0] == 's');
    reveal_strlit("inner_html");
    assert("inner_html"@.len() == 10 && "inner_html"@[2] == 'n');
    reveal_strlit("outer_html");
    assert("outer_html"@.len() == 10 && "outer_html"@[2] == 't');
    reveal_strlit("append_child");
    assert("append_child"@.len() == 12 && "append_child"@[0] == 'a' && "append_child"@[3] == 'e');
    reveal_strlit("remove_child");
    assert("remove_child"@.len() == 12 && "remove_child"@[0] == 'r' && "remove_child"@[3] == 'o');
    reveal_strlit("insert_before");
    assert("insert_before"@.len() == 13 && "insert_before"@[0] == 'i');
    reveal_strlit("remove_attribute");
    assert("remove_attribute"@.len() == 16 && "remove_attribute"@[0] == 'r'
        && "remove_attribute"@[9] == 't');
    reveal_strlit("get_attribute_ns");
    assert("get_attribute_ns"@.len() == 16 && "get_attribute_ns"@[0] == 'g'
        && "get_attribute_ns"@[9] == 'b');
    reveal_strlit("set_attribute_ns");
    assert("set_attribute_ns"@.len() == 16 && "set_attribute_ns"@[0] == 's'
        && "set_attribute_ns"@[9] == 'b');
    reveal_strlit("remove_attribute_ns");
    assert("remove_attribute_ns"@.len() == 19 && "remove_attribute_ns"@[0] == 'r');
    reveal_strlit("set_inner_html");
    assert("set_inner_html"@.len() == 14 && "set_inner_html"@[10] == 'h');
    reveal_strlit("set_inner_html_context");
    assert("set_inner_html_context"@.len() == 22);
    reveal_strlit("set_fragment_html_executable");
    assert("set_fragment_html_executable"@.len() == 28);
    reveal_strlit("set_text_content");
    assert("set_text_content"@.len() == 16 && "set_text_content"@[0] == 's'
        && "set_text_content"@[9] == 'c');
    reveal_strlit("template_contents");
    assert("template_contents"@.len() == 17 && "template_contents"@[10] == 'o');
    reveal_strlit("create_document_fragment");
    assert("create_document_fragment"@.len() == 24);
    reveal_strlit("clone_node");
    assert("clone_node"@.len() == 10 && "clone_node"@[2] == 'o');
    reveal_strlit("create_element");
    assert("create_element"@.len() == 14 && "create_element"@[10] == 'm');
    reveal_strlit("create_element_ns");
    assert("create_element_ns"@.len() == 17 && "create_element_ns"@[10] == 'm');
    reveal_strlit("create_text_node");
    assert("create_text_node"@.len() == 16 && "create_text_node"@[0] == 'c'
        && "create_text_node"@[9] == 'x');
    reveal_strlit("create_comment_node");
    assert("create_comment_node"@.len() == 19 && "create_comment_node"@[0] == 'c');
    reveal_strlit("create_processing_instruction");
    assert("create_processing_instruction"@.len() == 29);
    reveal_strlit("create_doctype");
    assert("create_doctype"@.len() == 14 && "create_doctype"@[10] == 't');
    reveal_strlit("pi_target");
    assert("pi_target"@.len() == 9 && "pi_target"@[6] == 'g');
    reveal_strlit("doctype_name");
    assert("doctype_name"@.len() == 12 && "doctype_name"@[0] == 'd' && "doctype_name"@[3] == 't');
    reveal_strlit("doctype_public_id");
    assert("doctype_public_id"@.len() == 17 && "doctype_public_id"@[10] == 'b');
    reveal_strlit("element_children");
    assert("element_children"@.len() == 16 && "element_children"@[0] == 'e'
        && "element_children"@[9] == 'h');
    reveal_strlit("has_child_nodes");
    assert("has_child_nodes"@.len() == 15 && "has_child_nodes"@[0] == 'h');
    reveal_strlit("contains");
    assert("contains"@.len() == 8 && "contains"@[0] == 'c');
    reveal_strlit("is_connected");
    assert("is_connected"@.len() == 12 && "is_connected"@[0] == 'i' && "is_connected"@[3] == 'c');
    reveal_strlit("node_index");
    assert("node_index"@.len() == 10 && "node_index"@[2] == 'd');
    reveal_strlit("compare_order");
    assert("compare_order"@.len() == 13 && "compare_order"@[0] == 'c');
    reveal_strlit("node_root");
    assert("node_root"@.len() == 9 && "node_root"@[6] == 'o');
    reveal_strlit("is_inclusive_ancestor");
    assert("is_inclusive_ancestor"@.len() == 21 && "is_inclusive_ancestor"@[0] == 'i');
}

proof fn numbers_name_their_nodes(n: NodeId)
    requires
        n <= u32::MAX,
    ensures
        node_named(decimal(n as nat)) == Some(n),
        node_or_document(decimal(n as nat)) == n,
{
    decimal_round_trip(n as nat, u32::MAX as nat);
}

/// A command that reads no edge and writes no attribute is carried out at
/// once.
proof fn plain_commands_are_dispatched(
    state: RuntimeState,
    cmd: Seq<char>,
    arg1: Seq<char>,
    arg2: Seq<char>,
)
    requires
        !reads_edge(command_named(cmd)),
        !(command_named(cmd) is SetAttribute),
        !(command_named(cmd) is SetAttributeNs),
        !(command_named(cmd) is RemoveAttribute),
        !(command_named(cmd) is RemoveAttributeNs),
    ensures
        command_step(state, cmd, arg1, arg2) == dispatched(state, command_named(cmd), arg1, arg2),
{
    commands_answer_to_their_names(cmd);
}

/// What the tree engine makes of a call that moves a node: `after` is a tree
/// that it may leave.
pub open spec fn carries_out(call: Call<Seq<char>, Seq<NodeId>>, after: DomTree) -> bool {
    match call {
        Call::InsertBefore(reference, new_node) => {
            &&& after.parent(new_node) == after.parent(reference)
            &&& edge(after.node(new_node), DomCommand::NextSibling) == Some(reference)
        },
        Call::AppendChild(parent, child) => {
            &&& after.parent(child) == Some(parent)
            &&& edge(after.node(parent), DomCommand::LastChild) == Some(child)
        },
        Call::RemoveChild(child) => after.node(child) is Some && after.parent(child) is None,
        _ => true,
    }
}

/// `insert_before` with `n` and `m` places `n` right before `m`: the engine is
/// asked for just that, and once it has done so `n` stands under the parent of
/// `m`, `m` is its next sibling, and the reply is `true`. Where `n` does not
/// come to stand under that parent the reply is `false`.
pub proof fn insert_before_places_the_first_before_the_second(
    state: RuntimeState,
    n: NodeId,
    m: NodeId,
    after: DomTree,
    answer: DomAnswer,
)
    requires
        state.dom is Some,
        n <= u32::MAX,
        m <= u32::MAX,
    ensures
        match command_step(
            state,
            "insert_before"@,
            decimal(n as nat),
            decimal(m as nat),
        ) {
            Step::Ask(call, then) => {
                let page: RuntimeState = RuntimeState { dom: Some(after), ..state };
                let parent: Option<NodeId> = (state.dom->0).parent(m);
                &&& call == Call::<Seq<char>, Seq<NodeId>>::InsertBefore(m, n)
                &&& carries_out(call, after) && after.parent(m) == parent && parent is Some ==> {
                    &&& after.parent(n) == parent
                    &&& edge(after.node(n), DomCommand::NextSibling) == Some(m)
                    &&& resumed(page, then, answer) == StepView::Done("true"@)
                }
                &&& after.parent(n) != parent || parent is None ==> resumed(page, then, answer)
                    == StepView::Done("false"@)
            },
            Step::Done(reply) => false,
        },
{
    commands_answer_to_their_names("insert_before"@);
    numbers_name_their_nodes(n);
    numbers_name_their_nodes(m);
    plain_commands_are_dispatched(
        state,
        "insert_before"@,
        decimal(n as nat),
        decimal(m as nat),
    );
}

/// `append_child` with `p` and `c` makes `c` the last child of `p`: the engine
/// is asked for just that, and the reply tells whether `c` stands under `p`
/// then.
pub proof fn append_child_puts_the_second_last_under_the_first(
    state: RuntimeState,
    p: NodeId,
    c: NodeId,
    after: DomTree,
    answer: DomAnswer,
)
    requires
        state.dom is Some,
        p <= u32::MAX,
        c <= u32::MAX,
    ensures
        match command_step(state, "append_child"@, decimal(p as nat), decimal(c as nat)) {
            Step::Ask(call, then) => {
                let page: RuntimeState = RuntimeState { dom: Some(after), ..state };
                &&& call == Call::<Seq<char>, Seq<NodeId>>::AppendChild(p, c)
                &&& carries_out(call, after) ==> {
                    &&& after.parent(c) == Some(p)
                    &&& edge(after.node(p), DomCommand::LastChild) == Some(c)
                    &&& resumed(page, then, answer) == StepView::Done("true"@)
                }
                &&& after.parent(c) != Some(p) ==> resumed(page, then, answer) == StepView::Done(
                    "false"@,
                )
            },
            Step::Done(reply) => false,
        },
{
    commands_answer_to_their_names("append_child"@);
    numbers_name_their_nodes(p);
    numbers_name_their_nodes(c);
    plain_commands_are_dispatched(state, "append_child"@, decimal(p as nat), decimal(c as nat));
}

/// `remove_child` takes the named node out of its parent. The reply is `true`
/// where it had one, is still there and has none any more; else `false`.
pub proof fn remove_child_takes_the_node_out(
    state: RuntimeState,
    c: NodeId,
    arg2: Seq<char>,
    after: DomTree,
    answer: DomAnswer,
)
    requires
        state.dom is Some,
        c <= u32::MAX,
    ensures
        match command_step(state, "remove_child"@, decimal(c as nat), arg2) {
            Step::Ask(call, then) => {
                let page: RuntimeState = RuntimeState { dom: Some(after), ..state };
                let had: bool = (state.dom->0).parent(c) is Some;
                &&& call == Call::<Seq<char>, Seq<NodeId>>::RemoveChild(c)
                &&& carries_out(call, after) && had ==> after.parent(c) is None && resumed(
                    page,
                    then,
                    answer,
                ) == StepView::Done("true"@)
                &&& !had || after.parent(c) is Some || after.node(c) is None ==> resumed(
                    page,
                    then,
                    answer,
                ) == StepView::Done("false"@)
            },
            Step::Done(reply) => false,
        },
{
    commands_answer_to_their_names("remove_child"@);
    numbers_name_their_nodes(c);
    plain_commands_are_dispatched(state, "remove_child"@, decimal(c as nat), arg2);
}

/// A command that moves a node and does not name one is refused.
pub proof fn moves_of_no_node_are_refused(
    state: RuntimeState,
    cmd: Seq<char>,
    arg1: Seq<char>,
    arg2: Seq<char>,
)
    requires
        state.dom is Some,
        cmd == "insert_before"@ || cmd == "append_child"@ || cmd == "remove_child"@ || cmd
            == "set_inner_html"@ || cmd == "set_inner_html_context"@ || cmd
            == "set_fragment_html_executable"@,
        node_named(arg1) is None || (node_named(arg2) is None && (cmd == "insert_before"@ || cmd
            == "append_child"@)),
    ensures
        command_step(state, cmd, arg1, arg2) == StepView::Done("false"@),
{
    commands_answer_to_their_names(cmd);
    plain_commands_are_dispatched(state, cmd, arg1, arg2);
}

/// Assigning HTML to a node takes out its children, all of them and no others,
/// then has the HTML parsed in the context of the node itself and put into it,
/// and starts none of its scripts. Empty HTML only takes the children out. The
/// document itself is never emptied.
pub proof fn assigned_html_replaces_the_children(
    state: RuntimeState,
    n: NodeId,
    html: Seq<char>,
    answer: DomAnswer,
)
    requires
        state.dom is Some,
        n <= u32::MAX,
    ensures
        n == 0 ==> command_step(state, "set_inner_html"@, decimal(n as nat), html)
            == StepView::Done("false"@),
        n > 0 ==> match command_step(state, "set_inner_html"@, decimal(n as nat), html) {
            Step::Ask(call, then) => {
                &&& call == Call::<Seq<char>, Seq<NodeId>>::Detach((state.dom->0).children(n))
                &&& html.len() == 0 ==> resumed(state, then, answer) == StepView::Done("true"@)
                &&& html.len() > 0 ==> match resumed(state, then, answer) {
                    Step::Ask(call, next) => {
                        &&& call == Call::<Seq<char>, Seq<NodeId>>::ImportHtml(
                            n,
                            element_name((state.dom->0).node(n)),
                            html,
                        )
                        &&& next == Then::<Seq<char>>::Imported(n)
                        &&& resumed(state, next, answer) == StepView::Done("true"@)
                    },
                    Step::Done(reply) => false,
                }
            },
            Step::Done(reply) => false,
        },
{
    commands_answer_to_their_names("set_inner_html"@);
    numbers_name_their_nodes(n);
    plain_commands_are_dispatched(state, "set_inner_html"@, decimal(n as nat), html);
}

/// HTML with a context of its own, given as namespace, name and text with NULs
/// between them, is put into the node in that context. Its scripts are started
/// by nobody where the HTML is assigned, and stay eligible where a fragment is
/// made of it.
pub proof fn html_is_read_in_its_context(
    state: RuntimeState,
    n: NodeId,
    ns: Seq<char>,
    local: Seq<char>,
    html: Seq<char>,
    answer: DomAnswer,
    executable: bool,
)
    requires
        state.dom is Some,
        0 < n <= u32::MAX,
        !ns.contains('\0'),
        !local.contains('\0'),
        !local.contains(':'),
        local.len() > 0,
        html.len() > 0,
    ensures
        ({
            let cmd: Seq<char> = if executable {
                "set_fragment_html_executable"@
            } else {
                "set_inner_html_context"@
            };
            let arg2: Seq<char> = ns + seq!['\0'] + (local + seq!['\0'] + html);
            match command_step(state, cmd, decimal(n as nat), arg2) {
                Step::Ask(call, then) => {
                    &&& call == Call::<Seq<char>, Seq<NodeId>>::Detach((state.dom->0).children(n))
                    &&& match resumed(state, then, answer) {
                        Step::Ask(call, next) => {
                            &&& call == Call::<Seq<char>, Seq<NodeId>>::ImportHtml(
                                n,
                                Some(QualName { prefix: None, ns, local }),
                                html,
                            )
                            &&& executable ==> next == Then::<Seq<char>>::ReplyTrue
                            &&& !executable ==> next == Then::<Seq<char>>::Imported(n)
                            &&& resumed(state, next, answer) == StepView::Done("true"@)
                        },
                        Step::Done(reply) => false,
                    }
                },
                Step::Done(reply) => false,
            }
        }),
{
    let cmd: Seq<char> = if executable {
        "set_fragment_html_executable"@
    } else {
        "set_inner_html_context"@
    };
    let arg2: Seq<char> = ns + seq!['\0'] + (local + seq!['\0'] + html);
    commands_answer_to_their_names(cmd);
    numbers_name_their_nodes(n);
    plain_commands_are_dispatched(state, cmd, decimal(n as nat), arg2);
    texts_are_cut_at_the_first(ns, '\0', local + seq!['\0'] + html);
    texts_are_cut_at_the_first(local, '\0', html);
    texts_are_cut_at_the_first(local, ':', html);
}

/// The text of a text, comment or processing instruction node is replaced by
/// the given one; any other node is left alone. The reply is `true` either way.
pub proof fn text_content_replaces_character_data(
    state: RuntimeState,
    n: NodeId,
    text: Seq<char>,
    answer: DomAnswer,
)
    requires
        state.dom is Some,
        n <= u32::MAX,
    ensures
        ({
            let data: bool = match (state.dom->0).node(n) {
                Some(node) => node.data is Text || node.data is Comment
                    || node.data is ProcessingInstruction,
                None => false,
            };
            match command_step(state, "set_text_content"@, decimal(n as nat), text) {
                Step::Ask(call, then) => {
                    &&& data
                    &&& call == Call::<Seq<char>, Seq<NodeId>>::SetCharacterData(n, text)
                    &&& resumed(state, then, answer) == StepView::Done("true"@)
                },
                Step::Done(reply) => !data && reply == "true"@,
            }
        }),
{
    commands_answer_to_their_names("set_text_content"@);
    numbers_name_their_nodes(n);
    plain_commands_are_dispatched(state, "set_text_content"@, decimal(n as nat), text);
}

/// `set_attribute` with a name and a value, a NUL between them, first reads the
/// attribute, then writes that value under that name on the named node. An
/// `id` is also moved in the index, from the old value to the new.
pub proof fn attributes_are_written_as_given(
    state: RuntimeState,
    n: NodeId,
    name: Seq<char>,
    value: Seq<char>,
    old: DomAnswer,
    answer: DomAnswer,
)
    requires
        state.dom is Some,
        n <= u32::MAX,
        !name.contains('\0'),
    ensures
        match command_step(
            state,
            "set_attribute"@,
            decimal(n as nat),
            name + seq!['\0'] + value,
        ) {
            Step::Ask(probe, then) => {
                &&& probe == Call::<Seq<char>, Seq<NodeId>>::GetAttribute(n, name)
                &&& name != "id"@ ==> match resumed(state, then, old) {
                    Step::Ask(call, next) => {
                        &&& call == Call::<Seq<char>, Seq<NodeId>>::SetAttribute(n, name, value)
                        &&& resumed(state, next, answer) == StepView::Done("true"@)
                    },
                    Step::Done(reply) => false,
                }
                &&& name == "id"@ ==> match resumed(state, then, old) {
                    Step::Ask(call, next) => {
                        &&& call == Call::<Seq<char>, Seq<NodeId>>::GetAttribute(n, "id"@)
                        &&& match resumed(state, next, old) {
                            Step::Ask(call, next) => {
                                &&& call == Call::<Seq<char>, Seq<NodeId>>::SetAttribute(
                                    n,
                                    "id"@,
                                    value,
                                )
                                &&& match resumed(state, next, answer) {
                                    Step::Ask(call, next) => {
                                        &&& call == Call::<Seq<char>, Seq<NodeId>>::UpdateIdIndex(
                                            n,
                                            answered_value(old),
                                            Some(value),
                                        )
                                        &&& resumed(state, next, answer) == StepView::Done("true"@)
                                    },
                                    Step::Done(reply) => false,
                                }
                            },
                            Step::Done(reply) => false,
                        }
                    },
                    Step::Done(reply) => false,
                }
            },
            Step::Done(reply) => false,
        },
{
    commands_answer_to_their_names("set_attribute"@);
    numbers_name_their_nodes(n);
    texts_are_cut_at_the_first(name, '\0', value);
}

/// `set_attribute_ns` with a namespace, a qualified name and a value, NULs
/// between them, writes that value under that name in that namespace. An `id`
/// in no namespace is also moved in the index.
pub proof fn attributes_are_written_in_their_namespace(
    state: RuntimeState,
    n: NodeId,
    ns: Seq<char>,
    name: Seq<char>,
    value: Seq<char>,
    old: DomAnswer,
    answer: DomAnswer,
)
    requires
        state.dom is Some,
        n <= u32::MAX,
        !ns.contains('\0'),
        !name.contains('\0'),
        !name.contains(':'),
        name.len() > 0,
    ensures
        match command_step(
            state,
            "set_attribute_ns"@,
            decimal(n as nat),
            ns + seq!['\0'] + (name + seq!['\0'] + value),
        ) {
            Step::Ask(probe, then) => {
                &&& probe == Call::<Seq<char>, Seq<NodeId>>::GetAttributeNs(n, ns, name)
                &&& ns.len() > 0 || name != "id"@ ==> match resumed(state, then, old) {
                    Step::Ask(call, next) => {
                        &&& call == Call::<Seq<char>, Seq<NodeId>>::SetAttributeNs(
                            n,
                            ns,
                            name,
                            value,
                        )
                        &&& resumed(state, next, answer) == StepView::Done("true"@)
                    },
                    Step::Done(reply) => false,
                }
                &&& ns.len() == 0 && name == "id"@ ==> match resumed(state, then, old) {
                    Step::Ask(call, next) => {
                        &&& call == Call::<Seq<char>, Seq<NodeId>>::GetAttribute(n, "id"@)
                        &&& match resumed(state, next, old) {
                            Step::Ask(call, next) => {
                                &&& call == Call::<Seq<char>, Seq<NodeId>>::SetAttributeNs(
                                    n,
                                    ns,
                                    name,
                                    value,
                                )
                                &&& match resumed(state, next, answer) {
                                    Step::Ask(call, next) => {
                                        &&& call == Call::<Seq<char>, Seq<NodeId>>::UpdateIdIndex(
                                            n,
                                            answered_value(old),
                                            Some(value),
                                        )
                                        &&& resumed(state, next, answer) == StepView::Done("true"@)
                                    },
                                    Step::Done(reply) => false,
                                }
                            },
                            Step::Done(reply) => false,
                        }
                    },
                    Step::Done(reply) => false,
                }
            },
            Step::Done(reply) => false,
        },
{
    commands_answer_to_their_names("set_attribute_ns"@);
    numbers_name_their_nodes(n);
    texts_are_cut_at_the_first(ns, '\0', name + seq!['\0'] + value);
    texts_are_cut_at_the_first(name, '\0', value);
    texts_are_cut_at_the_first(name, ':', value);
}

/// `remove_attribute` takes the named attribute off the named element, and
/// leaves a node that is no element alone.
pub proof fn attributes_are_removed_by_name(
    state: RuntimeState,
    n: NodeId,
    name: Seq<char>,
    old: DomAnswer,
    answer: DomAnswer,
)
    requires
        state.dom is Some,
        n <= u32::MAX,
    ensures
        match command_step(state, "remove_attribute"@, decimal(n as nat), name) {
            Step::Ask(probe, then) => {
                &&& probe == Call::<Seq<char>, Seq<NodeId>>::GetAttribute(n, name)
                &&& match resumed(state, then, old) {
                    Step::Ask(call, next) => {
                        &&& element_name((state.dom->0).node(n)) is Some
                        &&& call == Call::<Seq<char>, Seq<NodeId>>::RemoveAttribute(n, name)
                        &&& resumed(state, next, answer) == StepView::Done("true"@)
                    },
                    Step::Done(reply) => reply == "true"@ && element_name(
                        (state.dom->0).node(n),
                    ) is None,
                }
            },
            Step::Done(reply) => false,
        },
{
    commands_answer_to_their_names("remove_attribute"@);
    numbers_name_their_nodes(n);
}

/// `remove_attribute_ns` takes the attribute with that name off in that
/// namespace. An `id` in no namespace also leaves the index.
pub proof fn attributes_are_removed_in_their_namespace(
    state: RuntimeState,
    n: NodeId,
    ns: Seq<char>,
    name: Seq<char>,
    old: DomAnswer,
    answer: DomAnswer,
)
    requires
        state.dom is Some,
        n <= u32::MAX,
        !ns.contains('\0'),
    ensures
        match command_step(
            state,
            "remove_attribute_ns"@,
            decimal(n as nat),
            ns + seq!['\0'] + name,
        ) {
            Step::Ask(probe, then) => {
                &&& probe == Call::<Seq<char>, Seq<NodeId>>::GetAttributeNs(n, ns, name)
                &&& match resumed(state, then, old) {
                    Step::Ask(call, next) => if ns.len() == 0 && name == "id"@ {
                        &&& call == Call::<Seq<char>, Seq<NodeId>>::GetAttribute(n, "id"@)
                        &&& match resumed(state, next, old) {
                            Step::Ask(call, next) => {
                                &&& call == Call::<Seq<char>, Seq<NodeId>>::RemoveAttributeNs(
                                    n,
                                    ns,
                                    name,
                                )
                                &&& match resumed(state, next, answer) {
                                    Step::Ask(call, next) => {
                                        &&& call == Call::<Seq<char>, Seq<NodeId>>::UpdateIdIndex(
                                            n,
                                            answered_value(old),
                                            None,
                                        )
                                        &&& resumed(state, next, answer) == StepView::Done("true"@)
                                    },
                                    Step::Done(reply) => false,
                                }
                            },
                            Step::Done(reply) => false,
                        }
                    } else {
                        &&& call == Call::<Seq<char>, Seq<NodeId>>::RemoveAttributeNs(n, ns, name)
                        &&& resumed(state, next, answer) == StepView::Done("true"@)
                    },
                    Step::Done(reply) => false,
                }
            },
            Step::Done(reply) => false,
        },
{
    commands_answer_to_their_names("remove_attribute_ns"@);
    numbers_name_their_nodes(n);
    texts_are_cut_at_the_first(ns, '\0', name);
}

/// The commands that create a node ask for just that node, and reply with the
/// identity that it got, `-1` where it got none.
pub proof fn nodes_are_created_as_named(
    state: RuntimeState,
    cmd: Seq<char>,
    arg1: Seq<char>,
    arg2: Seq<char>,
    made: Option<NodeId>,
)
    requires
        state.dom is Some,
        cmd == "create_element"@ || cmd == "create_text_node"@ || cmd == "create_comment_node"@
            || cmd == "create_processing_instruction"@ || cmd == "create_doctype"@ || cmd
            == "create_document_fragment"@,
    ensures
        match command_step(state, cmd, arg1, arg2) {
            Step::Ask(Call::Create(data), then) => {
                &&& cmd == "create_element"@ ==> data == (NodeData::Element {
                    name: QualName {
                        prefix: None,
                        ns: "http://www.w3.org/1999/xhtml"@,
                        local: arg1,
                    },
                    template_contents: None,
                })
                &&& cmd == "create_text_node"@ ==> data == (NodeData::Text { contents: arg1 })
                &&& cmd == "create_comment_node"@ ==> data == (NodeData::Comment {
                    contents: arg1,
                })
                &&& cmd == "create_processing_instruction"@ ==> data == (
                NodeData::ProcessingInstruction { target: arg1, data: arg2 })
                &&& cmd == "create_doctype"@ ==> data == (NodeData::Doctype {
                    name: arg1,
                    public_id: arg2,
                    system_id: Seq::empty(),
                })
                &&& cmd == "create_document_fragment"@ ==> data == NodeData::<Seq<char>>::Document
                &&& resumed(state, then, DomAnswer::Node(made)) == StepView::Done(
                    match made {
                        Some(id) => decimal(id as nat),
                        None => "-1"@,
                    },
                )
            },
            _ => false,
        },
{
    commands_answer_to_their_names(cmd);
    plain_commands_are_dispatched(state, cmd, arg1, arg2);
}

/// An element with a namespace is created under its local name, with the
/// prefix where the name has one; a name that is empty, or empty on one side
/// of its colon, creates nothing.
pub proof fn elements_are_created_in_their_namespace(
    state: RuntimeState,
    ns: Seq<char>,
    prefix: Seq<char>,
    local: Seq<char>,
    arg2: Seq<char>,
)
    requires
        state.dom is Some,
        !ns.contains('\0'),
        !prefix.contains(':'),
    ensures
        ({
            let plain: StepView = command_step(
                state,
                "create_element_ns"@,
                ns + seq!['\0'] + prefix,
                arg2,
            );
            let split: StepView = command_step(
                state,
                "create_element_ns"@,
                ns + seq!['\0'] + (prefix + seq![':'] + local),
                arg2,
            );
            &&& prefix.len() > 0 ==> match plain {
                Step::Ask(call, then) => {
                    &&& call == Call::<Seq<char>, Seq<NodeId>>::Create(
                        NodeData::Element {
                            name: QualName { prefix: None, ns, local: prefix },
                            template_contents: None,
                        },
                    )
                    &&& then == Then::<Seq<char>>::ReplyNode
                },
                Step::Done(reply) => false,
            }
            &&& prefix.len() == 0 ==> plain == StepView::Done("-1"@)
            &&& prefix.len() > 0 && local.len() > 0 ==> match split {
                Step::Ask(call, then) => {
                    &&& call == Call::<Seq<char>, Seq<NodeId>>::Create(
                        NodeData::Element {
                            name: QualName { prefix: Some(prefix), ns, local },
                            template_contents: None,
                        },
                    )
                    &&& then == Then::<Seq<char>>::ReplyNode
                },
                Step::Done(reply) => false,
            }
            &&& prefix.len() == 0 || local.len() == 0 ==> split == StepView::Done("-1"@)
        }),
{
    commands_answer_to_their_names("create_element_ns"@);
    let qualified: Seq<char> = prefix + seq![':'] + local;
    plain_commands_are_dispatched(
        state,
        "create_element_ns"@,
        ns + seq!['\0'] + prefix,
        arg2,
    );
    plain_commands_are_dispatched(
        state,
        "create_element_ns"@,
        ns + seq!['\0'] + qualified,
        arg2,
    );
    texts_are_cut_at_the_first(ns, '\0', prefix);
    texts_are_cut_at_the_first(ns, '\0', qualified);
    texts_are_cut_at_the_first(prefix, ':', local);
}

/// A node is cloned with what is under it exactly where the second argument
/// says `true`, and the reply is the identity of the clone.
pub proof fn clones_are_deep_where_asked(
    state: RuntimeState,
    n: NodeId,
    deep: Seq<char>,
    made: Option<NodeId>,
)
    requires
        state.dom is Some,
        n <= u32::MAX,
    ensures
        match command_step(state, "clone_node"@, decimal(n as nat), deep) {
            Step::Ask(call, then) => {
                &&& deep == "true"@ ==> call == Call::<Seq<char>, Seq<NodeId>>::CloneNode(n, true)
                &&& deep != "true"@ ==> call == Call::<Seq<char>, Seq<NodeId>>::CloneNode(n, false)
                &&& then == Then::<Seq<char>>::Cloned(n)
                &&& resumed(state, then, DomAnswer::Node(made)) == StepView::Done(
                    match made {
                        Some(id) => decimal(id as nat),
                        None => "-1"@,
                    },
                )
            },
            Step::Done(reply) => false,
        },
{
    commands_answer_to_their_names("clone_node"@);
    numbers_name_their_nodes(n);
    plain_commands_are_dispatched(state, "clone_node"@, decimal(n as nat), deep);
}

/// The queries ask the engine for what they name: a selector of the whole
/// document, or of what is under a node, or whether a node matches one. They
/// reply with what it found.
pub proof fn queries_ask_for_what_they_name(
    state: RuntimeState,
    n: NodeId,
    selector: Seq<char>,
    arg2: Seq<char>,
    found: Option<NodeId>,
    flag: bool,
)
    requires
        state.dom is Some,
        n <= u32::MAX,
    ensures
        command_step(state, "query_selector"@, selector, arg2) == StepView::Ask(
            Call::QuerySelector(selector),
            Then::ReplyNode,
        ),
        command_step(state, "query_selector_all"@, selector, arg2) == StepView::Ask(
            Call::QuerySelectorAll(selector),
            Then::ReplyNodes,
        ),
        command_step(state, "query_selector_scoped"@, decimal(n as nat), selector)
            == StepView::Ask(Call::QuerySelectorFrom(n, selector), Then::ReplyNode),
        command_step(state, "query_selector_all_scoped"@, decimal(n as nat), selector)
            == StepView::Ask(Call::QuerySelectorAllFrom(n, selector), Then::ReplyNodes),
        command_step(state, "matches_selector"@, decimal(n as nat), selector) == StepView::Ask(
            Call::MatchesSelector(n, selector),
            Then::ReplyFlag,
        ),
        resumed(state, Then::ReplyNode, DomAnswer::Node(found)) == StepView::Done(
            match found {
                Some(id) => decimal(id as nat),
                None => "-1"@,
            },
        ),
        resumed(state, Then::ReplyFlag, DomAnswer::Flag(flag)) == StepView::Done(
            if flag {
                "true"@
            } else {
                "false"@
            },
        ),
{
    commands_answer_to_their_names("query_selector"@);
    commands_answer_to_their_names("query_selector_all"@);
    commands_answer_to_their_names("query_selector_scoped"@);
    commands_answer_to_their_names("query_selector_all_scoped"@);
    commands_answer_to_their_names("matches_selector"@);
    numbers_name_their_nodes(n);
    plain_commands_are_dispatched(state, "query_selector"@, selector, arg2);
    plain_commands_are_dispatched(state, "query_selector_all"@, selector, arg2);
    plain_commands_are_dispatched(
        state,
        "query_selector_scoped"@,
        decimal(n as nat),
        selector,
    );
    plain_commands_are_dispatched(
        state,
        "query_selector_all_scoped"@,
        decimal(n as nat),
        selector,
    );
    plain_commands_are_dispatched(state, "matches_selector"@, decimal(n as nat), selector);
}

/// The reads of a node's text and HTML, of its attributes and of its
/// neighbours in document order are those of that node, and the reply is what
/// the engine gave.
pub proof fn reads_are_of_the_named_node(
    state: RuntimeState,
    n: NodeId,
    m: NodeId,
    name: Seq<char>,
    text: String,
    nodes: Vec<NodeId>,
)
    requires
        state.dom is Some,
        n <= u32::MAX,
        m <= u32::MAX,
    ensures
        ({
            let a: Seq<char> = decimal(n as nat);
            let b: Seq<char> = decimal(m as nat);
            &&& command_step(state, "text_content"@, a, name) == StepView::Ask(
                Call::TextContent(n),
                Then::ReplyText,
            )
            &&& command_step(state, "inner_html"@, a, name) == StepView::Ask(
                Call::InnerHtml(n),
                Then::ReplyText,
            )
            &&& command_step(state, "outer_html"@, a, name) == StepView::Ask(
                Call::OuterHtml(n),
                Then::ReplyText,
            )
            &&& command_step(state, "get_attribute"@, a, name) == StepView::Ask(
                Call::GetAttribute(n, name),
                Then::ReplyValue,
            )
            &&& command_step(state, "attribute_names"@, a, name) == StepView::Ask(
                Call::AttributeNames(n),
                Then::ReplyNames,
            )
            &&& command_step(state, "template_contents"@, a, name) == StepView::Ask(
                Call::TemplateContents(n),
                Then::ReplyNode,
            )
            &&& command_step(state, "next_in_subtree"@, a, b) == StepView::Ask(
                Call::NextInSubtree(n, m),
                Then::ReplyNode,
            )
            &&& command_step(state, "prev_in_subtree"@, a, b) == StepView::Ask(
                Call::PrevInSubtree(n, m),
                Then::ReplyNode,
            )
            &&& command_step(state, "next_after_subtree"@, a, b) == StepView::Ask(
                Call::NextAfterSubtree(n, m),
                Then::ReplyNode,
            )
            &&& command_step(state, "contains"@, a, b) == StepView::Ask(
                Call::Descendants(n),
                Then::ReplyContains(m),
            )
            &&& resumed(state, Then::ReplyText, DomAnswer::Text(text)) == StepView::Done(
                json_quoted(text@),
            )
            &&& resumed(state, Then::ReplyValue, DomAnswer::Value(Some(text))) == StepView::Done(
                json_quoted(text@),
            )
            &&& resumed(state, Then::ReplyValue, DomAnswer::Value(None)) == StepView::Done("null"@)
            &&& resumed(state, Then::ReplyContains(m), DomAnswer::Nodes(nodes)) == StepView::Done(
                if nodes@.contains(m) {
                    "true"@
                } else {
                    "false"@
                },
            )
        }),
{
    let a: Seq<char> = decimal(n as nat);
    let b: Seq<char> = decimal(m as nat);
    numbers_name_their_nodes(n);
    numbers_name_their_nodes(m);
    commands_answer_to_their_names("text_content"@);
    commands_answer_to_their_names("inner_html"@);
    commands_answer_to_their_names("outer_html"@);
    commands_answer_to_their_names("get_attribute"@);
    commands_answer_to_their_names("attribute_names"@);
    commands_answer_to_their_names("template_contents"@);
    commands_answer_to_their_names("next_in_subtree"@);
    commands_answer_to_their_names("prev_in_subtree"@);
    commands_answer_to_their_names("next_after_subtree"@);
    commands_answer_to_their_names("contains"@);
    plain_commands_are_dispatched(state, "text_content"@, a, name);
    plain_commands_are_dispatched(state, "inner_html"@, a, name);
    plain_commands_are_dispatched(state, "outer_html"@, a, name);
    plain_commands_are_dispatched(state, "get_attribute"@, a, name);
    plain_commands_are_dispatched(state, "attribute_names"@, a, name);
    plain_commands_are_dispatched(state, "template_contents"@, a, name);
    plain_commands_are_dispatched(state, "next_in_subtree"@, a, b);
    plain_commands_are_dispatched(state, "prev_in_subtree"@, a, b);
    plain_commands_are_dispatched(state, "next_after_subtree"@, a, b);
    plain_commands_are_dispatched(state, "contains"@, a, b);
}

/// The edge reads reply with the neighbour along their own edge, by its
/// number, and with `-1` where there is none.
pub proof fn edges_lead_to_the_neighbours(state: RuntimeState, n: NodeId, arg2: Seq<char>)
    requires
        state.dom is Some,
        n <= u32::MAX,
    ensures
        ({
            let a: Seq<char> = decimal(n as nat);
            let node: Option<Node> = (state.dom->0).node(n);
            &&& command_step(state, "parent_node"@, a, arg2) == StepView::Done(
                neighbour_text(if node is Some { (node->0).parent } else { None }),
            )
            &&& command_step(state, "first_child"@, a, arg2) == StepView::Done(
                neighbour_text(if node is Some { (node->0).first_child } else { None }),
            )
            &&& command_step(state, "last_child"@, a, arg2) == StepView::Done(
                neighbour_text(if node is Some { (node->0).last_child } else { None }),
            )
            &&& command_step(state, "next_sibling"@, a, arg2) == StepView::Done(
                neighbour_text(if node is Some { (node->0).next_sibling } else { None }),
            )
            &&& command_step(state, "prev_sibling"@, a, arg2) == StepView::Done(
                neighbour_text(if node is Some { (node->0).prev_sibling } else { None }),
            )
        }),
{
    numbers_name_their_nodes(n);
    commands_answer_to_their_names("parent_node"@);
    commands_answer_to_their_names("first_child"@);
    commands_answer_to_their_names("last_child"@);
    commands_answer_to_their_names("next_sibling"@);
    commands_answer_to_their_names("prev_sibling"@);
}

/// A neighbour in a reply: its number where that fits in 31 bits, and `-1`
/// where there is none.
pub open spec fn neighbour_text(id: Option<NodeId>) -> Seq<char> {
    match id {
        Some(m) => signed_decimal(low_signed(m)),
        None => signed_decimal(-1),
    }
}

/// A number below two to the power of thirty-one is told as it is.
pub proof fn small_numbers_are_told_as_they_are(m: NodeId)
    requires
        m < 0x8000_0000,
    ensures
        neighbour_text(Some(m)) == decimal(m as nat),
        low_signed(m) == m,
{
}

/// The reads of the page reply with its URL, its referrer and its encoding as
/// JSON strings, and with the number of its document.
pub proof fn page_reads_tell_the_page(state: RuntimeState, arg1: Seq<char>, arg2: Seq<char>)
    requires
        state.dom is Some,
    ensures
        command_step(state, "document_url"@, arg1, arg2) == StepView::Done(json_quoted(state.url@)),
        command_step(state, "document_referrer"@, arg1, arg2) == StepView::Done(
            json_quoted(state.referrer@),
        ),
        command_step(state, "document_encoding"@, arg1, arg2) == StepView::Done(
            json_quoted(state.encoding@),
        ),
        command_step(state, "document_node_id"@, arg1, arg2) == StepView::Done(
            decimal((state.dom->0).document as nat),
        ),
{
    commands_answer_to_their_names("document_url"@);
    commands_answer_to_their_names("document_referrer"@);
    commands_answer_to_their_names("document_encoding"@);
    commands_answer_to_their_names("document_node_id"@);
    plain_commands_are_dispatched(state, "document_url"@, arg1, arg2);
    plain_commands_are_dispatched(state, "document_referrer"@, arg1, arg2);
    plain_commands_are_dispatched(state, "document_encoding"@, arg1, arg2);
    plain_commands_are_dispatched(state, "document_node_id"@, arg1, arg2);
}

/// Without a document every command but the edge reads replies `null`, and so
/// does a name that is no command.
pub proof fn nothing_is_read_without_a_document(
    state: RuntimeState,
    cmd: Seq<char>,
    arg1: Seq<char>,
    arg2: Seq<char>,
)
    ensures
        state.dom is None && !reads_edge(command_named(cmd)) ==> command_step(
            state,
            cmd,
            arg1,
            arg2,
        ) == StepView::Done("null"@),
        command_named(cmd) is Unknown ==> command_step(state, cmd, arg1, arg2) == StepView::Done(
            "null"@,
        ),
{
    if command_named(cmd) is Unknown {
        commands_answer_to_their_names(cmd);
    }
}

/// The kinds of nodes by their numbers: one for an element, three for a text,
/// seven for a processing instruction, eight for a comment, nine for a
/// document and ten for a doctype; zero where there is no node. The name of a
/// node is that of its kind, an element's in capitals.
pub proof fn nodes_are_told_by_kind_and_name(
    state: RuntimeState,
    n: NodeId,
    arg2: Seq<char>,
)
    requires
        state.dom is Some,
        n <= u32::MAX,
    ensures
        ({
            let a: Seq<char> = decimal(n as nat);
            let kind: StepView = command_step(state, "node_type"@, a, arg2);
            let name: StepView = command_step(state, "node_name"@, a, arg2);
            match (state.dom->0).node(n) {
                None => kind == StepView::Done(decimal(0)) && name == StepView::Done(
                    json_quoted(Seq::empty()),
                ),
                Some(node) => match node.data {
                    NodeData::Document => kind == StepView::Done(decimal(9)) && name
                        == StepView::Done(json_quoted("#document"@)),
                    NodeData::Element { name: q, template_contents } => kind == StepView::Done(
                        decimal(1),
                    ) && name == StepView::Done(json_quoted(raised(q.local@))),
                    NodeData::Text { contents } => kind == StepView::Done(decimal(3)) && name
                        == StepView::Done(json_quoted("#text"@)),
                    NodeData::Comment { contents } => kind == StepView::Done(decimal(8)) && name
                        == StepView::Done(json_quoted("#comment"@)),
                    NodeData::Doctype { name: q, public_id, system_id } => kind == StepView::Done(
                        decimal(10),
                    ) && name == StepView::Done(json_quoted(q@)),
                    NodeData::ProcessingInstruction { target, data } => kind == StepView::Done(
                        decimal(7),
                    ) && name == StepView::Done(json_quoted(target@)),
                },
            }
        }),
{
    numbers_name_their_nodes(n);
    commands_answer_to_their_names("node_type"@);
    commands_answer_to_their_names("node_name"@);
    plain_commands_are_dispatched(state, "node_type"@, decimal(n as nat), arg2);
    plain_commands_are_dispatched(state, "node_name"@, decimal(n as nat), arg2);
}

/// An element is told by its names: the tag in capitals in the namespace of
/// HTML and as it is elsewhere, with its prefix; the local name and the
/// namespace as they are. Any other node has none of them.
pub proof fn elements_are_told_by_their_names(
    state: RuntimeState,
    n: NodeId,
    arg2: Seq<char>,
)
    requires
        state.dom is Some,
        n <= u32::MAX,
    ensures
        ({
            let a: Seq<char> = decimal(n as nat);
            let tag: StepView = command_step(state, "tag_name"@, a, arg2);
            let local: StepView = command_step(state, "local_name"@, a, arg2);
            let ns: StepView = command_step(state, "namespace_uri"@, a, arg2);
            let q: Option<QualName<Seq<char>>> = match (state.dom->0).node(n) {
                Some(node) => match node.data {
                    NodeData::Element { name, template_contents } => Some(name@),
                    _ => None,
                },
                None => None,
            };
            let none: StepView = StepView::Done(json_quoted(Seq::empty()));
            match q {
                Some(q) => {
                    &&& local == StepView::Done(json_quoted(q.local))
                    &&& ns == StepView::Done(json_quoted(q.ns))
                    &&& q.ns == "http://www.w3.org/1999/xhtml"@ ==> tag == StepView::Done(
                        json_quoted(raised(q.local)),
                    )
                    &&& q.ns != "http://www.w3.org/1999/xhtml"@ && q.prefix is None ==> tag
                        == StepView::Done(json_quoted(q.local))
                    &&& q.ns != "http://www.w3.org/1999/xhtml"@ && q.prefix is Some ==> tag
                        == StepView::Done(json_quoted(q.prefix->0 + ":"@ + q.local))
                },
                None => tag == none && local == none && ns == none,
            }
        }),
{
    numbers_name_their_nodes(n);
    commands_answer_to_their_names("tag_name"@);
    commands_answer_to_their_names("local_name"@);
    commands_answer_to_their_names("namespace_uri"@);
    plain_commands_are_dispatched(state, "tag_name"@, decimal(n as nat), arg2);
    plain_commands_are_dispatched(state, "local_name"@, decimal(n as nat), arg2);
    plain_commands_are_dispatched(state, "namespace_uri"@, decimal(n as nat), arg2);
}

/// Where a node stands is told as the tree has it: its children in their
/// order, whether it has any, whether it is in the document, its place among
/// its siblings and the root of its tree. Two nodes are told in document order,
/// and whether the first is the second or an ancestor of it.
pub proof fn places_are_told_as_the_tree_has_them(
    state: RuntimeState,
    n: NodeId,
    m: NodeId,
)
    requires
        state.dom is Some,
        (state.dom->0).wf(),
        n <= u32::MAX,
        m <= u32::MAX,
    ensures
        ({
            let a: Seq<char> = decimal(n as nat);
            let b: Seq<char> = decimal(m as nat);
            let dom: DomTree = state.dom->0;
            &&& command_step(state, "child_nodes"@, a, b) == StepView::Done(
                json_ints_text(
                    Seq::new(dom.children(n).len(), |i: int| low_signed(dom.children(n)[i])),
                ),
            )
            &&& command_step(state, "has_child_nodes"@, a, b) == StepView::Done(
                if dom.children(n).len() > 0 {
                    "true"@
                } else {
                    "false"@
                },
            )
            &&& command_step(state, "is_connected"@, a, b) == StepView::Done(
                if dom.connected(n) {
                    "true"@
                } else {
                    "false"@
                },
            )
            &&& command_step(state, "node_index"@, a, b) == StepView::Done(decimal(dom.index(n)))
            &&& command_step(state, "node_root"@, a, b) == StepView::Done(
                decimal(path(dom, n)[0] as nat),
            )
            &&& command_step(state, "compare_order"@, a, b) == StepView::Done(
                signed_decimal(order(dom, n, m)),
            )
            &&& dom.depth(m) <= 1_000_000 ==> command_step(
                state,
                "is_inclusive_ancestor"@,
                a,
                b,
            ) == StepView::Done(
                if path(dom, m).contains(n) {
                    "true"@
                } else {
                    "false"@
                },
            )
        }),
{
    let a: Seq<char> = decimal(n as nat);
    let b: Seq<char> = decimal(m as nat);
    let dom: DomTree = state.dom->0;
    numbers_name_their_nodes(n);
    numbers_name_their_nodes(m);
    commands_answer_to_their_names("child_nodes"@);
    commands_answer_to_their_names("has_child_nodes"@);
    commands_answer_to_their_names("is_connected"@);
    commands_answer_to_their_names("node_index"@);
    commands_answer_to_their_names("node_root"@);
    commands_answer_to_their_names("compare_order"@);
    commands_answer_to_their_names("is_inclusive_ancestor"@);
    plain_commands_are_dispatched(state, "child_nodes"@, a, b);
    plain_commands_are_dispatched(state, "has_child_nodes"@, a, b);
    plain_commands_are_dispatched(state, "is_connected"@, a, b);
    plain_commands_are_dispatched(state, "node_index"@, a, b);
    plain_commands_are_dispatched(state, "node_root"@, a, b);
    plain_commands_are_dispatched(state, "compare_order"@, a, b);
    plain_commands_are_dispatched(state, "is_inclusive_ancestor"@, a, b);
    assert(low_ids(dom.children(n)) =~= Seq::new(
        dom.children(n).len(),
        |i: int| low_signed(dom.children(n)[i]),
    ));
    roots_are_on_top(dom, n);
    if dom.node(n) is Some {
        assert(dom.linked(n, dom.node(n)->0));
    }
    if dom.depth(m) <= 1_000_000 {
        deep_enough_test_finds_every_ancestor(dom, n, m, 1_000_000);
    }
}

/// The root of a node has no parent, and stands at the top of the node's
/// ancestors.
pub proof fn roots_are_on_top(dom: DomTree, n: NodeId)
    requires
        dom.wf(),
    ensures
        dom.parent(root(dom, n)) is None,
        path(dom, n).len() > 0,
        path(dom, n)[0] == root(dom, n),
        path(dom, n).last() == n,
        dom.parent(n) is Some ==> root(dom, n) == root(dom, dom.parent(n)->0),
    decreases dom.depth(n),
{
    parent_step(dom, n);
    if let Some(p) = dom.parent(n) {
        roots_are_on_top(dom, p);
    }
}

/// The root element is the first child of the document that is an element
/// named `html`.
pub proof fn root_element_is_the_first_html(
    state: RuntimeState,
    k: int,
    arg1: Seq<char>,
    arg2: Seq<char>,
)
    requires
        state.dom is Some,
    ensures
        ({
            let dom: DomTree = state.dom->0;
            let ids: Seq<NodeId> = dom.children(dom.document);
            let found: StepView = command_step(state, "document_element"@, arg1, arg2);
            &&& 0 <= k < ids.len() && is_html(dom, ids[k]) && (forall|j: int|
                0 <= j < k ==> !is_html(dom, #[trigger] ids[j])) ==> found == StepView::Done(
                decimal(ids[k] as nat),
            )
            &&& (forall|j: int| 0 <= j < ids.len() ==> !is_html(dom, #[trigger] ids[j])) ==> found
                == StepView::Done("-1"@)
        }),
{
    let dom: DomTree = state.dom->0;
    let ids: Seq<NodeId> = dom.children(dom.document);
    commands_answer_to_their_names("document_element"@);
    plain_commands_are_dispatched(state, "document_element"@, arg1, arg2);
    first_html_from(dom, ids, 0, k);
}

/// The node is an element named `html`.
pub open spec fn is_html(dom: DomTree, id: NodeId) -> bool {
    match dom.node(id) {
        Some(node) => match node.data {
            NodeData::Element { name, template_contents } => name.local@ == "html"@,
            _ => false,
        },
        None => false,
    }
}

proof fn first_html_from(dom: DomTree, ids: Seq<NodeId>, from: int, k: int)
    requires
        0 <= from,
    ensures
        from <= k < ids.len() && is_html(dom, ids[k]) && (forall|j: int|
            from <= j < k ==> !is_html(dom, #[trigger] ids[j])) ==> first_html(dom, ids, from)
            == Some(ids[k]),
        (forall|j: int| from <= j < ids.len() ==> !is_html(dom, #[trigger] ids[j]))
            ==> first_html(dom, ids, from) is None,
    decreases ids.len() - from,
{
    if from < ids.len() {
        first_html_from(dom, ids, from + 1, k);
        assert(is_html(dom, ids[from]) || !is_html(dom, ids[from]));
    }
}

/// The element children are the children that are elements, in their order.
pub proof fn element_children_are_the_elements(dom: DomTree, ids: Seq<NodeId>, x: NodeId)
    ensures
        elements_among(dom, ids).contains(x) <==> ids.contains(x) && element_name(dom.node(x)) is
            Some,
        elements_among(dom, ids.push(x)) == (if element_name(dom.node(x)) is Some {
            elements_among(dom, ids).push(x)
        } else {
            elements_among(dom, ids)
        }),
    decreases ids.len(),
{
    assert(ids.push(x).drop_last() =~= ids);
    if ids.len() > 0 {
        let front: Seq<NodeId> = ids.drop_last();
        element_children_are_the_elements(dom, front, x);
        assert(ids =~= front.push(ids.last()));
        let kept: Seq<NodeId> = elements_among(dom, front);
        let all: Seq<NodeId> = elements_among(dom, ids);
        assert(ids[front.len() as int] == ids.last());
        if ids.contains(x) && x != ids.last() {
            let i: int = choose|i: int| 0 <= i < ids.len() && ids[i] == x;
            assert(front[i] == x);
        }
        if front.contains(x) {
            let i: int = choose|i: int| 0 <= i < front.len() && front[i] == x;
            assert(ids[i] == x);
        }
        if element_name(dom.node(ids.last())) is Some {
            assert(all[kept.len() as int] == ids.last());
            if kept.contains(x) {
                let i: int = choose|i: int| 0 <= i < kept.len() && kept[i] == x;
                assert(all[i] == x);
            }
            if all.contains(x) && x != ids.last() {
                let i: int = choose|i: int| 0 <= i < all.len() && all[i] == x;
                assert(kept[i] == x);
            }
        }
    }
}

/// An element is looked up by its identifier in the index first. What is found
/// there counts only where it stands under the document; otherwise the
/// document is searched for the identifier.
pub proof fn elements_are_found_by_identifier(
    state: RuntimeState,
    id: Seq<char>,
    arg2: Seq<char>,
    found: NodeId,
)
    requires
        state.dom is Some,
    ensures
        match command_step(state, "get_element_by_id"@, id, arg2) {
            Step::Ask(call, then) => {
                let dom: DomTree = state.dom->0;
                &&& call == Call::<Seq<char>, Seq<NodeId>>::ElementById(id)
                &&& found != dom.document && path(dom, found).contains(dom.document) ==> resumed(
                    state,
                    then,
                    DomAnswer::Node(Some(found)),
                ) == StepView::Done(decimal(found as nat))
                &&& found == dom.document || !path(dom, found).contains(dom.document) ==> resumed(
                    state,
                    then,
                    DomAnswer::Node(Some(found)),
                ) == StepView::Ask(Call::QuerySelector(id_selector(id)), Then::ReplyNode)
                &&& resumed(state, then, DomAnswer::Node(None)) == StepView::Ask(
                    Call::QuerySelector(id_selector(id)),
                    Then::ReplyNode,
                )
            },
            Step::Done(reply) => false,
        },
{
    commands_answer_to_their_names("get_element_by_id"@);
    plain_commands_are_dispatched(state, "get_element_by_id"@, id, arg2);
}

/// The title is the text of the first `title` element, its words set apart by
/// single spaces; without such an element it is empty.
pub proof fn titles_are_told_in_words(
    state: RuntimeState,
    arg1: Seq<char>,
    arg2: Seq<char>,
    n: NodeId,
    text: String,
)
    requires
        state.dom is Some,
    ensures
        match command_step(state, "document_title"@, arg1, arg2) {
            Step::Ask(call, then) => {
                &&& call == Call::<Seq<char>, Seq<NodeId>>::QuerySelector("title"@)
                &&& resumed(state, then, DomAnswer::Node(None)) == StepView::Done(
                    json_quoted(Seq::empty()),
                )
                &&& match resumed(state, then, DomAnswer::Node(Some(n))) {
                    Step::Ask(call, next) => {
                        &&& call == Call::<Seq<char>, Seq<NodeId>>::TextContent(n)
                        &&& resumed(state, next, DomAnswer::Text(text)) == StepView::Done(
                            json_quoted(joined(words(text@), " "@)),
                        )
                    },
                    Step::Done(reply) => false,
                }
            },
            Step::Done(reply) => false,
        },
{
    commands_answer_to_their_names("document_title"@);
    plain_commands_are_dispatched(state, "document_title"@, arg1, arg2);
}

/// The processing instruction and the doctype are told by their own fields.
pub proof fn instructions_and_doctypes_are_told(
    state: RuntimeState,
    n: NodeId,
    arg2: Seq<char>,
)
    requires
        state.dom is Some,
        n <= u32::MAX,
        (state.dom->0).node(n) is Some,
    ensures
        ({
            let a: Seq<char> = decimal(n as nat);
            match ((state.dom->0).node(n)->0).data {
                NodeData::ProcessingInstruction { target, data } => command_step(
                    state,
                    "pi_target"@,
                    a,
                    arg2,
                ) == StepView::Done(json_quoted(target@)),
                NodeData::Doctype { name, public_id, system_id } => {
                    &&& command_step(state, "doctype_name"@, a, arg2) == StepView::Done(
                        json_quoted(name@),
                    )
                    &&& command_step(state, "doctype_public_id"@, a, arg2) == StepView::Done(
                        json_quoted(public_id@),
                    )
                },
                _ => true,
            }
        }),
{
    numbers_name_their_nodes(n);
    commands_answer_to_their_names("pi_target"@);
    commands_answer_to_their_names("doctype_name"@);
    commands_answer_to_their_names("doctype_public_id"@);
    plain_commands_are_dispatched(state, "pi_target"@, decimal(n as nat), arg2);
    plain_commands_are_dispatched(state, "doctype_name"@, decimal(n as nat), arg2);
    plain_commands_are_dispatched(state, "doctype_public_id"@, decimal(n as nat), arg2);
}

/// The commands that change the tree are those that write attributes, move
/// nodes and set text or HTML; reading and creating do not.
pub proof fn writing_commands_change_the_tree(cmd: Seq<char>)
    ensures
        mutating(cmd) <==> match command_named(cmd) {
            DomCommand::SetAttribute
            | DomCommand::RemoveAttribute
            | DomCommand::SetAttributeNs
            | DomCommand::RemoveAttributeNs
            | DomCommand::AppendChild
            | DomCommand::RemoveChild
            | DomCommand::InsertBefore
            | DomCommand::SetInnerHtml
            | DomCommand::SetInnerHtmlContext
            | DomCommand::SetTextContent
            | DomCommand::SetFragmentHtmlExecutable => true,
            _ => false,
        },
{
    commands_answer_to_their_names(cmd);
}

/// The page counts one more change exactly where a command reaches what is
/// connected and changes something.
pub proof fn changes_are_counted(state: RuntimeState, effect: RenderMutationImpact)
    ensures
        effect.connected && effect.actual_change ==> after_impact(state, effect)
            == (RuntimeState {
            activity_generation: state.activity_generation.wrapping_add(1),
            ..state
        }),
        !(effect.connected && effect.actual_change) ==> after_impact(state, effect) == state,
{
}

/// Writing an attribute changes something exactly where its value was another
/// or none, and removing one exactly where there was one. Either reaches what
/// is connected where the node is.
pub proof fn attribute_changes_are_seen(
    dom: DomTree,
    n: NodeId,
    name: Seq<char>,
    value: Seq<char>,
    old: Option<Seq<char>>,
)
    requires
        n <= u32::MAX,
        !name.contains('\0'),
    ensures
        impact(dom, "set_attribute"@, decimal(n as nat), name + seq!['\0'] + value, old) == (
        RenderMutationImpact { connected: dom.connected(n), actual_change: old != Some(value) }),
        impact(dom, "remove_attribute"@, decimal(n as nat), name, old) == (RenderMutationImpact {
            connected: dom.connected(n),
            actual_change: old is Some,
        }),
        impact(dom, "remove_attribute_ns"@, decimal(n as nat), name, old) == (
        RenderMutationImpact { connected: dom.connected(n), actual_change: old is Some }),
{
    numbers_name_their_nodes(n);
    commands_answer_to_their_names("set_attribute"@);
    commands_answer_to_their_names("remove_attribute"@);
    commands_answer_to_their_names("remove_attribute_ns"@);
    texts_are_cut_at_the_first(name, '\0', value);
}

/// Moving a node changes something unless it stands there already: as the last
/// child where it is appended, right before the other where it is inserted, and
/// without a parent where it is removed. It reaches what is connected where
/// the node is, or where it goes.
pub proof fn moves_are_seen(dom: DomTree, n: NodeId, m: NodeId, old: Option<Seq<char>>)
    requires
        n <= u32::MAX,
        m <= u32::MAX,
        dom.node(n) is Some,
        dom.node(m) is Some,
    ensures
        ({
            let a: Seq<char> = decimal(n as nat);
            let b: Seq<char> = decimal(m as nat);
            let x: Node = dom.node(n)->0;
            let y: Node = dom.node(m)->0;
            let appended: RenderMutationImpact = impact(dom, "append_child"@, a, b, old);
            let inserted: RenderMutationImpact = impact(dom, "insert_before"@, a, b, old);
            let removed: RenderMutationImpact = impact(dom, "remove_child"@, a, b, old);
            &&& appended.connected <==> x.connected || y.connected
            &&& appended.actual_change <==> y.parent != Some(n) || x.children@.len() == 0
                || x.children@.last() != m
            &&& y.parent is Some ==> (inserted.connected <==> x.connected || dom.connected(
                y.parent->0,
            ))
            &&& y.parent is Some ==> (inserted.actual_change <==> n != m && y.prev_sibling
                != Some(n))
            &&& y.parent is None ==> !inserted.actual_change
            &&& removed.connected == x.connected
            &&& removed.actual_change <==> x.parent is Some
        }),
{
    numbers_name_their_nodes(n);
    numbers_name_their_nodes(m);
    commands_answer_to_their_names("append_child"@);
    commands_answer_to_their_names("insert_before"@);
    commands_answer_to_their_names("remove_child"@);
}

/// Setting the text of a node changes something unless that is its text: its
/// own for character data, and for any other node that of its only child, or
/// none where it has no children.
pub proof fn text_changes_are_seen(dom: DomTree, n: NodeId, text: Seq<char>, old: Option<Seq<char>>)
    requires
        n <= u32::MAX,
        dom.node(n) is Some,
    ensures
        ({
            let x: Node = dom.node(n)->0;
            let seen: RenderMutationImpact = impact(
                dom,
                "set_text_content"@,
                decimal(n as nat),
                text,
                old,
            );
            let html: RenderMutationImpact = impact(
                dom,
                "set_inner_html"@,
                decimal(n as nat),
                text,
                old,
            );
            &&& seen.connected == x.connected
            &&& html.connected == x.connected
            &&& html.actual_change
            &&& match x.data {
                NodeData::Text { contents } => seen.actual_change <==> contents@ != text,
                NodeData::Comment { contents } => seen.actual_change <==> contents@ != text,
                NodeData::ProcessingInstruction { target, data } => seen.actual_change <==> data@
                    != text,
                _ => {
                    &&& x.children@.len() == 0 ==> (seen.actual_change <==> text.len() > 0)
                    &&& x.children@.len() > 1 ==> seen.actual_change
                },
            }
        }),
{
    numbers_name_their_nodes(n);
    commands_answer_to_their_names("set_text_content"@);
    commands_answer_to_their_names("set_inner_html"@);
}

/// A command that writes counts as activity once the engine has answered where
/// it reached the connected document and changed something; a command that
/// reads never does.
pub proof fn answered_commands_count_as_activity(
    state: RuntimeState,
    cmd: Seq<char>,
    arg1: Seq<char>,
    arg2: Seq<char>,
    then: Then<Seq<char>>,
    answer: DomAnswer,
)
    requires
        state.activity_generation < u64::MAX,
    ensures
        ({
            let seen: RenderMutationImpact = command_impact(
                state,
                cmd,
                arg1,
                arg2,
                answered_value(answer),
            );
            let after: u64 = resumed_activity(state, Then::Mutate(cmd, arg1, arg2), answer);
            &&& seen.connected && seen.actual_change ==> after == state.activity_generation + 1
            &&& !seen.connected || !seen.actual_change ==> after == state.activity_generation
        }),
        !(then is Mutate) ==> resumed_activity(state, then, answer) == state.activity_generation,
{
}

/// No HTML is set on the document, nor on a node that is not named.
pub proof fn documents_keep_their_html(
    state: RuntimeState,
    cmd: Seq<char>,
    arg1: Seq<char>,
    arg2: Seq<char>,
)
    requires
        state.dom is Some,
        cmd == "set_inner_html"@ || cmd == "set_inner_html_context"@ || cmd
            == "set_fragment_html_executable"@,
        node_named(arg1) is None || node_named(arg1) == Some(0u64),
    ensures
        command_step(state, cmd, arg1, arg2) == StepView::Done("false"@),
{
    commands_answer_to_their_names(cmd);
    commands_answer_to_their_names("set_inner_html"@);
    commands_answer_to_their_names("set_inner_html_context"@);
    commands_answer_to_their_names("set_fragment_html_executable"@);
    plain_commands_are_dispatched(state, cmd, arg1, arg2);
}

/// A command has an effect on the rendered page only where it is one that
/// writes and there is a document; then it is the one that the command itself
/// has.
pub proof fn only_writing_commands_have_effects(
    state: RuntimeState,
    cmd: Seq<char>,
    arg1: Seq<char>,
    arg2: Seq<char>,
    old: Option<Seq<char>>,
)
    ensures
        ({
            let seen: RenderMutationImpact = command_impact(state, cmd, arg1, arg2, old);
            &&& !mutating(cmd) || state.dom is None ==> !seen.connected && !seen.actual_change
            &&& mutating(cmd) && state.dom is Some ==> seen == impact(
                state.dom->0,
                cmd,
                arg1,
                arg2,
                old,
            )
        }),
{
}

/// A qualified name has a prefix where a colon stands inside it: what is before
/// the first one and what is behind. At either end a colon makes none.
pub proof fn prefixes_stand_before_a_colon(prefix: Seq<char>, local: Seq<char>)
    requires
        !prefix.contains(':'),
    ensures
        prefix.len() > 0 && local.len() > 0 ==> split_qualified(prefix + seq![':'] + local)
            == Some((prefix, local)),
        prefix.len() == 0 || local.len() == 0 ==> split_qualified(prefix + seq![':'] + local)
            is None,
        split_qualified(prefix) is None,
{
    texts_are_cut_at_the_first(prefix, ':', local);
}

/// The doctype of the document is the first among its children; without one
/// there is none.
pub proof fn first_doctype_is_the_documents(dom: DomTree, ids: Seq<NodeId>, k: int, i: int)
    requires
        0 <= k <= i <= ids.len(),
        forall|j: int|
            k <= j < i ==> !(dom.node(#[trigger] ids[j]) matches Some(n) && n.data is Doctype),
    ensures
        i == ids.len() ==> first_doctype(dom, ids, k) == "null"@,
        i < ids.len() ==> (dom.node(ids[i]) matches Some(n) ==> (n.data matches NodeData::Doctype {
            name,
            public_id,
            system_id,
        } ==> {
            let told: Seq<char> = first_doctype(dom, ids, k);
            &&& tells(told, "name"@, json_quoted(name@))
            &&& tells(told, "nodeId"@, decimal(ids[i] as nat))
            &&& tells(told, "publicId"@, json_quoted(public_id@))
            &&& tells(told, "systemId"@, json_quoted(system_id@))
        })),
    decreases i - k,
{
    if k < i {
        assert(!(dom.node(ids[k]) matches Some(n) && n.data is Doctype));
        first_doctype_is_the_documents(dom, ids, k + 1, i);
    } else if i < ids.len() {
        if let Some(n) = dom.node(ids[i]) {
            if let NodeData::Doctype { name, public_id, system_id } = n.data {
                let items: Seq<Seq<char>> = seq![
                    json_member_text("name"@, json_quoted(name@)),
                    json_member_text("nodeId"@, decimal(ids[i] as nat)),
                    json_member_text("publicId"@, json_quoted(public_id@)),
                    json_member_text("systemId"@, json_quoted(system_id@)),
                ];
                objects_tell_their_members(items, 0, "name"@, json_quoted(name@));
                objects_tell_their_members(items, 1, "nodeId"@, decimal(ids[i] as nat));
                objects_tell_their_members(items, 2, "publicId"@, json_quoted(public_id@));
                objects_tell_their_members(items, 3, "systemId"@, json_quoted(system_id@));
            }
        }
    }
}

} // verus!
