//! The names of the commands that page script can give the document tree.

use vstd::prelude::*;

use crate::text::same_text;

verus! {

/// A command on the document tree.
#[derive(Clone, Copy, Debug, PartialEq, Eq, Structural)]
pub enum DomCommand {
    DocumentNodeId,
    DocumentTitle,
    DocumentUrl,
    DocumentReferrer,
    DocumentEncoding,
    DocumentElement,
    DocumentDoctype,
    GetElementById,
    QuerySelector,
    QuerySelectorAll,
    QuerySelectorScoped,
    QuerySelectorAllScoped,
    MatchesSelector,
    NodeType,
    NodeName,
    TextContent,
    ParentNode,
    FirstChild,
    LastChild,
    NextSibling,
    PrevSibling,
    NextInSubtree,
    PrevInSubtree,
    NextAfterSubtree,
    ChildNodes,
    TagName,
    LocalName,
    NamespaceUri,
    GetAttribute,
    AttributeNames,
    SetAttribute,
    InnerHtml,
    OuterHtml,
    AppendChild,
    RemoveChild,
    InsertBefore,
    RemoveAttribute,
    GetAttributeNs,
    SetAttributeNs,
    RemoveAttributeNs,
    SetInnerHtml,
    SetInnerHtmlContext,
    SetFragmentHtmlExecutable,
    SetTextContent,
    TemplateContents,
    CreateDocumentFragment,
    CloneNode,
    CreateElement,
    CreateElementNs,
    CreateTextNode,
    CreateCommentNode,
    CreateProcessingInstruction,
    CreateDoctype,
    PiTarget,
    DoctypeName,
    DoctypePublicId,
    ElementChildren,
    HasChildNodes,
    Contains,
    IsConnected,
    NodeIndex,
    CompareOrder,
    NodeRoot,
    IsInclusiveAncestor,
    Unknown,
}

/// The command with this name.
pub open spec fn command_named(name: Seq<char>) -> DomCommand {
    if name == "document_node_id"@ {
        DomCommand::DocumentNodeId
    } else if name == "document_title"@ {
        DomCommand::DocumentTitle
    } else if name == "document_url"@ {
        DomCommand::DocumentUrl
    } else if name == "document_referrer"@ {
        DomCommand::DocumentReferrer
    } else if name == "document_encoding"@ {
        DomCommand::DocumentEncoding
    } else if name == "document_element"@ {
        DomCommand::DocumentElement
    } else if name == "document_doctype"@ {
        DomCommand::DocumentDoctype
    } else if name == "get_element_by_id"@ {
        DomCommand::GetElementById
    } else if name == "query_selector"@ {
        DomCommand::QuerySelector
    } else if name == "query_selector_all"@ {
        DomCommand::QuerySelectorAll
    } else if name == "query_selector_scoped"@ {
        DomCommand::QuerySelectorScoped
    } else if name == "query_selector_all_scoped"@ {
        DomCommand::QuerySelectorAllScoped
    } else if name == "matches_selector"@ {
        DomCommand::MatchesSelector
    } else if name == "node_type"@ {
        DomCommand::NodeType
    } else if name == "node_name"@ {
        DomCommand::NodeName
    } else if name == "text_content"@ {
        DomCommand::TextContent
    } else if name == "parent_node"@ {
        DomCommand::ParentNode
    } else if name == "first_child"@ {
        DomCommand::FirstChild
    } else if name == "last_child"@ {
        DomCommand::LastChild
    } else if name == "next_sibling"@ {
        DomCommand::NextSibling
    } else if name == "prev_sibling"@ {
        DomCommand::PrevSibling
    } else if name == "next_in_subtree"@ {
        DomCommand::NextInSubtree
    } else if name == "prev_in_subtree"@ {
        DomCommand::PrevInSubtree
    } else if name == "next_after_subtree"@ {
        DomCommand::NextAfterSubtree
    } else if name == "child_nodes"@ {
        DomCommand::ChildNodes
    } else if name == "tag_name"@ {
        DomCommand::TagName
    } else if name == "local_name"@ {
        DomCommand::LocalName
    } else if name == "namespace_uri"@ {
        DomCommand::NamespaceUri
    } else if name == "get_attribute"@ {
        DomCommand::GetAttribute
    } else if name == "attribute_names"@ {
        DomCommand::AttributeNames
    } else if name == "set_attribute"@ {
        DomCommand::SetAttribute
    } else if name == "inner_html"@ {
        DomCommand::InnerHtml
    } else if name == "outer_html"@ {
        DomCommand::OuterHtml
    } else if name == "append_child"@ {
        DomCommand::AppendChild
    } else if name == "remove_child"@ {
        DomCommand::RemoveChild
    } else if name == "insert_before"@ {
        DomCommand::InsertBefore
    } else if name == "remove_attribute"@ {
        DomCommand::RemoveAttribute
    } else if name == "get_attribute_ns"@ {
        DomCommand::GetAttributeNs
    } else if name == "set_attribute_ns"@ {
        DomCommand::SetAttributeNs
    } else if name == "remove_attribute_ns"@ {
        DomCommand::RemoveAttributeNs
    } else if name == "set_inner_html"@ {
        DomCommand::SetInnerHtml
    } else if name == "set_inner_html_context"@ {
        DomCommand::SetInnerHtmlContext
    } else if name == "set_fragment_html_executable"@ {
        DomCommand::SetFragmentHtmlExecutable
    } else if name == "set_text_content"@ {
        DomCommand::SetTextContent
    } else if name == "template_contents"@ {
        DomCommand::TemplateContents
    } else if name == "create_document_fragment"@ {
        DomCommand::CreateDocumentFragment
    } else if name == "clone_node"@ {
        DomCommand::CloneNode
    } else if name == "create_element"@ {
        DomCommand::CreateElement
    } else if name == "create_element_ns"@ {
        DomCommand::CreateElementNs
    } else if name == "create_text_node"@ {
        DomCommand::CreateTextNode
    } else if name == "create_comment_node"@ {
        DomCommand::CreateCommentNode
    } else if name == "create_processing_instruction"@ {
        DomCommand::CreateProcessingInstruction
    } else if name == "create_doctype"@ {
        DomCommand::CreateDoctype
    } else if name == "pi_target"@ {
        DomCommand::PiTarget
    } else if name == "doctype_name"@ {
        DomCommand::DoctypeName
    } else if name == "doctype_public_id"@ {
        DomCommand::DoctypePublicId
    } else if name == "element_children"@ {
        DomCommand::ElementChildren
    } else if name == "has_child_nodes"@ {
        DomCommand::HasChildNodes
    } else if name == "contains"@ {
        DomCommand::Contains
    } else if name == "is_connected"@ {
        DomCommand::IsConnected
    } else if name == "node_index"@ {
        DomCommand::NodeIndex
    } else if name == "compare_order"@ {
        DomCommand::CompareOrder
    } else if name == "node_root"@ {
        DomCommand::NodeRoot
    } else if name == "is_inclusive_ancestor"@ {
        DomCommand::IsInclusiveAncestor
    } else {
        DomCommand::Unknown
    }
}

/// The command with this name.
pub fn parse_command(name: &str) -> (r: DomCommand)
    ensures
        r == command_named(name@),
{
    if same_text(name, "document_node_id") {
        DomCommand::DocumentNodeId
    } else if same_text(name, "document_title") {
        DomCommand::DocumentTitle
    } else if same_text(name, "document_url") {
        DomCommand::DocumentUrl
    } else if same_text(name, "document_referrer") {
        DomCommand::DocumentReferrer
    } else if same_text(name, "document_encoding") {
        DomCommand::DocumentEncoding
    } else if same_text(name, "document_element") {
        DomCommand::DocumentElement
    } else if same_text(name, "document_doctype") {
        DomCommand::DocumentDoctype
    } else if same_text(name, "get_element_by_id") {
        DomCommand::GetElementById
    } else if same_text(name, "query_selector") {
        DomCommand::QuerySelector
    } else if same_text(name, "query_selector_all") {
        DomCommand::QuerySelectorAll
    } else if same_text(name, "query_selector_scoped") {
        DomCommand::QuerySelectorScoped
    } else if same_text(name, "query_selector_all_scoped") {
        DomCommand::QuerySelectorAllScoped
    } else if same_text(name, "matches_selector") {
        DomCommand::MatchesSelector
    } else if same_text(name, "node_type") {
        DomCommand::NodeType
    } else if same_text(name, "node_name") {
        DomCommand::NodeName
    } else if same_text(name, "text_content") {
        DomCommand::TextContent
    } else if same_text(name, "parent_node") {
        DomCommand::ParentNode
    } else if same_text(name, "first_child") {
        DomCommand::FirstChild
    } else if same_text(name, "last_child") {
        DomCommand::LastChild
    } else if same_text(name, "next_sibling") {
        DomCommand::NextSibling
    } else if same_text(name, "prev_sibling") {
        DomCommand::PrevSibling
    } else if same_text(name, "next_in_subtree") {
        DomCommand::NextInSubtree
    } else if same_text(name, "prev_in_subtree") {
        DomCommand::PrevInSubtree
    } else if same_text(name, "next_after_subtree") {
        DomCommand::NextAfterSubtree
    } else if same_text(name, "child_nodes") {
        DomCommand::ChildNodes
    } else if same_text(name, "tag_name") {
        DomCommand::TagName
    } else if same_text(name, "local_name") {
        DomCommand::LocalName
    } else if same_text(name, "namespace_uri") {
        DomCommand::NamespaceUri
    } else if same_text(name, "get_attribute") {
        DomCommand::GetAttribute
    } else if same_text(name, "attribute_names") {
        DomCommand::AttributeNames
    } else if same_text(name, "set_attribute") {
        DomCommand::SetAttribute
    } else if same_text(name, "inner_html") {
        DomCommand::InnerHtml
    } else if same_text(name, "outer_html") {
        DomCommand::OuterHtml
    } else if same_text(name, "append_child") {
        DomCommand::AppendChild
    } else if same_text(name, "remove_child") {
        DomCommand::RemoveChild
    } else if same_text(name, "insert_before") {
        DomCommand::InsertBefore
    } else if same_text(name, "remove_attribute") {
        DomCommand::RemoveAttribute
    } else if same_text(name, "get_attribute_ns") {
        DomCommand::GetAttributeNs
    } else if same_text(name, "set_attribute_ns") {
        DomCommand::SetAttributeNs
    } else if same_text(name, "remove_attribute_ns") {
        DomCommand::RemoveAttributeNs
    } else if same_text(name, "set_inner_html") {
        DomCommand::SetInnerHtml
    } else if same_text(name, "set_inner_html_context") {
        DomCommand::SetInnerHtmlContext
    } else if same_text(name, "set_fragment_html_executable") {
        DomCommand::SetFragmentHtmlExecutable
    } else if same_text(name, "set_text_content") {
        DomCommand::SetTextContent
    } else if same_text(name, "template_contents") {
        DomCommand::TemplateContents
    } else if same_text(name, "create_document_fragment") {
        DomCommand::CreateDocumentFragment
    } else if same_text(name, "clone_node") {
        DomCommand::CloneNode
    } else if same_text(name, "create_element") {
        DomCommand::CreateElement
    } else if same_text(name, "create_element_ns") {
        DomCommand::CreateElementNs
    } else if same_text(name, "create_text_node") {
        DomCommand::CreateTextNode
    } else if same_text(name, "create_comment_node") {
        DomCommand::CreateCommentNode
    } else if same_text(name, "create_processing_instruction") {
        DomCommand::CreateProcessingInstruction
    } else if same_text(name, "create_doctype") {
        DomCommand::CreateDoctype
    } else if same_text(name, "pi_target") {
        DomCommand::PiTarget
    } else if same_text(name, "doctype_name") {
        DomCommand::DoctypeName
    } else if same_text(name, "doctype_public_id") {
        DomCommand::DoctypePublicId
    } else if same_text(name, "element_children") {
        DomCommand::ElementChildren
    } else if same_text(name, "has_child_nodes") {
        DomCommand::HasChildNodes
    } else if same_text(name, "contains") {
        DomCommand::Contains
    } else if same_text(name, "is_connected") {
        DomCommand::IsConnected
    } else if same_text(name, "node_index") {
        DomCommand::NodeIndex
    } else if same_text(name, "compare_order") {
        DomCommand::CompareOrder
    } else if same_text(name, "node_root") {
        DomCommand::NodeRoot
    } else if same_text(name, "is_inclusive_ancestor") {
        DomCommand::IsInclusiveAncestor
    } else {
        DomCommand::Unknown
    }
}

} // verus!
