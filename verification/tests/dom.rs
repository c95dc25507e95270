use tinybrowser::dom::command::{
    fragment_context_and_html, op_dom_inner, op_dom_resume, Call, DomAnswer, Step, Then,
};
use tinybrowser::dom::impact::{render_mutation_impact, unpack_name};
use tinybrowser::dom::node::{DomEdit, JsCustomEvent, JsEvent, JsNode};
use tinybrowser::dom::order::{
    compare_node_order, is_inclusive_ancestor, node_ancestors_root_first, node_child_index,
    node_root,
};
use tinybrowser::dom::scripts::{
    propagate_script_start_state, script_nodes_including_template_contents, StartedScripts,
};
use tinybrowser::dom::tokens::{JsCSSStyleDeclaration, JsDOMTokenList};
use tinybrowser::dom::tree::{DomTree, Node, NodeData, NodeId, QualName};
use tinybrowser::state::RuntimeState;

fn s(text: &str) -> String {
    text.to_string()
}

fn element(local: &str) -> NodeData<String> {
    NodeData::Element {
        name: QualName { prefix: None, ns: s("http://www.w3.org/1999/xhtml"), local: s(local) },
        template_contents: None,
    }
}

fn template(contents: NodeId) -> NodeData<String> {
    NodeData::Element {
        name: QualName { prefix: None, ns: s("http://www.w3.org/1999/xhtml"), local: s("template") },
        template_contents: Some(contents),
    }
}

fn words(text: &str) -> NodeData<String> {
    NodeData::Text { contents: s(text) }
}

/// A tree out of nodes, each with its parent. Slot zero is the document.
fn tree(nodes: Vec<(NodeData<String>, Option<NodeId>)>) -> DomTree {
    let n = nodes.len();
    let parents: Vec<Option<NodeId>> = nodes.iter().map(|(_, p)| *p).collect();
    let children: Vec<Vec<NodeId>> = (0..n)
        .map(|i| (0..n as u64).filter(|j| parents[*j as usize] == Some(i as u64)).collect())
        .collect();
    let contents: Vec<Option<NodeId>> = nodes
        .iter()
        .map(|(d, _)| match d {
            NodeData::Element { template_contents, .. } => *template_contents,
            _ => None,
        })
        .collect();
    let depth = |i: usize| {
        let (mut d, mut at) = (0u64, i);
        while let Some(p) = parents[at] {
            d += 1;
            at = p as usize;
        }
        (d, at)
    };
    let mut heights = vec![0u64; n];
    for _ in 0..n {
        for i in 0..n {
            let below = children[i].iter().chain(contents[i].iter());
            heights[i] = below.map(|c| heights[*c as usize] + 1).max().unwrap_or(0);
        }
    }
    let built = nodes
        .into_iter()
        .enumerate()
        .map(|(i, (data, parent))| {
            let siblings: &[NodeId] = match parent {
                Some(p) => &children[p as usize],
                None => &[],
            };
            let index = siblings.iter().position(|c| *c == i as u64).unwrap_or(0);
            Some(Node {
                data,
                parent,
                first_child: children[i].first().copied(),
                last_child: children[i].last().copied(),
                next_sibling: siblings.get(index + 1).copied(),
                prev_sibling: if index > 0 { siblings.get(index - 1).copied() } else { None },
                children: children[i].clone(),
                connected: depth(i).1 == 0,
                depth: depth(i).0,
                index: index as u64,
                height: heights[i],
            })
        })
        .collect();
    DomTree::build(built, 0).expect("the nodes are linked as a tree")
}

/// Document, doctype, `<html><body><p>hi</p><script></script></body></html>`,
/// and a detached `<div><span></span></div>`.
fn page() -> DomTree {
    tree(vec![
        (NodeData::Document, None),
        (
            NodeData::Doctype { name: s("html"), public_id: s("pub"), system_id: s("") },
            Some(0),
        ),
        (element("html"), Some(0)),
        (element("body"), Some(2)),
        (element("p"), Some(3)),
        (words("hi"), Some(4)),
        (element("script"), Some(3)),
        (element("div"), None),
        (element("span"), Some(7)),
    ])
}

fn state() -> RuntimeState {
    let mut state = RuntimeState::new();
    state.set_dom(page());
    state.url = s("https://a.test/");
    state
}

fn reply(state: &mut RuntimeState, cmd: &str, arg1: &str, arg2: &str) -> String {
    match op_dom_inner(state, cmd, arg1, arg2) {
        Step::Done(r) => r,
        Step::Ask(_, _) => panic!("{cmd} asks the engine"),
    }
}

#[test]
fn unlinked_nodes_are_no_tree() {
    let lone = |parent: Option<NodeId>| {
        Some(Node {
            data: NodeData::Document,
            parent,
            first_child: None,
            last_child: None,
            next_sibling: None,
            prev_sibling: None,
            children: vec![],
            connected: false,
            depth: 0,
            index: 0,
            height: 0,
        })
    };
    assert!(DomTree::build(vec![lone(None)], 0).is_some());
    assert!(DomTree::build(vec![lone(Some(4))], 0).is_none());
    assert!(DomTree::build(vec![], 0).is_none());
}

#[test]
fn edges_are_read_without_the_engine() {
    let mut st = state();
    assert_eq!(reply(&mut st, "parent_node", "4", ""), "3");
    assert_eq!(reply(&mut st, "first_child", "3", ""), "4");
    assert_eq!(reply(&mut st, "last_child", "3", ""), "6");
    assert_eq!(reply(&mut st, "next_sibling", "4", ""), "6");
    assert_eq!(reply(&mut st, "prev_sibling", "4", ""), "-1");
    assert_eq!(reply(&mut st, "child_nodes", "3", ""), "[4,6]");
    assert_eq!(reply(&mut st, "element_children", "4", ""), "[]");
    assert_eq!(reply(&mut st, "has_child_nodes", "4", ""), "true");
}

#[test]
fn nodes_tell_what_they_are() {
    let mut st = state();
    assert_eq!(reply(&mut st, "node_type", "0", ""), "9");
    assert_eq!(reply(&mut st, "node_type", "5", ""), "3");
    assert_eq!(reply(&mut st, "node_name", "4", ""), "\"P\"");
    assert_eq!(reply(&mut st, "tag_name", "6", ""), "\"SCRIPT\"");
    assert_eq!(reply(&mut st, "local_name", "6", ""), "\"script\"");
    assert_eq!(reply(&mut st, "namespace_uri", "6", ""), "\"http://www.w3.org/1999/xhtml\"");
    assert_eq!(reply(&mut st, "document_element", "", ""), "2");
    assert_eq!(reply(&mut st, "doctype_name", "1", ""), "\"html\"");
    assert_eq!(reply(&mut st, "doctype_public_id", "1", ""), "\"pub\"");
    assert_eq!(reply(&mut st, "is_connected", "8", ""), "false");
    assert_eq!(reply(&mut st, "no_such_command", "1", ""), "null");
    let mut empty = RuntimeState::new();
    assert_eq!(reply(&mut empty, "node_type", "0", ""), "null");
}

#[test]
fn order_follows_the_document() {
    let dom = page();
    assert_eq!(compare_node_order(&dom, 4, 6), -1);
    assert_eq!(compare_node_order(&dom, 6, 5), 1);
    assert_eq!(compare_node_order(&dom, 3, 5), -1);
    assert_eq!(compare_node_order(&dom, 5, 5), 0);
    assert_eq!(node_ancestors_root_first(&dom, 5), vec![0, 2, 3, 4, 5]);
    assert_eq!(node_child_index(&dom, 6), 1);
    assert_eq!(node_root(&dom, 8), 7);
    assert!(is_inclusive_ancestor(&dom, 2, 5));
    assert!(is_inclusive_ancestor(&dom, 5, 5));
    assert!(!is_inclusive_ancestor(&dom, 7, 5));
    let mut st = state();
    assert_eq!(reply(&mut st, "compare_order", "4", "6"), "-1");
    assert_eq!(reply(&mut st, "is_inclusive_ancestor", "7", "8"), "true");
    assert_eq!(reply(&mut st, "node_root", "8", ""), "7");
    assert_eq!(reply(&mut st, "node_index", "6", ""), "1");
}

#[test]
fn only_visible_changes_count() {
    let dom = page();
    let changed = |cmd: &str, a: &str, b: &str, old: Option<&str>| {
        let i = render_mutation_impact(&dom, cmd, a, b, old);
        (i.connected, i.actual_change)
    };
    assert_eq!(changed("set_attribute", "4", "class\0x", Some("x")), (true, false));
    assert_eq!(changed("set_attribute", "4", "class\0y", Some("x")), (true, true));
    assert_eq!(changed("set_attribute", "8", "class\0y", None), (false, true));
    assert_eq!(changed("set_attribute", "x", "class\0y", None), (false, false));
    assert_eq!(unpack_name("ns\0local"), (s("ns"), s("local")));
    let mut st = state();
    let before = st.activity_generation;
    let step = op_dom_inner(&mut st, "set_attribute", "4", "class\0y");
    match step {
        Step::Ask(Call::GetAttribute(4, name), then) => {
            assert_eq!(name, "class");
            match op_dom_resume(&mut st, then, DomAnswer::Value(Some(s("y")))) {
                Step::Ask(Call::SetAttribute(4, n, v), Then::ReplyTrue) => {
                    assert_eq!((n, v), (s("class"), s("y")));
                }
                _ => panic!("the attribute is written"),
            }
            assert_eq!(st.activity_generation, before);
        }
        _ => panic!("the old value is asked for"),
    }
}

#[test]
fn selectors_and_texts_go_through_the_engine() {
    let mut st = state();
    match op_dom_inner(&mut st, "query_selector", "p", "") {
        Step::Ask(Call::QuerySelector(q), then) => {
            assert_eq!(q, "p");
            match op_dom_resume(&mut st, then, DomAnswer::Node(Some(4))) {
                Step::Done(r) => assert_eq!(r, "4"),
                _ => panic!("it is done"),
            }
        }
        _ => panic!("the engine is asked"),
    }
    match op_dom_inner(&mut st, "query_selector_all", "p", "") {
        Step::Ask(_, then) => match op_dom_resume(&mut st, then, DomAnswer::Nodes(vec![4, 6])) {
            Step::Done(r) => assert_eq!(r, "[4,6]"),
            _ => panic!("it is done"),
        },
        _ => panic!("the engine is asked"),
    }
    match op_dom_inner(&mut st, "text_content", "4", "") {
        Step::Ask(_, then) => match op_dom_resume(&mut st, then, DomAnswer::Text(s("a\"b"))) {
            Step::Done(r) => assert_eq!(r, "\"a\\\"b\""),
            _ => panic!("it is done"),
        },
        _ => panic!("the engine is asked"),
    }
}

#[test]
fn identifiers_are_indexed_when_written() {
    let mut st = state();
    let first = op_dom_inner(&mut st, "set_attribute", "4", "id\0new");
    let Step::Ask(Call::GetAttribute(4, _), then) = first else { panic!("the old value is asked for") };
    let second = op_dom_resume(&mut st, then, DomAnswer::Value(Some(s("old"))));
    let Step::Ask(Call::GetAttribute(4, _), then) = second else { panic!("the identifier is read") };
    let third = op_dom_resume(&mut st, then, DomAnswer::Value(Some(s("old"))));
    let Step::Ask(Call::SetAttribute(4, n, v), then) = third else { panic!("it is written") };
    assert_eq!((n, v), (s("id"), s("new")));
    let fourth = op_dom_resume(&mut st, then, DomAnswer::Unit);
    let Step::Ask(Call::UpdateIdIndex(4, from, to), _) = fourth else { panic!("it is indexed") };
    assert_eq!((from, to), (Some(s("old")), Some(s("new"))));
}

#[test]
fn imported_scripts_never_start() {
    // a div whose markup was assigned: it holds a script, and a template with one
    let dom = tree(vec![
        (NodeData::Document, None),
        (element("div"), None),
        (element("script"), Some(1)),
        (template(4), Some(1)),
        (NodeData::Document, None),
        (element("script"), Some(4)),
    ]);
    assert_eq!(script_nodes_including_template_contents(&dom, 1), vec![2, 5]);
    let mut st = RuntimeState::new();
    st.set_dom(dom);
    match op_dom_resume(&mut st, Then::Imported(1), DomAnswer::Unit) {
        Step::Done(r) => assert_eq!(r, "true"),
        Step::Ask(_, _) => panic!("it is done"),
    }
    assert!(!st.op_script_try_start_inner(2));
    assert!(!st.op_script_try_start_inner(5));
}

#[test]
fn a_script_starts_once() {
    let mut st = state();
    assert!(st.op_script_try_start_inner(6));
    assert!(!st.op_script_try_start_inner(6));
    assert!(!st.op_script_try_start_inner(4));
}

#[test]
fn clones_are_started_where_their_sources_are() {
    // a section with a started script, a new one, and a template that holds
    // another started one, and a clone of it all
    let dom = tree(vec![
        (NodeData::Document, None),
        (element("section"), Some(0)),
        (element("script"), Some(1)),
        (element("script"), Some(1)),
        (template(5), Some(1)),
        (NodeData::Document, None),
        (element("script"), Some(5)),
        (element("section"), None),
        (element("script"), Some(7)),
        (element("script"), Some(7)),
        (template(11), Some(7)),
        (NodeData::Document, None),
        (element("script"), Some(11)),
    ]);
    let mut started = StartedScripts::new();
    started.insert(2);
    started.insert(6);
    propagate_script_start_state(&dom, 1, 7, &mut started);
    assert_eq!(started.sorted(), vec![2, 6, 8, 12]);
}

#[test]
fn templates_do_not_share_their_contents() {
    let node = |data: NodeData<String>, height: u64| Node {
        data,
        parent: None,
        first_child: None,
        last_child: None,
        next_sibling: None,
        prev_sibling: None,
        children: vec![],
        connected: false,
        depth: 0,
        index: 0,
        height,
    };
    let slots = |second: NodeData<String>| {
        vec![
            Some(node(NodeData::Document, 0)),
            Some(node(template(3), 1)),
            Some(node(second, 1)),
            Some(node(NodeData::Document, 0)),
        ]
    };
    assert!(DomTree::build(slots(element("div")), 0).is_some());
    assert!(DomTree::build(slots(template(3)), 0).is_none());
}

#[test]
fn one_started_script_marks_its_clone_alone() {
    // a started script in a section, and a clone of the section
    let dom = tree(vec![
        (NodeData::Document, None),
        (element("section"), Some(0)),
        (element("script"), Some(1)),
        (element("section"), None),
        (element("script"), Some(3)),
    ]);
    let mut started = StartedScripts::new();
    assert!(started.insert(2));
    assert!(!started.insert(2));
    propagate_script_start_state(&dom, 1, 3, &mut started);
    assert!(started.contains(4));
    assert!(!started.contains(3));
    assert_eq!(started.sorted(), vec![2, 4]);
}

#[test]
fn the_first_script_start_wins() {
    let mut st = state();
    assert!(st.op_script_mark_started_inner(6));
    assert!(!st.op_script_try_start_inner(6));
    assert_eq!(st.started_script_ids(), vec![6]);
    let mut other = state();
    other.restore_started_script_ids(&vec![6, 4, 99]);
    assert_eq!(other.started_script_ids(), vec![6]);
}

#[test]
fn fragments_come_with_their_context() {
    let (name, html) = fragment_context_and_html("http://www.w3.org/2000/svg\0svg\0<path/>");
    assert_eq!((name.ns.as_str(), name.local.as_str()), ("http://www.w3.org/2000/svg", "svg"));
    assert_eq!(html, "<path/>");
}

#[test]
fn created_nodes_are_named() {
    let mut st = state();
    match op_dom_inner(&mut st, "create_element_ns", "http://www.w3.org/2000/svg\0svg:path", "") {
        Step::Ask(Call::Create(NodeData::Element { name, .. }), then) => {
            assert_eq!(name.prefix.as_deref(), Some("svg"));
            assert_eq!(name.local, "path");
            match op_dom_resume(&mut st, then, DomAnswer::Node(Some(12))) {
                Step::Done(r) => assert_eq!(r, "12"),
                _ => panic!("it is done"),
            }
        }
        _ => panic!("an element is made"),
    }
    assert_eq!(reply(&mut st, "create_element_ns", "ns\0", ""), "-1");
    assert_eq!(reply(&mut st, "append_child", "x", "4"), "false");
    assert_eq!(reply(&mut st, "set_inner_html", "0", "<p>"), "false");
}

#[test]
fn class_tokens_and_html_become_edits() {
    let mut classes = JsDOMTokenList { class: None };
    assert!(classes.add(s("box")));
    assert!(!classes.add(s("box")));
    assert!(classes.contains("box"));
    assert_eq!(classes.class.as_deref(), Some("box"));
    let el = JsNode { nid: 3 };
    let edits = el.set_inner_html(&Some(page()), s("<b>hi</b>"));
    assert!(edits.iter().any(|e| matches!(e, DomEdit::ImportHtml(3, _, html) if html == "<b>hi</b>")));
}

#[test]
fn token_lists_keep_their_tokens_apart() {
    let mut classes = JsDOMTokenList { class: Some(s(" a  b a ")) };
    assert_eq!(classes.tokens(), vec![s("a"), s("b"), s("a")]);
    classes.remove("a");
    assert!(!classes.contains("a"));
    assert!(classes.contains("b"));
    assert!(classes.toggle(s("c")));
    assert!(!classes.toggle(s("b")));
    assert_eq!(classes.tokens(), vec![s("c")]);
}

#[test]
fn styles_are_the_attribute() {
    let mut style = JsCSSStyleDeclaration { style: None };
    assert_eq!(style.css_text(), "");
    style.set_css_text(s("color: red"));
    assert_eq!(style.css_text(), "color: red");
}

#[test]
fn native_nodes_read_the_tree() {
    let dom = Some(page());
    let p = JsNode { nid: 4 };
    assert_eq!(p.node_type(&dom), 1);
    assert_eq!(p.node_name(&dom), "P");
    assert_eq!(p.parent_node(&dom), Some(3));
    assert_eq!(p.first_child(&dom), Some(5));
    assert_eq!(p.last_child(&dom), Some(5));
    assert_eq!(p.next_sibling(&dom), Some(6));
    assert_eq!(p.previous_sibling(&dom), None);
    assert!(p.is_connected(&dom));
    assert!(p.has_child_nodes(&dom));
    assert!(p.contains(&dom, Some(5)));
    assert!(!p.contains(&dom, Some(6)));
    assert!(!p.contains(&dom, None));
    let t = JsNode { nid: 5 };
    assert_eq!(t.closest(&dom, &vec![2, 4]), Some(4));
    assert_eq!(t.closest(&dom, &vec![8]), None);
    assert_eq!(p.parent_node(&None), None);
}

#[test]
fn native_nodes_edit_the_tree() {
    let dom = Some(page());
    let body = JsNode { nid: 3 };
    assert!(matches!(body.append_child(&dom, 7).as_slice(), [DomEdit::AppendChild(3, 7)]));
    assert!(!body.remove_child(&dom, 4).is_empty());
    assert!(!body.replace_child(&dom, 7, 4).is_empty());
    assert!(!JsNode { nid: 5 }.set_text_content(&dom, s("x")).is_empty());
    assert!(body.append_child(&None, 7).is_empty());
}

#[test]
fn events_keep_their_flags() {
    let e = JsEvent::new(s("click"), Some(true), None);
    assert_eq!(e.type_(), "click");
    assert!(e.bubbles());
    assert!(!e.cancelable());
    assert_eq!(JsCustomEvent::new(s("x"), None, None).type_(), "x");
}
