//! The state of one page: its document, its pending work and what it fetched.

use vstd::prelude::*;

use crate::dom::impact::RenderMutationImpact;
use crate::dom::scripts::{
    is_script, node_is_script, script_nodes_including_template_contents, scripts_under,
    StartedScripts,
};
use crate::dom::tree::{DomTree, NodeId};
use crate::fetch::store::{bodies, well_kept};
use crate::number::{decimal, write_decimal};
use crate::text::same_text;

verus! {

/// Header names and values.
pub type Headers = Vec<(String, String)>;

/// A response body kept for a later request for it.
#[derive(Debug, Clone)]
pub struct StoredNetworkResponseBody {
    pub body: String,
    pub base64_encoded: bool,
}

/// A network request that page script made, kept until it is reported.
/// `timestamp_nanos` counts from the Unix epoch.
#[derive(Debug, Clone)]
pub struct JsNetworkEvent {
    pub request_id: String,
    pub url: String,
    pub method: String,
    pub status: u16,
    pub response_headers: Headers,
    pub body_size: usize,
    pub timestamp_nanos: u128,
}

/// The state of one page. `network_response_bodies` holds the stored bodies
/// by request, the oldest first.
pub struct RuntimeState {
    pub dom: Option<DomTree>,
    pub url: String,
    pub encoding: String,
    pub title: String,
    pub referrer: String,
    pub blocked_urls: Vec<String>,
    pub pending_navigation: Option<(String, String, String)>,
    pub intercept_counter: u64,
    pub intercept_enabled: bool,
    pub pending_binding_calls: Vec<(String, String)>,
    pub network_response_bodies: Vec<(String, StoredNetworkResponseBody)>,
    pub network_response_body_counter: u64,
    pub fetched_urls: Vec<String>,
    pub js_network_events: Vec<JsNetworkEvent>,
    pub activity_generation: u64,
    pub document_generation: u64,
    pub already_started_scripts: StartedScripts,
}

impl RuntimeState {
    /// The document is a tree, the started scripts are a set, and each stored
    /// body stands under an identity of its own that was given out.
    pub open spec fn wf(self) -> bool {
        &&& self.dom is Some ==> (self.dom->0).wf()
        &&& self.already_started_scripts.wf()
        &&& well_kept(bodies(self.network_response_bodies@), self.network_response_body_counter)
    }

    /// A page at a URL on which nothing has happened yet.
    pub open spec fn blank(self, url: Seq<char>) -> bool {
        &&& self.dom is None
        &&& self.url@ == url
        &&& self.encoding@ == "UTF-8"@
        &&& self.title@ == Seq::<char>::empty()
        &&& self.referrer@ == Seq::<char>::empty()
        &&& self.blocked_urls@.len() == 0
        &&& self.pending_navigation is None
        &&& self.intercept_counter == 0
        &&& !self.intercept_enabled
        &&& self.pending_binding_calls@.len() == 0
        &&& self.network_response_bodies@.len() == 0
        &&& self.network_response_body_counter == 0
        &&& self.fetched_urls@.len() == 0
        &&& self.js_network_events@.len() == 0
        &&& self.activity_generation == 0
        &&& self.document_generation == 0
        &&& self.already_started_scripts@ == Set::<NodeId>::empty()
    }

    /// A page without a document, at `about:blank`.
    pub fn new() -> (r: Self)
        ensures
            r.wf(),
            r.blank("about:blank"@),
    {
        RuntimeState {
            dom: None,
            url: "about:blank".to_owned(),
            encoding: "UTF-8".to_owned(),
            title: String::new(),
            referrer: String::new(),
            blocked_urls: Vec::new(),
            pending_navigation: None,
            intercept_counter: 0,
            intercept_enabled: false,
            pending_binding_calls: Vec::new(),
            network_response_bodies: Vec::new(),
            network_response_body_counter: 0,
            fetched_urls: Vec::new(),
            js_network_events: Vec::new(),
            activity_generation: 0,
            document_generation: 0,
            already_started_scripts: StartedScripts::new(),
        }
    }

    /// Installs a new document: the document generation steps on, the activity
    /// generation and the started scripts start over.
    pub fn set_dom(&mut self, dom: DomTree)
        requires
            old(self).wf(),
            dom.wf(),
        ensures
            final(self).wf(),
            final(self).already_started_scripts@ == Set::<NodeId>::empty(),
            *final(self) == (RuntimeState {
                dom: Some(dom),
                document_generation: old(self).document_generation.wrapping_add(1),
                activity_generation: 0,
                already_started_scripts: final(self).already_started_scripts,
                ..*old(self)
            }),
    {
        self.dom = Some(dom);
        self.document_generation = self.document_generation.wrapping_add(1);
        self.activity_generation = 0;
        self.already_started_scripts = StartedScripts::new();
    }

    /// Takes the document out of the page.
    pub fn take_dom(&mut self) -> (r: Option<DomTree>)
        ensures
            r == old(self).dom,
            *final(self) == (RuntimeState { dom: None, ..*old(self) }),
    {
        self.dom.take()
    }

    /// Steps the activity generation on where the command both reaches the
    /// connected document and changes something.
    pub fn record_impact(&mut self, impact: RenderMutationImpact)
        ensures
            *final(self) == after_impact(*old(self), impact),
    {
        if impact.connected && impact.actual_change {
            self.activity_generation = self.activity_generation.wrapping_add(1);
        }
    }

    /// Asks for a navigation. The document stays at its own URL until the
    /// navigation commits, and so do its cookies.
    pub fn op_navigate_inner(&mut self, url: &str, method: &str, body: &str)
        ensures
            match final(self).pending_navigation {
                Some(p) => p.0@ == url@ && p.1@ == method@ && p.2@ == body@,
                None => false,
            },
            *final(self) == (RuntimeState {
                pending_navigation: final(self).pending_navigation,
                ..*old(self)
            }),
    {
        self.pending_navigation = Some((url.to_owned(), method.to_owned(), body.to_owned()));
    }

    /// Queues a call of a binding, behind those already queued.
    pub fn op_binding_called_inner(&mut self, name: &str, payload: &str)
        ensures
            final(self).pending_binding_calls@.len() == old(self).pending_binding_calls@.len() + 1,
            final(self).pending_binding_calls@.drop_last() == old(self).pending_binding_calls@,
            final(self).pending_binding_calls@.last().0@ == name@,
            final(self).pending_binding_calls@.last().1@ == payload@,
            *final(self) == (RuntimeState {
                pending_binding_calls: final(self).pending_binding_calls,
                ..*old(self)
            }),
    {
        self.pending_binding_calls.push((name.to_owned(), payload.to_owned()));
        assert(self.pending_binding_calls@.drop_last() =~= old(self).pending_binding_calls@);
    }

    /// Marks a script element as started; false where `nid` is none.
    pub fn op_script_mark_started_inner(&mut self, nid: NodeId) -> (r: bool)
        requires
            old(self).wf(),
        ensures
            final(self).wf(),
            r == old(self).holds_script(nid),
            final(self).already_started_scripts@ == (if r {
                old(self).already_started_scripts@.insert(nid)
            } else {
                old(self).already_started_scripts@
            }),
            *final(self) == (RuntimeState {
                already_started_scripts: final(self).already_started_scripts,
                ..*old(self)
            }),
    {
        let script: bool = match &self.dom {
            Some(dom) => node_is_script(dom, nid),
            None => false,
        };
        if script {
            self.already_started_scripts.insert(nid);
        }
        script
    }

    /// Claims a script element: true where it is one and was not started
    /// before, and from then on it is.
    pub fn op_script_try_start_inner(&mut self, nid: NodeId) -> (r: bool)
        requires
            old(self).wf(),
        ensures
            final(self).wf(),
            r == old(self).claimable(nid),
            final(self).already_started_scripts@ == (if old(self).holds_script(nid) {
                old(self).already_started_scripts@.insert(nid)
            } else {
                old(self).already_started_scripts@
            }),
            *final(self) == (RuntimeState {
                already_started_scripts: final(self).already_started_scripts,
                ..*old(self)
            }),
    {
        let script: bool = match &self.dom {
            Some(dom) => node_is_script(dom, nid),
            None => false,
        };
        if script {
            self.already_started_scripts.insert(nid)
        } else {
            false
        }
    }

    /// `nid` is a script element of the page's document.
    pub open spec fn holds_script(self, nid: NodeId) -> bool {
        match self.dom {
            Some(dom) => is_script(dom, nid),
            None => false,
        }
    }

    /// `nid` is a script element of the page's document and not started yet.
    pub open spec fn claimable(self, nid: NodeId) -> bool {
        self.holds_script(nid) && !self.already_started_scripts@.contains(nid)
    }

    /// Marks as started every script at and under `root`, template contents
    /// included.
    pub fn mark_script_subtree_started(&mut self, root: NodeId)
        requires
            old(self).wf(),
        ensures
            final(self).wf(),
            final(self).already_started_scripts@ == (match old(self).dom {
                Some(dom) => old(self).already_started_scripts@.union(
                    scripts_under(dom, root).to_set(),
                ),
                None => old(self).already_started_scripts@,
            }),
            *final(self) == (RuntimeState {
                already_started_scripts: final(self).already_started_scripts,
                ..*old(self)
            }),
    {
        let scripts: Vec<NodeId> = match &self.dom {
            Some(dom) => script_nodes_including_template_contents(dom, root),
            None => {
                return ;
            },
        };
        self.already_started_scripts.extend(&scripts);
    }

    /// The started scripts in ascending order, to outlive the runtime with the
    /// document.
    pub fn started_script_ids(&self) -> (r: Vec<NodeId>)
        requires
            self.wf(),
        ensures
            crate::dom::scripts::ascending(r@),
            r@.to_set() == self.already_started_scripts@,
    {
        self.already_started_scripts.sorted()
    }

    /// Marks as started those of `ids` that are script elements of the
    /// document.
    pub fn restore_started_script_ids(&mut self, ids: &Vec<NodeId>)
        requires
            old(self).wf(),
        ensures
            final(self).wf(),
            forall|x: NodeId| #[trigger]
                final(self).already_started_scripts@.contains(x) <==> (
                old(self).already_started_scripts@.contains(x) || (ids@.contains(x) && old(
                    self,
                ).holds_script(x))),
            *final(self) == (RuntimeState {
                already_started_scripts: final(self).already_started_scripts,
                ..*old(self)
            }),
    {
        let mut i: usize = 0;
        while i < ids.len()
            invariant
                self.wf(),
                i <= ids@.len(),
                self.dom == old(self).dom,
                *self == (RuntimeState {
                    already_started_scripts: self.already_started_scripts,
                    ..*old(self)
                }),
                forall|x: NodeId| #[trigger]
                    self.already_started_scripts@.contains(x) <==> (
                    old(self).already_started_scripts@.contains(x) || (ids@.take(
                        i as int,
                    ).contains(x) && old(self).holds_script(x))),
            decreases ids@.len() - i,
        {
            let ghost before: Set<NodeId> = self.already_started_scripts@;
            self.op_script_mark_started_inner(ids[i]);
            proof {
                let a: Seq<NodeId> = ids@.take(i as int);
                let b: Seq<NodeId> = ids@.take(i + 1);
                assert forall|x: NodeId| #[trigger]
                    b.contains(x) == (a.contains(x) || x == ids@[i as int]) by {
                    if a.contains(x) {
                        let k: int = choose|k: int| 0 <= k < a.len() && a[k] == x;
                        assert(b[k] == x);
                    }
                    assert(b[i as int] == ids@[i as int]);
                    if b.contains(x) && x != ids@[i as int] {
                        let k: int = choose|k: int| 0 <= k < b.len() && b[k] == x;
                        assert(a[k] == x);
                    }
                }
                assert forall|x: NodeId| #[trigger]
                    self.already_started_scripts@.contains(x) <==> (
                    old(self).already_started_scripts@.contains(x) || (b.contains(x) && old(
                        self,
                    ).holds_script(x))) by {
                    assert(before.contains(x) <==> (
                    old(self).already_started_scripts@.contains(x) || (a.contains(x) && old(
                        self,
                    ).holds_script(x))));
                    assert(b.contains(x) == (a.contains(x) || x == ids@[i as int]));
                }
            }
            i = i + 1;
        }
        assert(ids@.take(i as int) =~= ids@);
    }
}

/// The state after a command with this effect on the rendered document.
pub open spec fn after_impact(state: RuntimeState, impact: RenderMutationImpact) -> RuntimeState {
    if impact.connected && impact.actual_change {
        RuntimeState { activity_generation: state.activity_generation.wrapping_add(1), ..state }
    } else {
        state
    }
}

/// Exporting the started scripts and restoring them onto a page with the same
/// document and none started gives back those that are script elements.
pub proof fn started_scripts_survive_suspension(
    before: RuntimeState,
    exported: Seq<NodeId>,
    after: RuntimeState,
)
    requires
        exported.to_set() == before.already_started_scripts@,
        forall|x: NodeId|
            before.already_started_scripts@.contains(x) ==> before.holds_script(x),
        forall|x: NodeId| #[trigger]
            after.already_started_scripts@.contains(x) <==> exported.contains(x)
                && before.holds_script(x),
    ensures
        after.already_started_scripts@ == before.already_started_scripts@,
{
    assert forall|x: NodeId| #[trigger]
        after.already_started_scripts@.contains(x) == before.already_started_scripts@.contains(
        x,
    ) by {
        assert(exported.to_set().contains(x) == exported.contains(x));
    }
    assert(after.already_started_scripts@ =~= before.already_started_scripts@);
}

/// A claim of a script succeeds at most once: once the element counts as
/// started no claim of it succeeds, and claims of other elements are as before.
pub proof fn script_is_claimed_once(before: RuntimeState, after: RuntimeState, nid: NodeId)
    requires
        after.dom == before.dom,
        after.already_started_scripts@ == before.already_started_scripts@.insert(nid),
    ensures
        !after.claimable(nid),
        forall|x: NodeId| x != nid ==> after.claimable(x) == #[trigger] before.claimable(x),
{
}

/// The kind of a shadow root.
#[derive(Clone, Copy, Debug, PartialEq, Eq, Structural)]
pub enum ShadowRootMode {
    Open,
    Closed,
}

/// What came of attaching a shadow root.
#[derive(Clone, Copy, Debug, PartialEq, Eq, Structural)]
pub enum ShadowAttach {
    /// The new root.
    Attached(NodeId),
    /// The host has a shadow root already.
    HostAlreadyHasShadowRoot,
    /// No shadow root can be attached to the host.
    Refused,
}

/// The mode that a name stands for.
pub open spec fn mode_named(mode: Seq<char>) -> Option<ShadowRootMode> {
    if mode == "open"@ {
        Some(ShadowRootMode::Open)
    } else if mode == "closed"@ {
        Some(ShadowRootMode::Closed)
    } else {
        None
    }
}

/// The mode that a name stands for; any name but `open` and `closed` is none.
pub fn shadow_mode(mode: &str) -> (r: Option<ShadowRootMode>)
    ensures
        r == mode_named(mode@),
{
    if same_text(mode, "open") {
        Some(ShadowRootMode::Open)
    } else if same_text(mode, "closed") {
        Some(ShadowRootMode::Closed)
    } else {
        None
    }
}

/// The low 32 bits of `id` as a signed number.
pub open spec fn low_signed(id: NodeId) -> int {
    let m: int = id as int % 0x1_0000_0000;
    if m < 0x8000_0000 {
        m
    } else {
        m - 0x1_0000_0000
    }
}

/// The low 32 bits of `id` as a signed number.
pub fn to_i32(id: NodeId) -> (r: i32)
    ensures
        r == low_signed(id),
{
    let m: u64 = id % 0x1_0000_0000;
    if m < 0x8000_0000 {
        m as i32
    } else {
        (m as i64 - 0x1_0000_0000) as i32
    }
}

/// The mode of the shadow root to attach. Without a document, or with a mode
/// that is none, nothing is attached and the reply is -1.
pub fn op_shadow_attach_inner(state: &RuntimeState, mode: &str) -> (r: Result<ShadowRootMode, i32>)
    ensures
        match r {
            Ok(m) => state.dom is Some && mode_named(mode@) == Some(m),
            Err(reply) => reply == -1 && (state.dom is None || mode_named(mode@) is None),
        },
{
    match shadow_mode(mode) {
        Some(m) => {
            if state.dom.is_some() {
                Ok(m)
            } else {
                Err(-1)
            }
        },
        None => Err(-1),
    }
}

/// The reply to a request for a shadow root, given what came of it.
pub fn shadow_attach_reply(outcome: ShadowAttach) -> (r: i32)
    ensures
        r == (match outcome {
            ShadowAttach::Attached(root) => low_signed(root),
            ShadowAttach::HostAlreadyHasShadowRoot => -2,
            ShadowAttach::Refused => -1,
        }),
        outcome matches ShadowAttach::Attached(root) && root < 0x8000_0000 ==> r
            == outcome->Attached_0,
{
    match outcome {
        ShadowAttach::Attached(root) => to_i32(root),
        ShadowAttach::HostAlreadyHasShadowRoot => -2,
        ShadowAttach::Refused => -1,
    }
}

/// The name of a mode.
pub open spec fn mode_text(mode: ShadowRootMode) -> Seq<char> {
    match mode {
        ShadowRootMode::Open => "open"@,
        ShadowRootMode::Closed => "closed"@,
    }
}

/// A host's shadow root as its identity, a NUL and its mode; the empty text
/// where it has none.
pub fn op_shadow_root_info_inner(shadow: Option<(NodeId, ShadowRootMode)>) -> (r: String)
    ensures
        r@ == (match shadow {
            Some((id, mode)) => decimal(id as nat) + "\0"@ + mode_text(mode),
            None => Seq::empty(),
        }),
{
    match shadow {
        Some((id, mode)) => {
            let mut r: String = write_decimal(id);
            r.append("\0");
            match mode {
                ShadowRootMode::Open => r.append("open"),
                ShadowRootMode::Closed => r.append("closed"),
            }
            r
        },
        None => String::new(),
    }
}

/// The activity generation steps on by one exactly where a command reaches the
/// connected document and changes something; nothing else of the page changes.
pub proof fn activity_counts_visible_changes(state: RuntimeState, impact: RenderMutationImpact)
    ensures
        impact.connected && impact.actual_change && state.activity_generation < u64::MAX
            ==> after_impact(state, impact).activity_generation == state.activity_generation + 1,
        !impact.connected || !impact.actual_change ==> after_impact(state, impact) == state,
        (RuntimeState {
            activity_generation: state.activity_generation,
            ..after_impact(state, impact)
        }) == state,
{
}

/// The modes of a shadow root go by their names, and no other name is one.
pub proof fn shadow_modes_go_by_their_names(mode: ShadowRootMode, name: Seq<char>)
    ensures
        mode_named(mode_text(mode)) == Some(mode),
        mode_text(ShadowRootMode::Open) == "open"@,
        mode_text(ShadowRootMode::Closed) == "closed"@,
        mode_named(name) == Some(mode) ==> name == mode_text(mode),
        name != "open"@ && name != "closed"@ ==> mode_named(name) is None,
{
    reveal_strlit("open");
    reveal_strlit("closed");
    assert("open"@.len() == 4 && "closed"@.len() == 6);
}

/// The low bits of an identity are the number of 32 bits with a sign that
/// differs from it by a multiple of two to the 32nd; a small identity is told
/// as it is.
pub proof fn low_bits_are_congruent(id: NodeId)
    ensures
        -0x8000_0000 <= low_signed(id) < 0x8000_0000,
        (id as int - low_signed(id)) % 0x1_0000_0000 == 0,
        id < 0x8000_0000 ==> low_signed(id) == id,
{
}

/// A script can be claimed where it is a script of the document and was not
/// started; without a document there is none.
pub proof fn claims_are_for_scripts_not_started(state: RuntimeState, nid: NodeId)
    ensures
        state.dom is None ==> !state.holds_script(nid) && !state.claimable(nid),
        state.claimable(nid) ==> state.holds_script(nid) && !state.already_started_scripts@.contains(
            nid,
        ),
        state.holds_script(nid) && !state.already_started_scripts@.contains(nid)
            ==> state.claimable(nid),
        state.dom matches Some(dom) ==> state.holds_script(nid) == is_script(dom, nid),
{
}

/// A page on which nothing has happened is at its URL, in UTF-8, without a
/// document, a title or a referrer; nothing is pending, blocked, intercepted or
/// kept, and all counts are at zero.
pub proof fn blank_pages_hold_nothing(state: RuntimeState, url: Seq<char>)
    requires
        state.blank(url),
    ensures
        state.url@ == url,
        state.encoding@ == "UTF-8"@,
        state.dom is None && state.title@.len() == 0 && state.referrer@.len() == 0,
        state.pending_navigation is None && state.pending_binding_calls@.len() == 0,
        state.blocked_urls@.len() == 0 && !state.intercept_enabled,
        state.network_response_bodies@.len() == 0 && state.js_network_events@.len() == 0
            && state.fetched_urls@.len() == 0,
        state.intercept_counter == 0 && state.network_response_body_counter == 0
            && state.activity_generation == 0 && state.document_generation == 0,
        forall|id: NodeId| !state.already_started_scripts@.contains(id),
{
}

} // verus!
