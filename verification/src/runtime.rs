//! The runtime of one page: its state, the objects that the automation side
//! holds, and the host side of its event loop.

use vstd::prelude::*;

use crate::dom::tree::{DomTree, NodeId};
use crate::fetch::headers::pairs;
use crate::fetch::reply::{reply_text, FetchOutcome, FetchReply};
use crate::fetch::store::{
    apply_fetch_outcome, bodies, bodies_after, body_view, event_of, fetch_id, newest,
    MAX_JS_NETWORK_EVENTS,
};
use crate::host::HostLoop;
use crate::module::Referrers;
use crate::remote::{ObjectStore, ObjectsView};
use crate::state::{JsNetworkEvent, RuntimeState, StoredNetworkResponseBody};
use crate::text::{opt_text, same_text, texts};
use crate::urls::{parse_parts, parsed_url};

verus! {

/// The runtime of one page.
pub struct JsRuntime {
    pub state: RuntimeState,
    pub objects: ObjectStore,
    pub host: HostLoop,
    pub inline_modules: u64,
    pub referrers: Referrers,
}

/// What a page's promise for a request comes to.
pub enum FetchSettlement {
    /// No promise waits for it.
    Ignored,
    /// It is fulfilled with the reply.
    Resolve(String),
    /// It is rejected with the error.
    Reject(String),
}

/// The body that is stored for a request, the newest where there are more.
pub open spec fn stored_body(
    all: Seq<(Seq<char>, Seq<char>, bool)>,
    id: Seq<char>,
) -> Option<(Seq<char>, bool)>
    decreases all.len(),
{
    if all.len() == 0 {
        None
    } else if all.last().0 == id {
        Some((all.last().1, all.last().2))
    } else {
        stored_body(all.drop_last(), id)
    }
}

/// A body over a scalar sequence.
pub open spec fn opt_body(b: Option<StoredNetworkResponseBody>) -> Option<(Seq<char>, bool)> {
    match b {
        Some(s) => Some((s.body@, s.base64_encoded)),
        None => None,
    }
}

impl JsRuntime {
    /// The state and the event loop are well formed.
    pub open spec fn wf(self) -> bool {
        self.state.wf() && self.host.wf()
    }

    /// A runtime at a URL on which nothing has happened yet.
    pub open spec fn fresh(self, url: Seq<char>) -> bool {
        &&& self.state.blank(url)
        &&& self.objects@ == (ObjectsView { counter: 0, entries: Seq::empty() })
        &&& self.host.empty()
        &&& self.inline_modules == 0
        &&& pairs(self.referrers.entries@) == Seq::<(Seq<char>, Seq<char>)>::empty()
    }

    /// A runtime at `about:blank`.
    pub fn new() -> (r: Self)
        ensures
            r.wf(),
            r.fresh("about:blank"@),
    {
        Self::with_base_url("about:blank")
    }

    /// A runtime at a URL.
    pub fn with_base_url(base_url: &str) -> (r: Self)
        ensures
            r.wf(),
            r.fresh(base_url@),
    {
        Self::with_base_url_and_proxy(base_url, None)
    }

    /// A runtime at a URL. Requests go through the proxy of the client that is
    /// installed later, so the one given here is not looked at.
    pub fn with_base_url_and_proxy(base_url: &str, _proxy_url: Option<String>) -> (r: Self)
        ensures
            r.wf(),
            r.fresh(base_url@),
    {
        let mut r: JsRuntime = JsRuntime {
            state: RuntimeState::new(),
            objects: ObjectStore::new(),
            host: HostLoop::new(),
            inline_modules: 0,
            referrers: Referrers::new(),
        };
        r.set_url(base_url);
        r
    }

    /// Installs a new document.
    pub fn set_dom(&mut self, dom: DomTree)
        requires
            old(self).wf(),
            dom.wf(),
        ensures
            final(self).wf(),
            final(self).state.already_started_scripts@ == Set::<NodeId>::empty(),
            final(self).state == (RuntimeState {
                dom: Some(dom),
                document_generation: old(self).state.document_generation.wrapping_add(1),
                activity_generation: 0,
                already_started_scripts: final(self).state.already_started_scripts,
                ..old(self).state
            }),
            *final(self) == (JsRuntime { state: final(self).state, ..*old(self) }),
    {
        self.state.set_dom(dom);
    }

    /// Takes the document out of the page.
    pub fn take_dom(&mut self) -> (r: Option<DomTree>)
        ensures
            r == old(self).state.dom,
            *final(self) == (JsRuntime {
                state: RuntimeState { dom: None, ..old(self).state },
                ..*old(self)
            }),
    {
        self.state.take_dom()
    }

    /// Sets the URL of the page.
    pub fn set_url(&mut self, url: &str)
        ensures
            final(self).state.url@ == url@,
            *final(self) == (JsRuntime {
                state: RuntimeState { url: final(self).state.url, ..old(self).state },
                ..*old(self)
            }),
    {
        if !same_text(self.state.url.as_str(), url) {
            self.state.url = url.to_owned();
        }
    }

    /// Sets the character encoding of the document.
    pub fn set_encoding(&mut self, encoding: &str)
        ensures
            final(self).state.encoding@ == encoding@,
            *final(self) == (JsRuntime {
                state: RuntimeState { encoding: final(self).state.encoding, ..old(self).state },
                ..*old(self)
            }),
    {
        self.state.encoding = encoding.to_owned();
    }

    /// Sets the title of the page.
    pub fn set_title(&mut self, title: &str)
        ensures
            final(self).state.title@ == title@,
            *final(self) == (JsRuntime {
                state: RuntimeState { title: final(self).state.title, ..old(self).state },
                ..*old(self)
            }),
    {
        self.state.title = title.to_owned();
    }

    /// Sets the URL of the document that led here.
    pub fn set_referrer(&mut self, referrer: &str)
        ensures
            final(self).state.referrer@ == referrer@,
            *final(self) == (JsRuntime {
                state: RuntimeState { referrer: final(self).state.referrer, ..old(self).state },
                ..*old(self)
            }),
    {
        self.state.referrer = referrer.to_owned();
    }

    /// Sets the patterns of URLs that are blocked.
    pub fn set_blocked_urls(&mut self, patterns: Vec<String>)
        ensures
            *final(self) == (JsRuntime {
                state: RuntimeState { blocked_urls: patterns, ..old(self).state },
                ..*old(self)
            }),
    {
        self.state.blocked_urls = patterns;
    }

    /// Switches interception on or off.
    pub fn set_intercept_enabled(&mut self, enabled: bool)
        ensures
            *final(self) == (JsRuntime {
                state: RuntimeState { intercept_enabled: enabled, ..old(self).state },
                ..*old(self)
            }),
    {
        self.state.intercept_enabled = enabled;
    }

    /// Takes the navigation that the page asked for.
    pub fn take_pending_navigation(&mut self) -> (r: Option<(String, String, String)>)
        ensures
            r == old(self).state.pending_navigation,
            *final(self) == (JsRuntime {
                state: RuntimeState { pending_navigation: None, ..old(self).state },
                ..*old(self)
            }),
    {
        self.state.pending_navigation.take()
    }

    /// Takes the binding calls that the page made, in order.
    pub fn take_pending_binding_calls(&mut self) -> (r: Vec<(String, String)>)
        ensures
            r == old(self).state.pending_binding_calls,
            final(self).state.pending_binding_calls@.len() == 0,
            *final(self) == (JsRuntime {
                state: RuntimeState {
                    pending_binding_calls: final(self).state.pending_binding_calls,
                    ..old(self).state
                },
                ..*old(self)
            }),
    {
        let mut calls: Vec<(String, String)> = Vec::new();
        core::mem::swap(&mut calls, &mut self.state.pending_binding_calls);
        calls
    }

    /// Takes the network events that are to be reported, in order.
    pub fn take_js_network_events(&mut self) -> (r: Vec<JsNetworkEvent>)
        ensures
            r == old(self).state.js_network_events,
            final(self).state.js_network_events@.len() == 0,
            *final(self) == (JsRuntime {
                state: RuntimeState {
                    js_network_events: final(self).state.js_network_events,
                    ..old(self).state
                },
                ..*old(self)
            }),
    {
        let mut events: Vec<JsNetworkEvent> = Vec::new();
        core::mem::swap(&mut events, &mut self.state.js_network_events);
        events
    }

    /// The URLs that the page asked for, in order.
    pub fn fetched_urls(&self) -> (r: Vec<String>)
        ensures
            texts(r@) == texts(self.state.fetched_urls@),
    {
        let urls: &Vec<String> = &self.state.fetched_urls;
        let mut out: Vec<String> = Vec::new();
        let mut i: usize = 0;
        while i < urls.len()
            invariant
                i <= urls@.len(),
                out@.len() == i,
                forall|j: int| 0 <= j < i ==> (#[trigger] out@[j])@ == urls@[j]@,
            decreases urls@.len() - i,
        {
            out.push(urls[i].as_str().to_owned());
            i = i + 1;
        }
        assert(texts(out@) =~= texts(urls@));
        out
    }

    /// Counts the changes of the rendered page.
    pub fn activity_generation(&self) -> (r: u64)
        ensures
            r == self.state.activity_generation,
    {
        self.state.activity_generation
    }

    /// The body that is stored for a request.
    pub fn get_network_response_body(&self, request_id: &str) -> (r: Option<
        StoredNetworkResponseBody,
    >)
        ensures
            opt_body(r) == stored_body(bodies(self.state.network_response_bodies@), request_id@),
    {
        let all: &Vec<(String, StoredNetworkResponseBody)> = &self.state.network_response_bodies;
        let ghost views = bodies(all@);
        let mut i: usize = all.len();
        assert(views.take(i as int) =~= views);
        while i > 0
            invariant
                i <= all@.len(),
                views == bodies(all@),
                views == bodies(self.state.network_response_bodies@),
                stored_body(views, request_id@) == stored_body(views.take(i as int), request_id@),
            decreases i,
        {
            assert(views.take(i as int).drop_last() =~= views.take(i - 1));
            assert(views.take(i as int).last() == body_view(all@[i - 1]));
            i = i - 1;
            if same_text(all[i].0.as_str(), request_id) {
                return Some(
                    StoredNetworkResponseBody {
                        body: all[i].1.body.as_str().to_owned(),
                        base64_encoded: all[i].1.base64_encoded,
                    },
                );
            }
        }
        None
    }

    /// Forgets the stored bodies.
    pub fn clear_network_response_bodies(&mut self)
        ensures
            final(self).state.network_response_bodies@.len() == 0,
            *final(self) == (JsRuntime {
                state: RuntimeState {
                    network_response_bodies: final(self).state.network_response_bodies,
                    ..old(self).state
                },
                ..*old(self)
            }),
    {
        self.state.network_response_bodies = Vec::new();
    }

    /// The started scripts in ascending order.
    pub fn started_script_ids(&self) -> (r: Vec<NodeId>)
        requires
            self.wf(),
        ensures
            crate::dom::scripts::ascending(r@),
            r@.to_set() == self.state.already_started_scripts@,
    {
        self.state.started_script_ids()
    }

    /// Marks as started those of `ids` that are script elements of the
    /// document.
    pub fn restore_started_script_ids(&mut self, ids: &Vec<NodeId>)
        requires
            old(self).wf(),
        ensures
            final(self).wf(),
            forall|x: NodeId| #[trigger]
                final(self).state.already_started_scripts@.contains(x) <==> (
                old(self).state.already_started_scripts@.contains(x) || (ids@.contains(x) && old(
                    self,
                ).state.holds_script(x))),
            *final(self) == (JsRuntime {
                state: RuntimeState {
                    already_started_scripts: final(self).state.already_started_scripts,
                    ..old(self).state
                },
                ..*old(self)
            }),
    {
        self.state.restore_started_script_ids(ids);
    }

    /// The URL whose cookies the page reads and writes: its own, where there
    /// is a jar and the URL is one.
    pub fn cookie_url(&self, has_jar: bool) -> (r: Option<String>)
        ensures
            opt_text(r) == (if has_jar {
                match parsed_url(self.state.url@) {
                    Some(p) => Some(p.href),
                    None => None,
                }
            } else {
                None
            }),
            r is Some <==> has_jar && parsed_url(self.state.url@) is Some,
            r matches Some(href) ==> href@ == (parsed_url(self.state.url@)->0).href,
    {
        if !has_jar {
            return None;
        }
        match parse_parts(self.state.url.as_str()) {
            Some(p) => Some(p.href),
            None => None,
        }
    }

    /// Ends a request that the network side answered: what its promise comes
    /// to. An answer that no promise waits for changes nothing.
    pub fn complete_fetch(
        &mut self,
        id: u64,
        result: Result<FetchOutcome, String>,
        timestamp_nanos: u128,
        max_entries: usize,
        max_bytes: usize,
    ) -> (r: FetchSettlement)
        requires
            old(self).wf(),
            old(self).state.network_response_body_counter < u64::MAX,
        ensures
            final(self).wf(),
            forall|k: u64| #[trigger]
                final(self).host.fetches@.contains(k) <==> k != id && old(
                    self,
                ).host.fetches@.contains(k),
            *final(self) == (JsRuntime {
                state: final(self).state,
                host: HostLoop { fetches: final(self).host.fetches, ..old(self).host },
                ..*old(self)
            }),
            if !old(self).host.fetches@.contains(id) {
                r is Ignored && *final(self) == *old(self)
            } else {
                match result {
                    Err(e) => r == FetchSettlement::Reject(e) && final(self).state == old(
                        self,
                    ).state,
                    Ok(outcome) => match outcome@.1 {
                        None => (r matches FetchSettlement::Resolve(s) && s@ == reply_text(
                            outcome@.0,
                        )) && final(self).state == old(self).state,
                        Some(store) => {
                            let rid: Seq<char> = fetch_id(
                                old(self).state.network_response_body_counter,
                            );
                            &&& r matches FetchSettlement::Resolve(s) && s@ == reply_text(
                                FetchReply { request_id: Some(rid), ..outcome@.0 },
                            )
                            &&& bodies(final(self).state.network_response_bodies@) == bodies_after(
                                bodies(old(self).state.network_response_bodies@),
                                rid,
                                store,
                                max_entries,
                                max_bytes,
                            )
                            &&& exists|e: JsNetworkEvent| #[trigger]
                                event_of(e, rid, store, timestamp_nanos)
                                    && final(self).state.js_network_events@ == newest(
                                    old(self).state.js_network_events@.push(e),
                                    MAX_JS_NETWORK_EVENTS as nat,
                                )
                            &&& final(self).state == (RuntimeState {
                                network_response_body_counter: (old(
                                    self,
                                ).state.network_response_body_counter + 1) as u64,
                                network_response_bodies: final(self).state.network_response_bodies,
                                js_network_events: final(self).state.js_network_events,
                                ..old(self).state
                            })
                        },
                    },
                }
            },
            r is Ignored <==> !old(self).host.fetches@.contains(id),
            r is Reject ==> result is Err,
            r is Resolve ==> result is Ok,
    {
        if !self.host.take_fetch(id) {
            return FetchSettlement::Ignored;
        }
        match result {
            Ok(outcome) => {
                let json: String = apply_fetch_outcome(
                    &mut self.state,
                    outcome,
                    timestamp_nanos,
                    max_entries,
                    max_bytes,
                );
                FetchSettlement::Resolve(json)
            },
            Err(e) => FetchSettlement::Reject(e),
        }
    }
}

impl Default for JsRuntime {
    fn default() -> (r: Self)
        ensures
            r.wf(),
            r.fresh("about:blank"@),
    {
        JsRuntime::new()
    }
}

/// A body that is stored is read back under the id that its reply names; while
/// there is room, every older body stays.
pub proof fn stored_bodies_are_read_back(
    before: Seq<(Seq<char>, Seq<char>, bool)>,
    id: Seq<char>,
    store: crate::fetch::reply::StoreView,
    max_entries: usize,
    max_bytes: usize,
)
    requires
        max_entries > 0,
        max_bytes > 0,
        store.body_len <= max_bytes,
    ensures
        stored_body(bodies_after(before, id, store, max_entries, max_bytes), id) == Some(
            (store.body, false),
        ),
        before.len() < max_entries ==> forall|other: Seq<char>|
            other != id ==> #[trigger] stored_body(
                bodies_after(before, id, store, max_entries, max_bytes),
                other,
            ) == stored_body(before, other),
{
    let all: Seq<(Seq<char>, Seq<char>, bool)> = before.push((id, store.body, false));
    assert(all.drop_last() =~= before);
    let kept: Seq<(Seq<char>, Seq<char>, bool)> = newest(all, max_entries as nat);
    assert(kept.last() == (id, store.body, false));
}

/// The body of a request is the newest that is stored under its id; without
/// one there is none.
pub proof fn newest_body_is_read(all: Seq<(Seq<char>, Seq<char>, bool)>, id: Seq<char>, i: int)
    ensures
        0 <= i < all.len() && all[i].0 == id && (forall|j: int|
            i < j < all.len() ==> (#[trigger] all[j]).0 != id) ==> stored_body(all, id) == Some(
            (all[i].1, all[i].2),
        ),
        (forall|j: int| 0 <= j < all.len() ==> (#[trigger] all[j]).0 != id) ==> stored_body(all, id)
            is None,
    decreases all.len(),
{
    if all.len() > 0 {
        let front: Seq<(Seq<char>, Seq<char>, bool)> = all.drop_last();
        newest_body_is_read(front, id, i);
        if 0 <= i < all.len() - 1 && all[i].0 == id && (forall|j: int|
            i < j < all.len() ==> (#[trigger] all[j]).0 != id) {
            assert(all[all.len() - 1].0 != id);
            assert forall|j: int| i < j < front.len() implies (#[trigger] front[j]).0 != id by {
                assert(all[j].0 != id);
            }
        }
        if forall|j: int| 0 <= j < all.len() ==> (#[trigger] all[j]).0 != id {
            assert(all[all.len() - 1].0 != id);
            assert forall|j: int| 0 <= j < front.len() implies (#[trigger] front[j]).0 != id by {
                assert(all[j].0 != id);
            }
        }
    }
}

} // verus!
