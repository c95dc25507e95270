//! The start of a request and the record of its end on the page.

use vstd::prelude::*;

use crate::fetch::headers::pairs;
use crate::fetch::policy::{
    address_in_question, address_to_check, blocked_by, is_blocked, refusal, refusal_message,
    validate_fetch_url,
};
use crate::fetch::reply::{
    blocked_reply, reply_text, write_reply, FetchOutcome, FetchReply, ReplyView,
    StoreView,
};
use crate::number::{
    decimal, decimal_round_trip, parse_decimal, parsed_decimal, write_decimal,
};
use crate::state::{JsNetworkEvent, RuntimeState, StoredNetworkResponseBody};
use crate::text::{opt_str, opt_text, texts};
use crate::urls::{parse_parts, parsed_url, HostKind, UrlParts};

verus! {

/// A request as page script made it.
pub struct FetchRequest<S> {
    pub url: S,
    pub method: S,
    pub headers_json: S,
    pub body: S,
    pub origin: S,
    pub mode: S,
    pub credentials: S,
}

impl FetchRequest<String> {
    /// The request over scalar sequences.
    pub open spec fn view(self) -> FetchRequest<Seq<char>> {
        FetchRequest {
            url: self.url@,
            method: self.method@,
            headers_json: self.headers_json@,
            body: self.body@,
            origin: self.origin@,
            mode: self.mode@,
            credentials: self.credentials@,
        }
    }
}

/// A request that is on its way. `intercept` is its identity towards whoever
/// intercepts requests, `private_network` the leave to use the private
/// network, and `stealth` says whether it goes out through the stealth client.
pub struct FetchJob<S> {
    pub request: FetchRequest<S>,
    pub intercept: Option<S>,
    pub private_network: bool,
    pub stealth: bool,
}

impl FetchJob<String> {
    /// The job over scalar sequences.
    pub open spec fn view(self) -> FetchJob<Seq<char>> {
        FetchJob {
            request: self.request@,
            intercept: opt_text(self.intercept),
            private_network: self.private_network,
            stealth: self.stealth,
        }
    }
}

/// How a request starts out.
pub enum FetchStart {
    /// It is answered at once.
    Immediate(FetchOutcome),
    /// It goes out.
    Pending(FetchJob<String>),
}

/// What the network side of the page offers a request.
pub struct NetworkSide {
    /// The leave to use the private network.
    pub private_network: bool,
    /// The standing of the target, where it is an address.
    pub address_forbidden: bool,
    /// Whether anybody listens for intercepted requests.
    pub intercept_channel: bool,
    /// Whether requests go out through the stealth client.
    pub stealth: bool,
}

/// The address whose standing a request's start asks for.
pub open spec fn request_address(url: Seq<char>, private_network: bool) -> Option<Seq<char>> {
    match parsed_url(url) {
        Some(p) => address_in_question(p, private_network),
        None => None,
    }
}

/// The address whose standing a request's start asks for.
pub fn request_address_to_check(url: &str, private_network: bool) -> (r: Option<String>)
    ensures
        opt_text(r) == request_address(url@, private_network),
{
    match parse_parts(url) {
        Some(p) => address_to_check(&p, private_network),
        None => None,
    }
}

/// Why a request is refused at its start, where its URL parses and is refused.
pub open spec fn start_refusal(
    target: Option<UrlParts<Seq<char>>>,
    side: NetworkSide,
) -> Option<Seq<char>> {
    match target {
        Some(p) => refusal_message(refusal(p, side.private_network, side.address_forbidden)),
        None => None,
    }
}

/// The reply to a request that is answered at its start: a blocked pattern
/// covers it, or its target is refused.
pub open spec fn immediate_reply(
    patterns: Seq<Seq<char>>,
    url: Seq<char>,
    target: Option<UrlParts<Seq<char>>>,
    side: NetworkSide,
) -> Option<ReplyView> {
    if blocked_by(patterns, url) {
        Some(blocked_reply(url, None))
    } else {
        match start_refusal(target, side) {
            Some(e) => Some(blocked_reply(url, Some(e))),
            None => None,
        }
    }
}

/// The identity of the next intercepted request.
pub open spec fn intercept_id(counter: u64) -> Seq<char> {
    "intercept-"@ + decimal(counter as nat + 1)
}

fn numbered(prefix: &str, n: u64) -> (r: String)
    ensures
        r@ == prefix@ + decimal(n as nat),
{
    let mut r: String = prefix.to_owned();
    let digits: String = write_decimal(n);
    r.append(digits.as_str());
    r
}

/// Starts a request, given what its URL parses to. A request that a blocked
/// pattern covers leaves no trace; any other is noted by its URL, and one that
/// goes out while interception is on gets the next number.
pub fn start_parsed_fetch(
    gs: &mut RuntimeState,
    request: FetchRequest<String>,
    target: &Option<UrlParts<String>>,
    side: &NetworkSide,
) -> (r: FetchStart)
    requires
        old(gs).intercept_counter < u64::MAX,
    ensures
        ({
            let parts: Option<UrlParts<Seq<char>>> = crate::urls::opt_parts(*target);
            let patterns: Seq<Seq<char>> = texts(old(gs).blocked_urls@);
            let immediate: Option<ReplyView> = immediate_reply(
                patterns,
                request.url@,
                parts,
                *side,
            );
            &&& match r {
                FetchStart::Immediate(o) => immediate is Some && o@ == (
                    immediate->0,
                    None::<StoreView>,
                ),
                FetchStart::Pending(job) => {
                    &&& immediate is None
                    &&& job@ == (FetchJob {
                        request: request@,
                        intercept: if old(gs).intercept_enabled && side.intercept_channel {
                            Some(intercept_id(old(gs).intercept_counter))
                        } else {
                            None
                        },
                        private_network: side.private_network,
                        stealth: side.stealth,
                    })
                },
            }
            &&& texts(final(gs).fetched_urls@) == (if blocked_by(patterns, request.url@) {
                texts(old(gs).fetched_urls@)
            } else {
                texts(old(gs).fetched_urls@).push(request.url@)
            })
            &&& *final(gs) == (RuntimeState {
                fetched_urls: final(gs).fetched_urls,
                intercept_counter: if immediate is None && old(gs).intercept_enabled {
                    (old(gs).intercept_counter + 1) as u64
                } else {
                    old(gs).intercept_counter
                },
                ..*old(gs)
            })
        }),
        r matches FetchStart::Pending(job) ==> {
            &&& job@.request == request@
            &&& !blocked_by(texts(old(gs).blocked_urls@), request.url@)
            &&& job.intercept is Some <==> old(gs).intercept_enabled && side.intercept_channel
            &&& job.private_network == side.private_network && job.stealth == side.stealth
        },
        blocked_by(texts(old(gs).blocked_urls@), request.url@) ==> final(gs).intercept_counter
            == old(gs).intercept_counter && texts(final(gs).fetched_urls@) == texts(
            old(gs).fetched_urls@,
        ),
{
    if is_blocked(&gs.blocked_urls, request.url.as_str()) {
        return FetchStart::Immediate(FetchOutcome::blocked(request.url.as_str(), None));
    }
    gs.fetched_urls.push(request.url.as_str().to_owned());
    assert(texts(gs.fetched_urls@) =~= texts(old(gs).fetched_urls@).push(request.url@));
    match target {
        Some(p) => match validate_fetch_url(p, side.private_network, side.address_forbidden) {
            Ok(_) => {},
            Err(e) => {
                return FetchStart::Immediate(
                    FetchOutcome::blocked(request.url.as_str(), Some(e)),
                );
            },
        },
        None => {},
    }
    let intercept: Option<String> = if gs.intercept_enabled {
        gs.intercept_counter = gs.intercept_counter + 1;
        if side.intercept_channel {
            Some(numbered("intercept-", gs.intercept_counter))
        } else {
            None
        }
    } else {
        None
    };
    FetchStart::Pending(
        FetchJob {
            request,
            intercept,
            private_network: side.private_network,
            stealth: side.stealth,
        },
    )
}

/// Starts a request of page script.
pub fn start_fetch(gs: &mut RuntimeState, request: FetchRequest<String>, side: &NetworkSide) -> (r:
    FetchStart)
    requires
        old(gs).intercept_counter < u64::MAX,
    ensures
        ({
            let immediate: Option<ReplyView> = immediate_reply(
                texts(old(gs).blocked_urls@),
                request.url@,
                parsed_url(request.url@),
                *side,
            );
            match r {
                FetchStart::Immediate(o) => immediate is Some && o@ == (
                    immediate->0,
                    None::<StoreView>,
                ),
                FetchStart::Pending(job) => immediate is None && job@.request == request@
                    && job@.private_network == side.private_network && job@.stealth == side.stealth
                    && job@.intercept == (if old(gs).intercept_enabled && side.intercept_channel {
                    Some(intercept_id(old(gs).intercept_counter))
                } else {
                    None
                }),
            }
        }),
        texts(final(gs).fetched_urls@) == (if blocked_by(
            texts(old(gs).blocked_urls@),
            request.url@,
        ) {
            texts(old(gs).fetched_urls@)
        } else {
            texts(old(gs).fetched_urls@).push(request.url@)
        }),
        final(gs).intercept_counter == (if r is Pending && old(gs).intercept_enabled {
            old(gs).intercept_counter + 1
        } else {
            old(gs).intercept_counter as int
        }),
        *final(gs) == (RuntimeState {
            fetched_urls: final(gs).fetched_urls,
            intercept_counter: final(gs).intercept_counter,
            ..*old(gs)
        }),
{
    let target: Option<UrlParts<String>> = parse_parts(request.url.as_str());
    start_parsed_fetch(gs, request, &target, side)
}

/// The number of an environment setting, where it is one.
pub open spec fn setting(value: Option<Seq<char>>, max: nat, default: nat) -> nat {
    match value {
        Some(v) => match parsed_decimal(v, max) {
            Some(n) => n,
            None => default,
        },
        None => default,
    }
}

fn read_setting(value: Option<&str>, max: u64, default: u64) -> (r: u64)
    requires
        default <= max,
    ensures
        r == setting(opt_str(value), max as nat, default as nat),
        r <= max,
{
    match value {
        Some(v) => match parse_decimal(v, max) {
            Some(n) => n,
            None => default,
        },
        None => default,
    }
}

/// The number of response bodies that are kept, from its setting.
pub fn response_body_entry_limit(value: Option<&str>) -> (r: usize)
    ensures
        r == setting(opt_str(value), usize::MAX as nat, 128),
{
    read_setting(value, usize::MAX as u64, 128) as usize
}

/// The size in bytes up to which a response body is kept, from its setting.
pub fn response_body_byte_limit(value: Option<&str>) -> (r: usize)
    ensures
        r == setting(opt_str(value), usize::MAX as nat, 2_097_152),
{
    read_setting(value, usize::MAX as u64, 2_097_152) as usize
}

/// The time in milliseconds that a request may take, from its setting.
pub fn fetch_timeout(value: Option<&str>) -> (r: u64)
    ensures
        r == setting(opt_str(value), u64::MAX as nat, 30_000),
{
    read_setting(value, u64::MAX, 30_000)
}

/// The most network events that are kept for a report.
pub const MAX_JS_NETWORK_EVENTS: usize = 4096;

/// The identity under which a finished request is kept.
pub open spec fn fetch_id(counter: u64) -> Seq<char> {
    "fetch-"@ + decimal(counter as nat + 1)
}

/// The last `max` elements.
pub open spec fn newest<T>(s: Seq<T>, max: nat) -> Seq<T> {
    if s.len() > max {
        s.skip(s.len() - max)
    } else {
        s
    }
}

/// A stored body over scalar sequences.
pub open spec fn body_view(e: (String, StoredNetworkResponseBody)) -> (Seq<char>, Seq<char>, bool) {
    (e.0@, e.1.body@, e.1.base64_encoded)
}

/// The stored bodies over scalar sequences, the oldest first.
pub open spec fn bodies(v: Seq<(String, StoredNetworkResponseBody)>) -> Seq<
    (Seq<char>, Seq<char>, bool),
> {
    Seq::new(v.len(), |i: int| body_view(v[i]))
}

/// A body is kept: both limits are above zero, and it is within the size limit.
pub open spec fn keeps_body(store: StoreView, max_entries: usize, max_bytes: usize) -> bool {
    max_entries > 0 && max_bytes > 0 && store.body_len <= max_bytes
}

/// The stored bodies after one more: where it is kept, the oldest give way.
pub open spec fn bodies_after(
    before: Seq<(Seq<char>, Seq<char>, bool)>,
    id: Seq<char>,
    store: StoreView,
    max_entries: usize,
    max_bytes: usize,
) -> Seq<(Seq<char>, Seq<char>, bool)> {
    if keeps_body(store, max_entries, max_bytes) {
        newest(before.push((id, store.body, false)), max_entries as nat)
    } else {
        before
    }
}

/// `e` reports the request `id`.
pub open spec fn event_of(
    e: JsNetworkEvent,
    id: Seq<char>,
    store: StoreView,
    timestamp_nanos: u128,
) -> bool {
    &&& e.request_id@ == id
    &&& e.url@ == store.url
    &&& e.method@ == store.method
    &&& e.status == store.status
    &&& pairs(e.response_headers@) == store.response_headers
    &&& e.body_size == store.body_len
    &&& e.timestamp_nanos == timestamp_nanos
}

fn drop_oldest_bodies(v: &mut Vec<(String, StoredNetworkResponseBody)>, max: usize)
    ensures
        bodies(final(v)@) == newest(bodies(old(v)@), max as nat),
{
    let ghost before: Seq<(Seq<char>, Seq<char>, bool)> = bodies(v@);
    assert(before.skip(0) =~= before);
    while v.len() > max
        invariant
            v@.len() <= before.len(),
            v@.len() >= newest(before, max as nat).len(),
            bodies(v@) == before.skip(before.len() - v@.len()),
        decreases v@.len(),
    {
        let ghost now: Seq<(String, StoredNetworkResponseBody)> = v@;
        v.remove(0);
        assert(bodies(v@) =~= bodies(now).skip(1));
        assert(bodies(now).skip(1) =~= before.skip(before.len() - v@.len()));
    }
}

fn drop_oldest_events(v: &mut Vec<JsNetworkEvent>, max: usize)
    ensures
        final(v)@ == newest(old(v)@, max as nat),
{
    let ghost before: Seq<JsNetworkEvent> = v@;
    assert(before.skip(0) =~= before);
    while v.len() > max
        invariant
            v@.len() <= before.len(),
            v@.len() >= newest(before, max as nat).len(),
            v@ == before.skip(before.len() - v@.len()),
        decreases v@.len(),
    {
        let ghost now: Seq<JsNetworkEvent> = v@;
        v.remove(0);
        assert(v@ =~= now.skip(1));
        assert(now.skip(1) =~= before.skip(before.len() - v@.len()));
    }
}

/// The stored bodies stand under identities that were given out, each under one
/// of its own.
pub open spec fn well_kept(all: Seq<(Seq<char>, Seq<char>, bool)>, counter: u64) -> bool {
    &&& forall|i: int|
        0 <= i < all.len() ==> exists|k: u64| k < counter && (#[trigger] all[i]).0 == #[trigger] fetch_id(
            k,
        )
    &&& forall|i: int, j: int|
        0 <= i < j < all.len() ==> (#[trigger] all[i]).0 != (#[trigger] all[j]).0
}

proof fn fetch_ids_differ(a: u64, b: u64)
    requires
        fetch_id(a) == fetch_id(b),
        a < u64::MAX,
        b < u64::MAX,
    ensures
        a == b,
{
    let n: int = "fetch-"@.len() as int;
    let x: Seq<char> = decimal(a as nat + 1);
    let y: Seq<char> = decimal(b as nat + 1);
    assert(fetch_id(a).skip(n) =~= x);
    assert(fetch_id(b).skip(n) =~= y);
    decimal_round_trip(a as nat + 1, u64::MAX as nat);
    decimal_round_trip(b as nat + 1, u64::MAX as nat);
}

proof fn identities_stay_apart(
    before: Seq<(Seq<char>, Seq<char>, bool)>,
    counter: u64,
    store: StoreView,
    max_entries: usize,
    max_bytes: usize,
)
    requires
        counter < u64::MAX,
        well_kept(before, counter),
    ensures
        forall|i: int| 0 <= i < before.len() ==> (#[trigger] before[i]).0 != fetch_id(counter),
        well_kept(
            bodies_after(before, fetch_id(counter), store, max_entries, max_bytes),
            (counter + 1) as u64,
        ),
{
    let id: Seq<char> = fetch_id(counter);
    let all: Seq<(Seq<char>, Seq<char>, bool)> = before.push((id, store.body, false));
    let after: Seq<(Seq<char>, Seq<char>, bool)> = bodies_after(
        before,
        id,
        store,
        max_entries,
        max_bytes,
    );
    assert forall|i: int| 0 <= i < before.len() implies (#[trigger] before[i]).0 != id by {
        let k: u64 = choose|k: u64| k < counter && before[i].0 == #[trigger] fetch_id(k);
        if before[i].0 == id {
            fetch_ids_differ(k, counter);
        }
    }
    let gone: int = if keeps_body(store, max_entries, max_bytes) {
        all.len() - after.len()
    } else {
        0
    };
    assert forall|i: int| 0 <= i < after.len() implies #[trigger] after[i] == all[gone + i] by {
    }
    assert forall|i: int| 0 <= i < after.len() implies exists|k: u64|
        k < counter + 1 && (#[trigger] after[i]).0 == #[trigger] fetch_id(k) by {
        if gone + i < before.len() {
            assert(after[i] == before[gone + i]);
            let k: u64 = choose|k: u64| k < counter && before[gone + i].0 == #[trigger] fetch_id(k);
            assert(after[i].0 == fetch_id(k));
        } else {
            assert(after[i].0 == fetch_id(counter));
        }
    }
    assert forall|i: int, j: int| 0 <= i < j < after.len() implies (#[trigger] after[i]).0 != (
    #[trigger] after[j]).0 by {
        assert(after[i] == before[gone + i]);
        if gone + j < before.len() {
            assert(after[j] == before[gone + j]);
        }
    }
}

/// Records the end of a request on the page and writes its reply. A request
/// with something to keep gets the next number, its body is stored within the
/// limits, and an event reports it.
pub fn apply_fetch_outcome(
    gs: &mut RuntimeState,
    outcome: FetchOutcome,
    timestamp_nanos: u128,
    max_entries: usize,
    max_bytes: usize,
) -> (r: String)
    requires
        old(gs).wf(),
        old(gs).network_response_body_counter < u64::MAX,
    ensures
        final(gs).wf(),
        match outcome@.1 {
            Some(store) => {
                let id: Seq<char> = fetch_id(old(gs).network_response_body_counter);
                &&& r@ == reply_text(FetchReply { request_id: Some(id), ..outcome@.0 })
                &&& bodies(final(gs).network_response_bodies@) == bodies_after(
                    bodies(old(gs).network_response_bodies@),
                    id,
                    store,
                    max_entries,
                    max_bytes,
                )
                &&& exists|e: JsNetworkEvent| #[trigger]
                    event_of(e, id, store, timestamp_nanos) && final(gs).js_network_events@
                        == newest(old(gs).js_network_events@.push(e), MAX_JS_NETWORK_EVENTS as nat)
                &&& *final(gs) == (RuntimeState {
                    network_response_body_counter: (old(gs).network_response_body_counter
                        + 1) as u64,
                    network_response_bodies: final(gs).network_response_bodies,
                    js_network_events: final(gs).js_network_events,
                    ..*old(gs)
                })
            },
            None => r@ == reply_text(outcome@.0) && *final(gs) == *old(gs),
        },
{
    proof {
        if let Some(store) = outcome@.1 {
            identities_stay_apart(
                bodies(gs.network_response_bodies@),
                gs.network_response_body_counter,
                store,
                max_entries,
                max_bytes,
            );
        }
    }
    let FetchOutcome { reply, store } = outcome;
    match store {
        Some(s) => {
            gs.network_response_body_counter = gs.network_response_body_counter + 1;
            let id: String = numbered("fetch-", gs.network_response_body_counter);
            if max_entries > 0 && max_bytes > 0 && s.body_len <= max_bytes {
                gs.network_response_bodies.push(
                    (
                        id.as_str().to_owned(),
                        StoredNetworkResponseBody {
                            body: s.body.as_str().to_owned(),
                            base64_encoded: false,
                        },
                    ),
                );
                assert(bodies(gs.network_response_bodies@) =~= bodies(
                    old(gs).network_response_bodies@,
                ).push((id@, s.body@, false)));
                drop_oldest_bodies(&mut gs.network_response_bodies, max_entries);
            }
            let event: JsNetworkEvent = JsNetworkEvent {
                request_id: id.as_str().to_owned(),
                url: s.url,
                method: s.method,
                status: s.status,
                response_headers: s.response_headers,
                body_size: s.body_len,
                timestamp_nanos,
            };
            assert(event_of(event, id@, outcome@.1->0, timestamp_nanos));
            gs.js_network_events.push(event);
            drop_oldest_events(&mut gs.js_network_events, MAX_JS_NETWORK_EVENTS);
            let with_id: FetchReply<String, crate::state::Headers> = FetchReply {
                request_id: Some(id),
                ..reply
            };
            write_reply(&with_id)
        },
        None => write_reply(&reply),
    }
}

/// A finished request's body is found under its new identity exactly where the
/// limits let it be kept. Then it is the newest, no more than `max_entries`
/// are left, and it is the oldest that have gone; else the others stay as they
/// were. No identity stands twice, before or after. Of the events the newest
/// stay, up to the fixed number.
pub proof fn stored_bodies_keep_their_bounds(
    before: Seq<(Seq<char>, Seq<char>, bool)>,
    counter: u64,
    store: StoreView,
    max_entries: usize,
    max_bytes: usize,
    events: Seq<JsNetworkEvent>,
    event: JsNetworkEvent,
)
    requires
        counter < u64::MAX,
        well_kept(before, counter),
    ensures
        ({
            let id: Seq<char> = fetch_id(counter);
            let after: Seq<(Seq<char>, Seq<char>, bool)> = bodies_after(
                before,
                id,
                store,
                max_entries,
                max_bytes,
            );
            let told: Seq<JsNetworkEvent> = newest(
                events.push(event),
                MAX_JS_NETWORK_EVENTS as nat,
            );
            &&& (exists|i: int| 0 <= i < after.len() && (#[trigger] after[i]).0 == id)
                <==> keeps_body(store, max_entries, max_bytes)
            &&& if keeps_body(store, max_entries, max_bytes) {
                &&& after.last() == (id, store.body, false)
                &&& after.len() <= max_entries
                &&& after.is_suffix_of(before.push((id, store.body, false)))
                &&& before.len() < max_entries ==> after.drop_last() == before
            } else {
                after == before
            }
            &&& well_kept(after, (counter + 1) as u64)
            &&& told.len() <= MAX_JS_NETWORK_EVENTS
            &&& told.is_suffix_of(events.push(event))
            &&& told.last() == event
        }),
{
    let id: Seq<char> = fetch_id(counter);
    let all: Seq<(Seq<char>, Seq<char>, bool)> = before.push((id, store.body, false));
    let after: Seq<(Seq<char>, Seq<char>, bool)> = bodies_after(
        before,
        id,
        store,
        max_entries,
        max_bytes,
    );
    identities_stay_apart(before, counter, store, max_entries, max_bytes);
    if keeps_body(store, max_entries, max_bytes) {
        assert(after[after.len() - 1] == all.last());
        if before.len() < max_entries {
            assert(after.drop_last() =~= before);
        }
    }
}

/// Requests are numbered from one on, finished ones and intercepted ones each
/// by their own count, and no two of a kind share an identity.
pub proof fn requests_are_numbered(a: u64, b: u64)
    requires
        a < u64::MAX,
        b < u64::MAX,
    ensures
        fetch_id(a) == "fetch-"@ + decimal(a as nat + 1),
        intercept_id(a) == "intercept-"@ + decimal(a as nat + 1),
        a != b ==> fetch_id(a) != fetch_id(b),
        a != b ==> intercept_id(a) != intercept_id(b),
{
    if fetch_id(a) == fetch_id(b) {
        fetch_ids_differ(a, b);
    }
    if intercept_id(a) == intercept_id(b) {
        let n: int = "intercept-"@.len() as int;
        assert(intercept_id(a).skip(n) =~= decimal(a as nat + 1));
        assert(intercept_id(b).skip(n) =~= decimal(b as nat + 1));
        decimal_round_trip(a as nat + 1, u64::MAX as nat);
        decimal_round_trip(b as nat + 1, u64::MAX as nat);
    }
}

/// The newest of a list are its last elements, in order, as many as there is
/// room for; where all of them fit, none is left out.
pub proof fn newest_are_the_last<T>(s: Seq<T>, max: nat, i: int)
    ensures
        s.len() <= max ==> newest(s, max) == s,
        s.len() > max ==> newest(s, max).len() == max,
        s.len() > max && 0 <= i < max ==> newest(s, max)[i] == s[s.len() - max + i],
{
}

/// A body is kept behind the others where both limits are above zero and it is
/// no larger than its own; otherwise the bodies stay as they are.
pub proof fn bodies_are_kept_within_their_limits(
    before: Seq<(Seq<char>, Seq<char>, bool)>,
    id: Seq<char>,
    store: StoreView,
    max_entries: usize,
    max_bytes: usize,
)
    ensures
        ({
            let after: Seq<(Seq<char>, Seq<char>, bool)> = bodies_after(
                before,
                id,
                store,
                max_entries,
                max_bytes,
            );
            &&& max_entries > 0 && max_bytes > 0 && store.body_len <= max_bytes ==> after.len() > 0
                && after.last() == (id, store.body, false) && after.len() <= max_entries
            &&& max_entries > 0 && max_bytes > 0 && store.body_len <= max_bytes && before.len()
                < max_entries ==> after.drop_last() == before
            &&& max_entries == 0 || max_bytes == 0 || store.body_len > max_bytes ==> after == before
        }),
{
    let all: Seq<(Seq<char>, Seq<char>, bool)> = before.push((id, store.body, false));
    assert(all.drop_last() =~= before);
}

/// An event tells the request that was made and the response that it got.
pub proof fn events_tell_the_request(
    e: JsNetworkEvent,
    id: Seq<char>,
    store: StoreView,
    timestamp_nanos: u128,
)
    requires
        event_of(e, id, store, timestamp_nanos),
    ensures
        e.request_id@ == id,
        e.url@ == store.url,
        e.method@ == store.method,
        e.status == store.status,
        e.body_size == store.body_len,
        pairs(e.response_headers@) == store.response_headers,
        e.timestamp_nanos == timestamp_nanos,
{
}

/// The start of a request asks about the address that its URL names, where the
/// private network is closed to it and the URL is one of the web.
pub proof fn starts_ask_about_their_address(
    url: Seq<char>,
    p: UrlParts<Seq<char>>,
    ip: Seq<char>,
)
    requires
        parsed_url(url) == Some(p),
    ensures
        (p.scheme == "http"@ || p.scheme == "https"@) && (p.host == HostKind::Ipv4(ip) || p.host
            == HostKind::Ipv6(ip)) ==> request_address(url, false) == Some(ip),
        p.host is Domain || p.host is Absent ==> request_address(url, false) is None,
        request_address(url, true) is None,
{
}

} // verus!
