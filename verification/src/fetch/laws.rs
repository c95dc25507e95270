//! What holds of requests from their start to their reply, whatever the page,
//! the network and whoever intercepts them do.

use vstd::prelude::*;

use crate::fetch::headers::{
    lookup, lowered_into, mapped, names_of, put, put_then_lookup, text_before, unicode_lowered,
    HeaderView,
};
use crate::fetch::job::{
    body_step, checked_step, cors_message, final_step, hop_step, intercepted_step, job_step, launch_step,
    location_target, method_name, observed_method, observed_url, plan_step, preflight_step,
    redirect_step, response_step, rewrite_step, unsafe_header, AddressCheck, FetchStep,
    FetchStepView, InterceptResolution, PlanView, ResponseView, RunView,
};
use crate::fetch::policy::{
    address_in_question, blocked_by, cors_allows, credentials_allow, credentials_named,
    glob_matches, pattern_blocks, refusal, refusal_message, FetchCredentials,
};
use crate::fetch::store::{immediate_reply, setting, FetchJob, FetchRequest, NetworkSide};
use crate::number::decimal;
use crate::text::{
    contains_text, first_occurrence_is_least, has_suffix, joined, lowered, occurs_at,
};
use crate::urls::{joined_url, text_or, HostKind, UrlParts};

verus! {

/// A page may read a response that names its origin and lets credentials
/// through, in every credentials mode. Without credentials its origin alone is
/// enough, and so is the wildcard; with them neither is. A response that names
/// another origin is never readable.
pub proof fn responses_are_readable_by_the_origin_they_name(
    credentials: FetchCredentials,
    page: Seq<char>,
    named: Seq<char>,
    flag: Seq<char>,
)
    ensures
        named == page && flag == "true"@ ==> cors_allows(credentials, page, named, flag),
        credentials != FetchCredentials::Include && named == page ==> cors_allows(
            credentials,
            page,
            named,
            flag,
        ),
        credentials != FetchCredentials::Include && named == "*"@ ==> cors_allows(
            credentials,
            page,
            named,
            flag,
        ),
        credentials == FetchCredentials::Include && (named != page || flag != "true"@)
            ==> !cors_allows(credentials, page, named, flag),
        named != page && named != "*"@ ==> !cors_allows(credentials, page, named, flag),
{
}

/// The modes by their names: `omit` never lets cookies go along, `include`
/// always does, and any other name does so towards the page's own origin and
/// nowhere else.
pub proof fn cookies_go_where_the_mode_says(
    name: Seq<char>,
    page: Seq<char>,
    origin: Option<Seq<char>>,
)
    ensures
        name == "omit"@ ==> !credentials_allow(credentials_named(name), page, origin),
        name == "include"@ ==> credentials_allow(credentials_named(name), page, origin),
        name != "omit"@ && name != "include"@ ==> (credentials_allow(
            credentials_named(name),
            page,
            origin,
        ) <==> origin == Some(page)),
        credentials_named("include"@) == FetchCredentials::Include,
        credentials_named(name) == FetchCredentials::Include ==> name == "include"@,
{
    reveal_strlit("omit");
    reveal_strlit("include");
    assert("omit"@.len() != "include"@.len());
}

/// A block list covers a URL by the wildcard, by a pattern that stands in the
/// URL somewhere, and by a pattern that the URL matches; a list that does
/// neither lets it pass. One covering pattern is enough, wherever it stands in
/// the list, and an empty list covers nothing.
pub proof fn block_lists_cover_what_they_name(
    patterns: Seq<Seq<char>>,
    url: Seq<char>,
    before: Seq<char>,
    pattern: Seq<char>,
    after: Seq<char>,
    k: int,
)
    requires
        0 <= k < patterns.len() ==> patterns[k] == pattern,
    ensures
        patterns.len() == 0 ==> !blocked_by(patterns, url),
        0 <= k < patterns.len() && pattern == "*"@ ==> blocked_by(patterns, url),
        0 <= k < patterns.len() && url == before + pattern + after ==> blocked_by(patterns, url),
        0 <= k < patterns.len() && glob_matches(pattern, url) ==> blocked_by(patterns, url),
        blocked_by(patterns, url) ==> exists|i: int|
            0 <= i < patterns.len() && (patterns[i] == "*"@ || glob_matches(
                #[trigger] patterns[i],
                url,
            ) || exists|a: Seq<char>, b: Seq<char>| #[trigger] (a + patterns[i] + b) == url),
        blocked_by(patterns.push(pattern), url) <==> blocked_by(patterns, url) || pattern_blocks(
            pattern,
            url,
        ),
{
    if 0 <= k < patterns.len() {
        if url == before + pattern + after {
            let n: int = before.len() as int;
            assert(url.subrange(n, n + pattern.len()) =~= pattern);
            assert(occurs_at(url, pattern, n));
            first_occurrence_is_least(url, pattern, 0);
        }
        assert(pattern_blocks(patterns[k], url) ==> blocked_by(patterns, url));
    }
    if blocked_by(patterns, url) {
        let i: int = choose|i: int|
            0 <= i < patterns.len() && pattern_blocks(#[trigger] patterns[i], url);
        let p: Seq<char> = patterns[i];
        first_occurrence_is_least(url, p, 0);
        if contains_text(url, p) {
            let at: int = crate::text::first_occurrence(url, p, 0)->0;
            let a: Seq<char> = url.take(at);
            let b: Seq<char> = url.skip(at + p.len());
            assert(a + p + b =~= url);
        }
    }
    let more: Seq<Seq<char>> = patterns.push(pattern);
    assert(more[patterns.len() as int] == pattern);
    assert forall|i: int| 0 <= i < patterns.len() implies #[trigger] more[i] == patterns[i] by {
    }
    if blocked_by(patterns, url) {
        let i: int = choose|i: int|
            0 <= i < patterns.len() && pattern_blocks(#[trigger] patterns[i], url);
        assert(pattern_blocks(more[i], url));
    }
    if blocked_by(more, url) {
        let i: int = choose|i: int| 0 <= i < more.len() && pattern_blocks(#[trigger] more[i], url);
        if i < patterns.len() {
            assert(pattern_blocks(patterns[i], url));
        }
    }
}

/// A target may be fetched exactly where its scheme is `http`, `https` or
/// `file` and, for a network target without leave for the private network, its
/// host is neither a forbidden address nor the local host under any of its
/// names.
pub proof fn only_public_targets_are_open(
    p: UrlParts<Seq<char>>,
    private_network: bool,
    forbidden: bool,
    sub: Seq<char>,
)
    ensures
        refusal(p, private_network, forbidden) is None <==> (p.scheme == "file"@ || ((p.scheme
            == "http"@ || p.scheme == "https"@) && (private_network || match p.host {
            HostKind::Ipv4(ip) => !forbidden,
            HostKind::Ipv6(ip) => !forbidden,
            HostKind::Domain(d) => lowered(d) != "localhost"@ && lowered(d) != "127.0.0.1"@
                && lowered(d) != "::1"@ && !has_suffix(lowered(d), ".localhost"@),
            HostKind::Absent => true,
        }))),
        has_suffix(sub + ".localhost"@, ".localhost"@),
        refusal_message(refusal(p, private_network, forbidden)) is None <==> refusal(
            p,
            private_network,
            forbidden,
        ) is None,
{
    let whole: Seq<char> = sub + ".localhost"@;
    assert(whole.skip(whole.len() - ".localhost"@.len()) =~= ".localhost"@);
}

/// A refusal says what was refused and why.
pub proof fn refusals_name_their_target(
    p: UrlParts<Seq<char>>,
    private_network: bool,
    forbidden: bool,
)
    ensures
        match refusal_message(refusal(p, private_network, forbidden)) {
            Some(e) => if p.scheme != "http"@ && p.scheme != "https"@ {
                e == "Forbidden URL scheme '"@ + p.scheme
                    + "' - only http, https, and file are allowed"@
            } else {
                match p.host {
                    HostKind::Ipv4(ip) => e == "Access to private/internal IP address "@ + ip
                        + " is not allowed"@,
                    HostKind::Ipv6(ip) => e == "Access to private/internal IPv6 address "@ + ip
                        + " is not allowed"@,
                    HostKind::Domain(d) => e == "Access to localhost domain '"@ + d
                        + "' is not allowed"@,
                    HostKind::Absent => false,
                }
            },
            None => true,
        },
{
}

/// The standing of an address is asked for exactly where the answer decides:
/// a target is refused for a forbidden address and open for any other.
pub proof fn addresses_are_asked_about_where_they_decide(
    p: UrlParts<Seq<char>>,
    private_network: bool,
)
    ensures
        match address_in_question(p, private_network) {
            Some(ip) => {
                &&& p.scheme == "http"@ || p.scheme == "https"@
                &&& !private_network
                &&& p.host == HostKind::Ipv4(ip) || p.host == HostKind::Ipv6(ip)
                &&& refusal(p, private_network, true) is Some
                &&& refusal(p, private_network, false) is None
            },
            None => refusal(p, private_network, true) == refusal(p, private_network, false),
        },
{
    reveal_strlit("http");
    reveal_strlit("https");
    reveal_strlit("file");
    assert("http"@[0] != "file"@[0]);
    assert("https"@.len() != "file"@.len());
}

/// The value that a list gives a name last.
pub open spec fn gives_last(h: HeaderView, i: int, name: Seq<char>, value: Seq<char>) -> bool {
    &&& 0 <= i < h.len()
    &&& h[i] == (name, value)
    &&& forall|j: int| i < j < h.len() ==> (#[trigger] h[j]).0 != name
}

/// Under each name a header map holds what its list gives that name last, and
/// nothing under a name that the list does not have.
pub proof fn header_maps_hold_what_came_last(
    h: HeaderView,
    i: int,
    name: Seq<char>,
    value: Seq<char>,
)
    ensures
        gives_last(h, i, name, value) ==> lookup(mapped(h), name) == Some(value),
        (forall|j: int| 0 <= j < h.len() ==> (#[trigger] h[j]).0 != name) ==> lookup(
            mapped(h),
            name,
        ) is None,
    decreases h.len(),
{
    if h.len() > 0 {
        let rest: HeaderView = h.drop_last();
        header_maps_hold_what_came_last(rest, i, name, value);
        put_then_lookup(mapped(rest), h.last().0, h.last().1, name);
        if gives_last(h, i, name, value) && i < h.len() - 1 {
            assert(h[h.len() - 1].0 != name);
            assert forall|j: int| i < j < rest.len() implies (#[trigger] rest[j]).0 != name by {
                assert(rest[j] == h[j]);
            }
            assert(gives_last(rest, i, name, value));
        }
        if forall|j: int| 0 <= j < h.len() ==> (#[trigger] h[j]).0 != name {
            assert(h[h.len() - 1].0 != name);
            assert forall|j: int| 0 <= j < rest.len() implies (#[trigger] rest[j]).0 != name by {
                assert(rest[j] == h[j]);
            }
        }
    }
}

/// One text comes before another exactly where it is a shorter beginning of
/// it, or has the lesser scalar at the first place where the two differ.
pub proof fn texts_are_ordered_by_their_scalars(a: Seq<char>, b: Seq<char>, n: int)
    requires
        0 <= n <= a.len(),
        n <= b.len(),
        forall|i: int| 0 <= i < n ==> a[i] == b[i],
        n == a.len() || n == b.len() || a[n] != b[n],
    ensures
        text_before(a, b) <==> n < b.len() && (n == a.len() || (a[n] as u32) < (b[n] as u32)),
    decreases n,
{
    if n > 0 {
        assert(a[0] == b[0]);
        assert forall|i: int| 0 <= i < n - 1 implies a.skip(1)[i] == b.skip(1)[i] by {
            assert(a[i + 1] == b[i + 1]);
        }
        texts_are_ordered_by_their_scalars(a.skip(1), b.skip(1), n - 1);
    }
}

proof fn common_length(a: Seq<char>, b: Seq<char>) -> (n: int)
    ensures
        0 <= n <= a.len(),
        n <= b.len(),
        forall|i: int| 0 <= i < n ==> a[i] == b[i],
        n == a.len() || n == b.len() || a[n] != b[n],
    decreases a.len(),
{
    if a.len() == 0 || b.len() == 0 || a[0] != b[0] {
        0
    } else {
        let m: int = common_length(a.skip(1), b.skip(1));
        assert forall|i: int| 0 <= i < m + 1 implies a[i] == b[i] by {
            if i > 0 {
                assert(a.skip(1)[i - 1] == b.skip(1)[i - 1]);
            }
        }
        if m + 1 < a.len() && m + 1 < b.len() {
            assert(a.skip(1)[m] == a[m + 1]);
            assert(b.skip(1)[m] == b[m + 1]);
        }
        m + 1
    }
}

proof fn scalars_have_their_own_numbers(a: char, b: char)
    ensures
        a as u32 == b as u32 ==> a == b,
{
}

proof fn order_is_strict(a: Seq<char>, b: Seq<char>, c: Seq<char>)
    ensures
        a != b ==> text_before(a, b) || text_before(b, a),
        text_before(a, b) ==> !text_before(b, a) && a != b,
        text_before(a, b) && text_before(b, c) ==> text_before(a, c),
    decreases a.len(),
{
    let n: int = common_length(a, b);
    texts_are_ordered_by_their_scalars(a, b, n);
    texts_are_ordered_by_their_scalars(b, a, n);
    if n == a.len() && n == b.len() {
        assert(a =~= b);
    } else if n < a.len() && n < b.len() {
        scalars_have_their_own_numbers(a[n], b[n]);
    }
    if text_before(a, b) && text_before(b, c) {
        let m: int = common_length(b, c);
        texts_are_ordered_by_their_scalars(b, c, m);
        let k: int = if n < m {
            n
        } else {
            m
        };
        if n < m {
            assert(b[n] == c[n]);
        } else if m < n {
            assert(a[m] == b[m]);
        }
        texts_are_ordered_by_their_scalars(a, c, k);
    }
}

/// The map is in the order of its names, and no name stands in it twice.
pub open spec fn in_order(m: HeaderView) -> bool {
    forall|i: int, j: int|
        0 <= i < j < m.len() ==> text_before((#[trigger] m[i]).0, (#[trigger] m[j]).0)
}

proof fn putting_keeps_the_order(m: HeaderView, name: Seq<char>, value: Seq<char>)
    requires
        in_order(m),
    ensures
        in_order(put(m, name, value)),
        forall|i: int|
            0 <= i < put(m, name, value).len() ==> (#[trigger] put(m, name, value)[i]).0 == name
                || exists|j: int|
                0 <= j < m.len() && put(m, name, value)[i].0 == (#[trigger] m[j]).0,
    decreases m.len(),
{
    let p: HeaderView = put(m, name, value);
    if m.len() > 0 {
        let rest: HeaderView = m.skip(1);
        assert forall|j: int| 0 <= j < rest.len() implies #[trigger] rest[j] == m[j + 1] by {
        }
        if m[0].0 == name {
            assert forall|i: int, j: int| 0 <= i < j < p.len() implies text_before(
                (#[trigger] p[i]).0,
                (#[trigger] p[j]).0,
            ) by {
                assert(text_before(m[i].0, m[j].0));
            }
            assert forall|i: int| 0 <= i < p.len() implies (#[trigger] p[i]).0 == m[i].0 by {
            }
        } else if text_before(name, m[0].0) {
            assert forall|i: int, j: int| 0 <= i < j < p.len() implies text_before(
                (#[trigger] p[i]).0,
                (#[trigger] p[j]).0,
            ) by {
                if i > 0 {
                    assert(text_before(m[i - 1].0, m[j - 1].0));
                } else if j > 1 {
                    assert(text_before(m[0].0, m[j - 1].0));
                    order_is_strict(name, m[0].0, m[j - 1].0);
                }
            }
            assert forall|i: int| 0 < i < p.len() implies (#[trigger] p[i]).0 == m[i - 1].0 by {
            }
        } else {
            assert forall|i: int, j: int| 0 <= i < j < rest.len() implies text_before(
                (#[trigger] rest[i]).0,
                (#[trigger] rest[j]).0,
            ) by {
                assert(text_before(m[i + 1].0, m[j + 1].0));
            }
            putting_keeps_the_order(rest, name, value);
            let q: HeaderView = put(rest, name, value);
            order_is_strict(name, m[0].0, name);
            assert forall|i: int| 0 < i < p.len() implies (#[trigger] p[i]) == q[i - 1] by {
            }
            assert forall|i: int, j: int| 0 <= i < j < p.len() implies text_before(
                (#[trigger] p[i]).0,
                (#[trigger] p[j]).0,
            ) by {
                if i > 0 {
                    assert(text_before(q[i - 1].0, q[j - 1].0));
                } else if q[j - 1].0 != name {
                    let k: int = choose|k: int|
                        0 <= k < rest.len() && q[j - 1].0 == (#[trigger] rest[k]).0;
                    assert(text_before(m[0].0, m[k + 1].0));
                }
            }
            assert forall|i: int| 0 <= i < p.len() implies (#[trigger] p[i]).0 == name || exists|j:
                int|
                0 <= j < m.len() && p[i].0 == (#[trigger] m[j]).0 by {
                if i == 0 {
                    assert(p[0].0 == m[0].0);
                } else if q[i - 1].0 != name {
                    let k: int = choose|k: int|
                        0 <= k < rest.len() && q[i - 1].0 == (#[trigger] rest[k]).0;
                    assert(p[i].0 == m[k + 1].0);
                }
            }
        }
    }
}

/// A header map stands in the order of its names, each of them once.
pub proof fn header_maps_are_in_order(h: HeaderView)
    ensures
        in_order(mapped(h)),
    decreases h.len(),
{
    if h.len() > 0 {
        header_maps_are_in_order(h.drop_last());
        putting_keeps_the_order(mapped(h.drop_last()), h.last().0, h.last().1);
    }
}

/// Header `i` is the last whose name is `name` in lower case.
pub open spec fn lowers_last(h: HeaderView, i: int, name: Seq<char>) -> bool {
    &&& 0 <= i < h.len()
    &&& unicode_lowered(h[i].0) == name
    &&& forall|j: int| i < j < h.len() ==> unicode_lowered((#[trigger] h[j]).0) != name
}

proof fn lowered_headers_hold_what_came_last(
    m: HeaderView,
    h: HeaderView,
    i: int,
    name: Seq<char>,
)
    ensures
        lowers_last(h, i, name) ==> lookup(lowered_into(m, h), name) == Some(h[i].1),
        (forall|j: int| 0 <= j < h.len() ==> unicode_lowered((#[trigger] h[j]).0) != name)
            ==> lookup(lowered_into(m, h), name) == lookup(m, name),
    decreases h.len(),
{
    if h.len() > 0 {
        let rest: HeaderView = h.drop_last();
        lowered_headers_hold_what_came_last(m, rest, i, name);
        put_then_lookup(lowered_into(m, rest), unicode_lowered(h.last().0), h.last().1, name);
        assert forall|j: int| 0 <= j < rest.len() implies #[trigger] rest[j] == h[j] by {
        }
        if lowers_last(h, i, name) && i < h.len() - 1 {
            assert(unicode_lowered(h[h.len() - 1].0) != name);
            assert(lowers_last(rest, i, name));
        }
        if forall|j: int| 0 <= j < h.len() ==> unicode_lowered((#[trigger] h[j]).0) != name {
            assert(unicode_lowered(h[h.len() - 1].0) != name);
        }
    }
}

/// A hop is sent to the URL that is due, with the method and the body that are
/// due, and the request stays as it is. It carries cookies where the mode is
/// `Include`, and in the mode for the same origin where the URL has the page's
/// origin. It names the page's origin where the URL has another. Only the
/// stealth client sends nothing, to a URL without an origin.
pub proof fn hops_go_out_as_they_are_due(run: RunView, origin: Option<Seq<char>>)
    ensures
        match hop_step(run, origin) {
            FetchStep::Send(hop, after) => {
                &&& !(run.stealth && origin is None)
                &&& after == run
                &&& hop.url == run.current_url
                &&& hop.method == run.current_method
                &&& hop.body == run.current_body
                &&& hop.cookies <==> run.credentials == FetchCredentials::Include || (
                run.credentials == FetchCredentials::SameOrigin && origin == Some(run.page_origin))
                &&& match hop.origin {
                    Some(o) => o == run.page_origin && !run.stealth && origin is Some && origin
                        != Some(o),
                    None => run.stealth || origin is None || origin == Some(run.page_origin),
                }
            },
            FetchStep::Done(reply, store) => {
                &&& run.stealth && origin is None
                &&& store is None
                &&& reply.status == 0
                &&& reply.body.len() == 0
                &&& reply.url == run.current_url
                &&& !reply.blocked && !reply.cors_blocked
                &&& reply.error is None && reply.cors_error is None
            },
            _ => false,
        },
{
}

/// The page's headers go out in their order and unchanged. In front of them
/// stands a User-Agent exactly where the page gives none, whatever the case of
/// its letters.
pub proof fn page_headers_go_out_unchanged(run: RunView, origin: Option<Seq<char>>, i: int)
    requires
        !run.stealth,
    ensures
        match hop_step(run, origin) {
            FetchStep::Send(hop, after) => {
                &&& 0 <= i < run.headers.len() && lowered(run.headers[i].0) == "user-agent"@
                    ==> hop.headers == run.headers
                &&& (forall|j: int|
                    0 <= j < run.headers.len() ==> lowered((#[trigger] run.headers[j]).0)
                        != "user-agent"@) ==> {
                    &&& hop.headers.len() == run.headers.len() + 1
                    &&& hop.headers[0].0 == "User-Agent"@
                    &&& hop.headers.skip(1) == run.headers
                }
            },
            _ => false,
        },
{
    reveal_strlit("user-agent");
    assert(lowered("user-agent"@) =~= "user-agent"@);
    assert((seq![("User-Agent"@, crate::fetch::job::default_user_agent())] + run.headers).skip(1)
        =~= run.headers);
}

/// The stealth client takes the page's headers under their names in lower
/// case, the last value under each. To another origin it takes the page's
/// origin with them, unless the page gave one itself.
pub proof fn stealth_headers_are_lowered(run: RunView, origin: Seq<char>, i: int, name: Seq<char>)
    requires
        run.stealth,
    ensures
        match hop_step(run, Some(origin)) {
            FetchStep::Send(hop, after) => {
                &&& lowers_last(run.headers, i, name) ==> lookup(hop.headers, name) == Some(
                    run.headers[i].1,
                )
                &&& (forall|j: int|
                    0 <= j < run.headers.len() ==> unicode_lowered((#[trigger] run.headers[j]).0)
                        != name) ==> lookup(hop.headers, name) == (if name == "origin"@ && origin
                    != run.page_origin {
                    Some(run.page_origin)
                } else {
                    None
                })
            },
            _ => false,
        },
{
    let first: HeaderView = if origin != run.page_origin {
        seq![("origin"@, run.page_origin)]
    } else {
        Seq::empty()
    };
    lowered_headers_hold_what_came_last(first, run.headers, i, name);
    reveal_with_fuel(lookup, 2);
    assert(seq![("origin"@, run.page_origin)].skip(1) =~= Seq::<(Seq<char>, Seq<char>)>::empty());
}

/// A redirect that is followed goes to its target. After 301, 302 and 303 it is
/// a `GET` without a body; after any other status it keeps the method and the
/// body of the hop before it. All else stays as it was, and one more redirect
/// is counted. No request follows an eleventh.
pub proof fn redirects_are_followed_by_their_status(
    run: RunView,
    status: u16,
    target: UrlParts<Seq<char>>,
    forbidden: bool,
)
    ensures
        match redirect_step(run, status, target, forbidden) {
            FetchStep::Send(hop, next) => {
                &&& hop.url == target.href
                &&& status == 301 || status == 302 || status == 303 ==> hop.method == "GET"@
                    && hop.body.len() == 0
                &&& status != 301 && status != 302 && status != 303 ==> hop.method
                    == run.current_method && hop.body == run.current_body
                &&& run.redirects < 10
                &&& next.redirects == run.redirects + 1
                &&& next.current_url == target.href
                &&& next.current_method == hop.method
                &&& next.current_body == hop.body
                &&& next.url == run.url
                &&& next.method == run.method
                &&& next.page_origin == run.page_origin
                &&& next.mode == run.mode
                &&& next.credentials == run.credentials
                &&& next.headers == run.headers
                &&& next.private_network == run.private_network
                &&& next.stealth == run.stealth
                &&& hop.cookies <==> run.credentials == FetchCredentials::Include || (
                run.credentials == FetchCredentials::SameOrigin && target.origin
                    == run.page_origin)
                &&& hop.origin == (if !run.stealth && target.origin != run.page_origin {
                    Some(run.page_origin)
                } else {
                    None
                })
            },
            FetchStep::Done(reply, store) => {
                &&& store is None
                &&& reply.blocked
                &&& reply.error is Some
                &&& reply.status == 0
                &&& reply.body.len() == 0
                &&& reply.url == target.href
                &&& run.redirects >= 10 || refusal(target, run.private_network, forbidden) is Some
            },
            _ => false,
        },
        run.redirects < 10 && refusal(target, run.private_network, forbidden) is None
            ==> redirect_step(run, status, target, forbidden) is Send,
{
}

/// A response with a status from 300 to 399 and a location that resolves is a
/// redirect, and is never read: it is followed or refused, or the standing of
/// its address is asked for first, and the answer to that decides. Every other
/// response is the final one. A hop that fails ends the request.
pub proof fn responses_redirect_by_status_and_location(
    run: RunView,
    response: ResponseView,
    target: Option<UrlParts<Seq<char>>>,
    origin: Option<Seq<char>>,
    error: Seq<char>,
    forbidden: bool,
)
    ensures
        response_step(run, Err(error), target, origin) == FetchStepView::Failed(error),
        300 <= response.status <= 399 && response.location is Some && target is Some ==> match
        response_step(run, Ok(response), target, origin) {
            FetchStep::CheckAddress(ip, check) => {
                &&& check == AddressCheck::Redirect(run, response.status, target->0)
                &&& (target->0).host == HostKind::Ipv4(ip) || (target->0).host == HostKind::Ipv6(ip)
                &&& !run.private_network
                &&& checked_step(check, forbidden) == redirect_step(
                    run,
                    response.status,
                    target->0,
                    forbidden,
                )
                &&& forbidden ==> checked_step(check, forbidden) is Done
            },
            step => step == redirect_step(run, response.status, target->0, forbidden) && !(step is
                ReadBody),
        },
        !(300 <= response.status <= 399 && response.location is Some && target is Some)
            ==> match response_step(run, Ok(response), target, origin) {
            FetchStep::ReadBody(after, read) => after == run && read == response,
            FetchStep::Done(reply, store) => reply.cors_blocked && store is None,
            _ => false,
        },
{
    if let Some(p) = target {
        addresses_are_asked_about_where_they_decide(p, run.private_network);
    }
}

/// The final response is read where the page and the response are of one
/// origin, and outside `cors` mode. Across origins in `cors` mode its access
/// headers decide, each by the value that came last.
pub proof fn final_responses_are_read_by_their_access_headers(
    run: RunView,
    response: ResponseView,
    origin: Option<Seq<char>>,
    i: int,
    allowed: Seq<char>,
    j: int,
    flag: Seq<char>,
)
    ensures
        origin is None || origin == Some(run.page_origin) || run.mode != "cors"@ ==> final_step(
            run,
            response,
            origin,
        ) == FetchStepView::ReadBody(run, response),
        origin is Some && origin != Some(run.page_origin) && run.mode == "cors"@ && gives_last(
            response.headers,
            i,
            "access-control-allow-origin"@,
            allowed,
        ) ==> {
            &&& run.credentials != FetchCredentials::Include && (allowed == "*"@ || allowed
                == run.page_origin) ==> final_step(run, response, origin)
                == FetchStepView::ReadBody(run, response)
            &&& allowed != run.page_origin && (allowed != "*"@ || run.credentials
                == FetchCredentials::Include) ==> final_step(run, response, origin) is Done
            &&& allowed == run.page_origin && gives_last(
                response.headers,
                j,
                "access-control-allow-credentials"@,
                flag,
            ) && run.credentials == FetchCredentials::Include ==> (final_step(run, response, origin)
                == FetchStepView::ReadBody(run, response) <==> flag == "true"@)
        },
        match final_step(run, response, origin) {
            FetchStep::ReadBody(after, read) => after == run && read == response,
            FetchStep::Done(reply, store) => {
                &&& reply.cors_blocked
                &&& reply.cors_error is Some
                &&& reply.status == 0
                &&& reply.body.len() == 0
                &&& reply.body_base64 is None
                &&& reply.headers == Some(Seq::<(Seq<char>, Seq<char>)>::empty())
                &&& reply.url == run.url
                &&& !reply.blocked
                &&& store is None
            },
            _ => false,
        },
{
    header_maps_hold_what_came_last(response.headers, i, "access-control-allow-origin"@, allowed);
    header_maps_hold_what_came_last(response.headers, j, "access-control-allow-credentials"@, flag);
}

/// The reply of a request that ran to its end: the status, the body, its
/// Base64 form and the headers of the final response, under the URL that was
/// asked for first. What is kept of it says the same, with the method that was
/// asked for; a stealth request leaves nothing.
pub proof fn replies_tell_the_final_response(
    run: RunView,
    response: ResponseView,
    len: usize,
    text: Seq<char>,
    base64: Seq<char>,
    i: int,
    name: Seq<char>,
    value: Seq<char>,
)
    ensures
        match body_step(run, response, len, text, base64) {
            FetchStep::Done(reply, store) => {
                &&& reply.status == response.status
                &&& reply.body == text
                &&& reply.body_base64 == Some(base64)
                &&& reply.url == run.url
                &&& !reply.blocked && !reply.cors_blocked
                &&& reply.error is None && reply.cors_error is None
                &&& reply.headers is Some
                &&& gives_last(response.headers, i, name, value) ==> lookup(
                    reply.headers->0,
                    name,
                ) == Some(value)
                &&& store is None <==> run.stealth
                &&& store is Some ==> {
                    &&& (store->0).body == text
                    &&& (store->0).body_len == len
                    &&& (store->0).url == run.url
                    &&& (store->0).method == run.method
                    &&& (store->0).status == response.status
                    &&& gives_last(response.headers, i, name, value) ==> lookup(
                        (store->0).response_headers,
                        name,
                    ) == Some(value)
                }
            },
            _ => false,
        },
{
    header_maps_hold_what_came_last(response.headers, i, name, value);
}

/// Whoever observes responses is told the method that was asked for, and of
/// the stealth client the one that was sent last; and the URL in its
/// serialised form.
pub proof fn observers_are_told_the_request(run: RunView, url: UrlParts<Seq<char>>)
    ensures
        !run.stealth ==> observed_method(run) == run.method,
        run.stealth ==> observed_method(run) == run.current_method,
        observed_url(Some(url)) == url.href,
{
}

/// The origin that counts as the page's.
pub open spec fn asking_origin(plan: PlanView, origin: Option<Seq<char>>) -> Seq<char> {
    if plan.job.request.origin.len() > 0 {
        plan.job.request.origin
    } else if origin is Some {
        origin->0
    } else {
        Seq::empty()
    }
}

/// A request starts out as the page made it, but for what interception put in:
/// that takes the place of the page's URL, method, headers and body, each on
/// its own. A method that is no token goes out as `GET`.
pub proof fn requests_start_out_as_they_were_made(
    plan: PlanView,
    origin: Option<Seq<char>>,
    given: HeaderView,
)
    ensures
        ({
            let request: FetchRequest<Seq<char>> = plan.job.request;
            let run: Option<RunView> = match launch_step(plan, origin, given) {
                FetchStep::Preflight(p, run) => Some(run),
                FetchStep::Send(hop, run) => Some(run),
                _ => None,
            };
            &&& run is None ==> plan.job.stealth && origin is None
            &&& run is Some ==> {
                let r: RunView = run->0;
                &&& plan.url is Some ==> r.url == plan.url->0
                &&& plan.url is None ==> r.url == request.url
                &&& plan.method is Some ==> r.method == plan.method->0
                &&& plan.method is None ==> r.method == request.method
                &&& plan.headers is Some ==> r.headers == plan.headers->0
                &&& plan.headers is None ==> r.headers == given
                &&& plan.body is Some ==> r.current_body == plan.body->0
                &&& plan.body is None ==> r.current_body == request.body
                &&& r.current_url == r.url
                &&& method_name(r.method) ==> r.current_method == r.method
                &&& !method_name(r.method) ==> r.current_method == "GET"@
                &&& r.mode == request.mode
                &&& request.credentials == "include"@ <==> r.credentials
                    == FetchCredentials::Include
                &&& request.credentials == "omit"@ <==> r.credentials == FetchCredentials::Omit
                &&& request.origin.len() > 0 ==> r.page_origin == request.origin
                &&& request.origin.len() == 0 && origin is Some ==> r.page_origin == origin->0
                &&& r.private_network == plan.job.private_network
                &&& r.stealth == plan.job.stealth
                &&& r.redirects == 0
            }
        }),
{
    reveal_strlit("omit");
    reveal_strlit("include");
    assert("omit"@.len() != "include"@.len());
}

/// A header with this name needs nobody's leave.
pub open spec fn any_page_may_send(name: Seq<char>) -> bool {
    ||| name == "accept"@
    ||| name == "accept-language"@
    ||| name == "content-language"@
    ||| name == "content-type"@
}

/// The method of a request as it goes out.
pub open spec fn method_sent(plan: PlanView) -> Seq<char> {
    let method: Seq<char> = if plan.method is Some {
        plan.method->0
    } else {
        plan.job.request.method
    };
    if method_name(method) {
        method
    } else {
        "GET"@
    }
}

/// The headers of a request as it goes out.
pub open spec fn headers_sent(plan: PlanView, given: HeaderView) -> HeaderView {
    if plan.headers is Some {
        plan.headers->0
    } else {
        given
    }
}

/// A preflight goes first only where the request is made in `cors` mode to
/// another origin than the page's, and its method is none of `GET`, `HEAD` and
/// `POST` or one of its headers is none of the four simple ones. It asks for
/// the request's URL and method, in the page's name.
pub proof fn preflights_go_first_only_where_needed(
    plan: PlanView,
    origin: Option<Seq<char>>,
    given: HeaderView,
)
    ensures
        match launch_step(plan, origin, given) {
            FetchStep::Preflight(p, run) => {
                &&& asking_origin(plan, origin).len() > 0
                &&& origin != Some(asking_origin(plan, origin))
                &&& plan.job.request.mode == "cors"@
                &&& (method_sent(plan) != "GET"@ && method_sent(plan) != "HEAD"@ && method_sent(
                    plan,
                ) != "POST"@) || exists|j: int|
                    0 <= j < headers_sent(plan, given).len() && !any_page_may_send(
                        unicode_lowered((#[trigger] headers_sent(plan, given)[j]).0),
                    )
                &&& p.url == run.url
                &&& p.origin == asking_origin(plan, origin)
                &&& plan.method is Some ==> p.request_method == plan.method->0
                &&& plan.method is None ==> p.request_method == plan.job.request.method
            },
            step => step is Send || step is Done,
        },
{
    let headers: HeaderView = headers_sent(plan, given);
    if unsafe_header(headers) {
        let j: int = choose|j: int|
            0 <= j < headers.len() && !crate::fetch::job::simple_header((#[trigger] headers[j]).0);
        assert(!any_page_may_send(unicode_lowered(headers[j].0)));
    }
}

/// A request in `cors` mode to another origin than the page's is never sent
/// without a preflight where its method is none of `GET`, `HEAD` and `POST`, or
/// where one of its headers is none of the four simple ones.
pub proof fn preflights_go_first_wherever_needed(
    plan: PlanView,
    origin: Option<Seq<char>>,
    given: HeaderView,
    i: int,
)
    requires
        asking_origin(plan, origin).len() > 0,
        origin != Some(asking_origin(plan, origin)),
        plan.job.request.mode == "cors"@,
        (method_sent(plan) != "GET"@ && method_sent(plan) != "HEAD"@ && method_sent(plan)
            != "POST"@) || (0 <= i < headers_sent(plan, given).len() && !any_page_may_send(
            unicode_lowered(headers_sent(plan, given)[i].0),
        )),
    ensures
        launch_step(plan, origin, given) is Preflight,
{
    let headers: HeaderView = headers_sent(plan, given);
    if 0 <= i < headers.len() {
        assert(unsafe_header(headers) || crate::fetch::job::simple_header(headers[i].0));
    }
    if origin is None {
        assert(text_or(origin).len() == 0);
    }
}

/// A preflight names the headers of its request in their order, set apart by
/// commas.
pub proof fn preflights_name_the_headers(
    plan: PlanView,
    origin: Option<Seq<char>>,
    given: HeaderView,
    names: Seq<Seq<char>>,
)
    requires
        names.len() == given.len(),
        forall|j: int| 0 <= j < names.len() ==> #[trigger] names[j] == given[j].0,
        plan.headers is None || plan.headers == Some(given),
    ensures
        match launch_step(plan, origin, given) {
            FetchStep::Preflight(p, run) => p.request_headers == joined(names, ", "@),
            _ => true,
        },
{
    assert(names_of(given) =~= names);
}

/// After its preflight a request is sent exactly where the answer lets the
/// page's origin through; otherwise it fails and is not sent. Nor is it where
/// the preflight failed.
pub proof fn preflights_decide(
    run: RunView,
    allowed: Seq<char>,
    flag: Seq<char>,
    origin: Option<Seq<char>>,
    error: Seq<char>,
)
    ensures
        preflight_step(run, Err(error), origin) is Failed,
        allowed == run.page_origin && (run.credentials != FetchCredentials::Include || flag
            == "true"@) ==> preflight_step(run, Ok((allowed, flag)), origin) == hop_step(
            run,
            origin,
        ),
        allowed == "*"@ && run.credentials != FetchCredentials::Include ==> preflight_step(
            run,
            Ok((allowed, flag)),
            origin,
        ) == hop_step(run, origin),
        allowed != run.page_origin && (allowed != "*"@ || run.credentials
            == FetchCredentials::Include) ==> preflight_step(run, Ok((allowed, flag)), origin) is
            Failed,
        run.credentials == FetchCredentials::Include && flag != "true"@ ==> preflight_step(
            run,
            Ok((allowed, flag)),
            origin,
        ) is Failed,
{
}

/// A request is shown to whoever intercepts requests as it was made, under its
/// own identity. Without a decision it goes on as one that is not intercepted.
pub proof fn intercepted_requests_are_shown_as_they_are(job: FetchJob<Seq<char>>, id: Seq<char>)
    ensures
        match job_step(FetchJob { intercept: Some(id), ..job }) {
            FetchStep::Intercept(query, waiting) => {
                &&& query.request_id == id
                &&& query.url == job.request.url
                &&& query.method == job.request.method
                &&& query.headers == crate::fetch::headers::parsed_headers(job.request.headers_json)
                &&& query.resource_type == "Fetch"@
                &&& waiting == (FetchJob { intercept: Some(id), ..job })
            },
            _ => false,
        },
        !(job_step(FetchJob { intercept: None, ..job }) is Intercept),
        intercepted_step(FetchJob { intercept: None, ..job }, None) == job_step(
            FetchJob { intercept: None, ..job },
        ),
{
}

/// A request that is fulfilled is answered with the given status, body and
/// headers; one that is failed is blocked for the given reason. Neither goes
/// out, and neither leaves anything to keep.
pub proof fn interception_answers_for_the_network(
    job: FetchJob<Seq<char>>,
    decision: InterceptResolution,
    i: int,
    name: Seq<char>,
    value: Seq<char>,
)
    ensures
        match (decision, intercepted_step(job, Some(decision))) {
            (
                InterceptResolution::Fulfill { status, headers, body },
                FetchStep::Done(reply, store),
            ) => {
                &&& reply.status == status
                &&& reply.body == body@
                &&& reply.url == job.request.url
                &&& reply.headers is Some
                &&& gives_last(crate::fetch::headers::pairs(headers@), i, name, value) ==> lookup(
                    reply.headers->0,
                    name,
                ) == Some(value)
                &&& !reply.blocked && !reply.cors_blocked && reply.error is None
                &&& store is None
            },
            (InterceptResolution::Fail { reason }, FetchStep::Done(reply, store)) => {
                &&& reply.blocked
                &&& reply.error == Some(reason@)
                &&& reply.status == 0
                &&& reply.body.len() == 0
                &&& reply.url == job.request.url
                &&& store is None
            },
            (InterceptResolution::Continue { url, method, headers, body }, _) => true,
            _ => false,
        },
{
    if let InterceptResolution::Fulfill { status, headers, body } = decision {
        header_maps_hold_what_came_last(
            crate::fetch::headers::pairs(headers@),
            i,
            name,
            value,
        );
    }
}

/// A request that goes on from interception is the page's with the parts that
/// were put in; one that is let go on untouched is as it would be without
/// interception.
pub proof fn continued_requests_take_what_is_put_in(
    job: FetchJob<Seq<char>>,
    decision: InterceptResolution,
)
    ensures
        match decision {
            InterceptResolution::Continue { url, method, headers, body } => match intercepted_step(
                job,
                Some(decision),
            ) {
                FetchStep::Send(hop, run) => {
                    &&& url is Some ==> hop.url == (url->0)@ && run.url == (url->0)@
                    &&& url is None ==> hop.url == job.request.url && run.url == job.request.url
                    &&& method is Some ==> run.method == (method->0)@
                    &&& method is None ==> run.method == job.request.method
                    &&& body is Some ==> hop.body == (body->0)@
                    &&& body is None ==> hop.body == job.request.body
                    &&& headers is Some ==> run.headers == mapped(
                        crate::fetch::headers::pairs((headers->0)@),
                    )
                    &&& headers is None ==> run.headers
                        == crate::fetch::headers::parsed_headers(job.request.headers_json)
                },
                FetchStep::Preflight(p, run) => {
                    &&& url is Some ==> p.url == (url->0)@
                    &&& url is None ==> p.url == job.request.url
                    &&& method is Some ==> p.request_method == (method->0)@
                    &&& method is None ==> p.request_method == job.request.method
                    &&& body is Some ==> run.current_body == (body->0)@
                    &&& body is None ==> run.current_body == job.request.body
                },
                FetchStep::CheckAddress(ip, check) => url is Some,
                FetchStep::Done(reply, store) => store is None && (reply.blocked ==> url is Some),
                _ => false,
            },
            _ => true,
        },
{
}

/// Only a URL that was put in is checked again: where its host is an address
/// and there is no leave for the private network its standing is asked for, and
/// a forbidden one ends the request as blocked. What is not refused goes out.
pub proof fn urls_put_in_are_checked(
    plan: PlanView,
    target: UrlParts<Seq<char>>,
    origin: Option<Seq<char>>,
    given: HeaderView,
    forbidden: bool,
)
    ensures
        plan.url is None ==> plan_step(plan, None, origin, given) == launch_step(
            plan,
            origin,
            given,
        ),
        plan.url is Some && refusal(target, plan.job.private_network, forbidden) is None
            ==> rewrite_step(plan, Some(target), forbidden, origin, given) == launch_step(
            plan,
            origin,
            given,
        ),
        plan.url is Some && refusal(target, plan.job.private_network, forbidden) is Some ==> match
        rewrite_step(plan, Some(target), forbidden, origin, given) {
            FetchStep::Done(reply, store) => {
                &&& reply.blocked
                &&& reply.error is Some
                &&& reply.url == plan.url->0
                &&& reply.status == 0
                &&& reply.headers is None
                &&& store is None
            },
            _ => false,
        },
        plan.url is Some ==> match plan_step(plan, Some(target), origin, given) {
            FetchStep::CheckAddress(ip, check) => {
                &&& check == AddressCheck::Rewrite(plan)
                &&& target.host == HostKind::Ipv4(ip) || target.host == HostKind::Ipv6(ip)
                &&& !plan.job.private_network
            },
            step => step == rewrite_step(plan, Some(target), forbidden, origin, given),
        },
{
    addresses_are_asked_about_where_they_decide(target, plan.job.private_network);
}

/// A request is answered at its start exactly where the block list covers its
/// URL or its target is refused: with no status and no body, as blocked, and
/// for a refusal with the reason.
pub proof fn requests_are_stopped_at_their_start(
    patterns: Seq<Seq<char>>,
    url: Seq<char>,
    target: Option<UrlParts<Seq<char>>>,
    side: NetworkSide,
)
    ensures
        match immediate_reply(patterns, url, target, side) {
            Some(reply) => {
                &&& reply.blocked
                &&& reply.status == 0
                &&& reply.body.len() == 0
                &&& reply.url == url
                &&& !reply.cors_blocked
                &&& reply.request_id is None
                &&& blocked_by(patterns, url) ==> reply.error is None
                &&& !blocked_by(patterns, url) ==> {
                    &&& target is Some
                    &&& refusal(target->0, side.private_network, side.address_forbidden) is Some
                    &&& reply.error == refusal_message(
                        refusal(target->0, side.private_network, side.address_forbidden),
                    )
                }
            },
            None => !blocked_by(patterns, url) && (target is Some ==> refusal(
                target->0,
                side.private_network,
                side.address_forbidden,
            ) is None),
        },
{
}

/// A setting is the number that is written there; one that is missing, or is no
/// number up to the greatest, leaves the default.
pub proof fn settings_are_read(n: nat, max: nat, default: nat)
    ensures
        n <= max ==> setting(Some(decimal(n)), max, default) == n,
        setting(None, max, default) == default,
{
    if n <= max {
        crate::number::decimal_round_trip(n, max);
    }
}

/// A redirect leads to its location, read against the URL that was asked; a
/// response without one, and a failure, lead nowhere.
pub proof fn locations_are_read_against_the_url_asked(
    run: RunView,
    response: ResponseView,
    location: Seq<char>,
    error: Seq<char>,
)
    ensures
        response.location == Some(location) ==> location_target(run, Ok(response)) == joined_url(
            run.current_url,
            location,
        ),
        response.location is None ==> location_target(run, Ok(response)) is None,
        location_target(run, Err(error)) is None,
{
}

/// A method is a token: not empty, of letters, digits and the marks that a
/// token may hold. White space, control scalars and separators make it none.
pub proof fn methods_are_tokens(s: Seq<char>, i: int)
    ensures
        method_name(s) ==> s.len() > 0,
        method_name(s) && 0 <= i < s.len() ==> {
            let c: char = s[i];
            ||| '0' <= c <= '9'
            ||| 'A' <= c <= 'Z'
            ||| 'a' <= c <= 'z'
            ||| c == '!' || c == '#' || c == '$' || c == '%' || c == '&' || c == '\''
            ||| c == '*' || c == '+' || c == '-' || c == '.' || c == '^' || c == '_'
            ||| c == '`' || c == '|' || c == '~'
        },
        s.len() > 0 && (forall|k: int|
            0 <= k < s.len() ==> 'A' <= #[trigger] s[k] <= 'Z' || 'a' <= s[k] <= 'z' || '0' <= s[k]
                <= '9' || s[k] == '-' || s[k] == '_' || s[k] == '.' || s[k] == '!' || s[k] == '#'
                || s[k] == '$' || s[k] == '%' || s[k] == '&' || s[k] == '\'' || s[k] == '*' || s[k]
                == '+' || s[k] == '^' || s[k] == '`' || s[k] == '|' || s[k] == '~') ==> method_name(
            s,
        ),
{
}

/// A preflight that failed tells why, and one that was refused names the
/// origin of the page and the one that the answer allows.
pub proof fn preflights_tell_why_they_failed(
    run: RunView,
    allowed: Seq<char>,
    flag: Seq<char>,
    error: Seq<char>,
    origin: Option<Seq<char>>,
)
    ensures
        preflight_step(run, Err(error), origin) == FetchStepView::Failed(
            "CORS preflight failed: "@ + error,
        ),
        !cors_allows(run.credentials, run.page_origin, allowed, flag) ==> preflight_step(
            run,
            Ok((allowed, flag)),
            origin,
        ) == FetchStepView::Failed(
            "CORS preflight: Origin '"@ + run.page_origin
                + "' not allowed by Access-Control-Allow-Origin '"@ + allowed + "'"@,
        ),
{
}

/// A response that is kept from the page names the page's origin, and the one
/// that it allows; with credentials it tells both headers that are needed.
pub proof fn kept_responses_name_the_origins(page: Seq<char>, allowed: Seq<char>)
    ensures
        cors_message(FetchCredentials::Include, page, allowed)
            == "CORS error: credentialed request requires Access-Control-Allow-Origin '"@ + page
            + "' and Access-Control-Allow-Credentials 'true'"@,
        cors_message(FetchCredentials::SameOrigin, page, allowed) == "CORS error: Origin '"@ + page
            + "' not in Access-Control-Allow-Origin '"@ + allowed + "'"@,
        cors_message(FetchCredentials::Omit, page, allowed) == cors_message(
            FetchCredentials::SameOrigin,
            page,
            allowed,
        ),
{
}

/// A redirect to a target that is refused ends the request with the refusal,
/// and the eleventh one ends it as one too many.
pub proof fn redirects_end_where_they_are_refused(
    run: RunView,
    status: u16,
    target: UrlParts<Seq<char>>,
    forbidden: bool,
)
    ensures
        match redirect_step(run, status, target, forbidden) {
            FetchStep::Done(reply, store) => {
                &&& store is None
                &&& reply.blocked
                &&& reply.url == target.href
                &&& match refusal_message(refusal(target, run.private_network, forbidden)) {
                    Some(e) => reply.error == Some("Redirect to forbidden URL blocked: "@ + e),
                    None => run.redirects >= 10 && reply.error == Some(
                        "Too many redirects (>10)"@,
                    ),
                }
            },
            _ => run.redirects < 10 && refusal_message(
                refusal(target, run.private_network, forbidden),
            ) is None,
        },
{
}

/// A response of another origin that names none is kept from a page in `cors`
/// mode, and one that is kept tells the origin that it names.
pub proof fn kept_responses_tell_what_they_allow(
    run: RunView,
    response: ResponseView,
    origin: Option<Seq<char>>,
    i: int,
    allowed: Seq<char>,
)
    ensures
        final_step(run, response, origin) is Done && gives_last(
            response.headers,
            i,
            "access-control-allow-origin"@,
            allowed,
        ) ==> (final_step(run, response, origin) matches FetchStep::Done(reply, store)
            && reply.cors_error == Some(cors_message(run.credentials, run.page_origin, allowed))),
        origin is Some && origin != Some(run.page_origin) && run.mode == "cors"@
            && run.page_origin.len() > 0 && lookup(
            mapped(response.headers),
            "access-control-allow-origin"@,
        ) is None ==> final_step(run, response, origin) is Done,
{
    reveal_strlit("*");
    header_maps_hold_what_came_last(response.headers, i, "access-control-allow-origin"@, allowed);
}

} // verus!
