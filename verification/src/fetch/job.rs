//! The course of one request: interception, preflight, redirects and the final
//! response. Each function takes what the network side brought and says what
//! to do next.

use vstd::prelude::*;

use crate::dom::impact::is_empty;
use crate::fetch::headers::{
    copy_headers, get_header, has_header, header_names, lookup, lower_unicode, lowered_into,
    map_headers, mapped, names_header, names_of, opt_pairs, pairs, parse_headers, parsed_headers,
    put_lowered, unicode_lowered, HeaderView,
};
use crate::fetch::policy::{
    address_in_question, address_to_check, cors_allows, cors_response_allows, credentials_allow,
    credentials_named, refusal, refusal_message, validate_fetch_url, FetchCredentials,
};
use crate::fetch::reply::{
    bare_reply, base64_text, blocked_reply, decode_lossy, empty_reply, encodable, encode_base64,
    lossy_text, FetchReply, FetchStore,
};
use crate::fetch::store::{FetchJob, FetchRequest};
use crate::state::Headers;
use crate::text::{join, joined, opt_text, same_text};
use crate::urls::{
    join_parts, joined_url, opt_parts, origin_of, parse_outcome, parse_parts, parsed_url,
    request_origin, text_or, try_parse, UrlParts,
};

verus! {

/// The redirects that a request follows at most.
pub const FETCH_REDIRECT_LIMIT: usize = 10;

/// What whoever intercepts a request decides.
#[derive(Debug)]
pub enum InterceptResolution {
    Continue {
        url: Option<String>,
        method: Option<String>,
        headers: Option<Headers>,
        body: Option<String>,
    },
    Fulfill { status: u16, headers: Headers, body: String },
    Fail { reason: String },
}

/// A request as it is shown to whoever intercepts it.
pub struct InterceptQuery<S, H> {
    pub request_id: S,
    pub url: S,
    pub method: S,
    pub headers: H,
    pub resource_type: S,
}

/// A request with the changes that interception made to it.
pub struct Plan<S, H> {
    pub job: FetchJob<S>,
    pub url: Option<S>,
    pub method: Option<S>,
    pub headers: Option<H>,
    pub body: Option<S>,
}

/// A request under way. The `current` parts are those of the hop that is due;
/// the others stay as they were at the first hop.
pub struct FetchRun<S, H> {
    pub url: S,
    pub method: S,
    pub page_origin: S,
    pub mode: S,
    pub credentials: FetchCredentials,
    pub headers: H,
    pub private_network: bool,
    pub stealth: bool,
    pub current_url: S,
    pub current_method: S,
    pub current_body: S,
    pub redirects: usize,
}

/// A preflight request.
pub struct PreflightRequest<S> {
    pub url: S,
    pub origin: S,
    pub request_method: S,
    pub request_headers: S,
}

/// One hop on the wire. `cookies` says whether it carries cookies and stores
/// those that come back.
pub struct HopRequest<S, H> {
    pub url: S,
    pub method: S,
    pub origin: Option<S>,
    pub cookies: bool,
    pub headers: H,
    pub body: S,
}

/// The head of a response.
pub struct HopResponse<S, H> {
    pub status: u16,
    pub headers: H,
    pub location: Option<S>,
}

/// What the standing of an address decides.
pub enum AddressCheck<S, H> {
    /// Whether the URL that interception put in may be fetched.
    Rewrite(Plan<S, H>),
    /// Whether the redirect to this URL may be followed.
    Redirect(FetchRun<S, H>, u16, UrlParts<S>),
}

/// What a request does next.
pub enum FetchStep<S, H> {
    /// It is shown to whoever intercepts requests.
    Intercept(InterceptQuery<S, H>, FetchJob<S>),
    /// It asks for the standing of an address.
    CheckAddress(S, AddressCheck<S, H>),
    /// It sends a preflight.
    Preflight(PreflightRequest<S>, FetchRun<S, H>),
    /// It sends a hop.
    Send(HopRequest<S, H>, FetchRun<S, H>),
    /// It reads the body of the final response.
    ReadBody(FetchRun<S, H>, HopResponse<S, H>),
    /// It ends with a reply, and with something to keep where there is any.
    Done(FetchReply<S, H>, Option<FetchStore<S, H>>),
    /// It ends with an error.
    Failed(S),
}

/// A step over scalar sequences.
pub type FetchStepView = FetchStep<Seq<char>, HeaderView>;

/// A plan over scalar sequences.
pub type PlanView = Plan<Seq<char>, HeaderView>;

/// A request under way, over scalar sequences.
pub type RunView = FetchRun<Seq<char>, HeaderView>;

/// The head of a response over scalar sequences.
pub type ResponseView = HopResponse<Seq<char>, HeaderView>;

impl Plan<String, Headers> {
    /// The plan over scalar sequences.
    pub open spec fn view(self) -> PlanView {
        Plan {
            job: self.job@,
            url: opt_text(self.url),
            method: opt_text(self.method),
            headers: opt_pairs(self.headers),
            body: opt_text(self.body),
        }
    }
}

impl FetchRun<String, Headers> {
    /// The request over scalar sequences.
    pub open spec fn view(self) -> RunView {
        FetchRun {
            url: self.url@,
            method: self.method@,
            page_origin: self.page_origin@,
            mode: self.mode@,
            credentials: self.credentials,
            headers: pairs(self.headers@),
            private_network: self.private_network,
            stealth: self.stealth,
            current_url: self.current_url@,
            current_method: self.current_method@,
            current_body: self.current_body@,
            redirects: self.redirects,
        }
    }
}

impl HopResponse<String, Headers> {
    /// The head of the response over scalar sequences.
    pub open spec fn view(self) -> ResponseView {
        HopResponse {
            status: self.status,
            headers: pairs(self.headers@),
            location: opt_text(self.location),
        }
    }
}

impl AddressCheck<String, Headers> {
    /// The check over scalar sequences.
    pub open spec fn view(self) -> AddressCheck<Seq<char>, HeaderView> {
        match self {
            AddressCheck::Rewrite(p) => AddressCheck::Rewrite(p@),
            AddressCheck::Redirect(r, status, p) => AddressCheck::Redirect(r@, status, p@),
        }
    }
}

impl FetchStep<String, Headers> {
    /// The step over scalar sequences.
    pub open spec fn view(self) -> FetchStepView {
        match self {
            FetchStep::Intercept(q, j) => FetchStep::Intercept(
                InterceptQuery {
                    request_id: q.request_id@,
                    url: q.url@,
                    method: q.method@,
                    headers: pairs(q.headers@),
                    resource_type: q.resource_type@,
                },
                j@,
            ),
            FetchStep::CheckAddress(ip, c) => FetchStep::CheckAddress(ip@, c@),
            FetchStep::Preflight(p, r) => FetchStep::Preflight(
                PreflightRequest {
                    url: p.url@,
                    origin: p.origin@,
                    request_method: p.request_method@,
                    request_headers: p.request_headers@,
                },
                r@,
            ),
            FetchStep::Send(h, r) => FetchStep::Send(
                HopRequest {
                    url: h.url@,
                    method: h.method@,
                    origin: opt_text(h.origin),
                    cookies: h.cookies,
                    headers: pairs(h.headers@),
                    body: h.body@,
                },
                r@,
            ),
            FetchStep::ReadBody(r, h) => FetchStep::ReadBody(r@, h@),
            FetchStep::Done(r, s) => FetchStep::Done(
                r@,
                match s {
                    Some(k) => Some(k@),
                    None => None,
                },
            ),
            FetchStep::Failed(e) => FetchStep::Failed(e@),
        }
    }
}

/// `c` may stand in a method name.
pub open spec fn method_scalar(c: char) -> bool {
    ||| '0' <= c && c <= '9'
    ||| 'A' <= c && c <= 'Z'
    ||| 'a' <= c && c <= 'z'
    ||| c == '!' || c == '#' || c == '$' || c == '%' || c == '&' || c == '\''
    ||| c == '*' || c == '+' || c == '-' || c == '.'
    ||| c == '^' || c == '_' || c == '`' || c == '|' || c == '~'
}

/// `s` is a method name: not empty, and of the scalars of a token.
pub open spec fn method_name(s: Seq<char>) -> bool {
    s.len() > 0 && forall|i: int| 0 <= i < s.len() ==> method_scalar(#[trigger] s[i])
}

/// The method that goes out for a given name.
pub open spec fn sent_method(s: Seq<char>) -> Seq<char> {
    if method_name(s) {
        s
    } else {
        "GET"@
    }
}

/// Parsing a `reqwest::Method`: a name that is a token is kept as it is, any
/// other is no method.
#[verifier::external_body]
fn parse_method(s: &str) -> (r: Option<String>)
    ensures
        opt_text(r) == (if method_name(s@) {
            Some(s@)
        } else {
            None
        }),
{
    s.parse::<reqwest::Method>().ok().map(|m| m.to_string())
}

fn method_to_send(s: &str) -> (r: String)
    ensures
        r@ == sent_method(s@),
{
    match parse_method(s) {
        Some(method) => method,
        None => "GET".to_owned(),
    }
}

/// The text, or the other one where there is none.
pub open spec fn or_else(s: Option<Seq<char>>, other: Seq<char>) -> Seq<char> {
    match s {
        Some(t) => t,
        None => other,
    }
}

/// A request without changes.
pub open spec fn plain_plan(job: FetchJob<Seq<char>>) -> PlanView {
    Plan { job, url: None, method: None, headers: None, body: None }
}

/// The headers that a plan goes out with, `given` being those of the page.
pub open spec fn plan_headers(plan: PlanView, given: HeaderView) -> HeaderView {
    match plan.headers {
        Some(h) => h,
        None => given,
    }
}

/// The URL that a plan goes out to.
pub open spec fn plan_url(plan: PlanView) -> Seq<char> {
    or_else(plan.url, plan.job.request.url)
}

/// The origin that counts as the page's: the given one, or that of the
/// request where none is given.
pub open spec fn effective_origin(given: Seq<char>, request: Option<Seq<char>>) -> Seq<char> {
    if given.len() == 0 {
        text_or(request)
    } else {
        given
    }
}

/// A header that any cross-origin request may carry.
pub open spec fn simple_header(name: Seq<char>) -> bool {
    let l: Seq<char> = unicode_lowered(name);
    l == "accept"@ || l == "accept-language"@ || l == "content-language"@ || l == "content-type"@
}

/// One of the headers is not simple.
pub open spec fn unsafe_header(h: HeaderView) -> bool {
    exists|i: int| 0 <= i < h.len() && !simple_header((#[trigger] h[i]).0)
}

/// Whether a request needs a preflight: across origins in `cors` mode, with a
/// method or a header that is not simple.
pub open spec fn preflight_needed(
    page_origin: Seq<char>,
    request: Option<Seq<char>>,
    mode: Seq<char>,
    method: Seq<char>,
    headers: HeaderView,
) -> bool {
    &&& page_origin.len() > 0
    &&& text_or(request) != page_origin
    &&& mode == "cors"@
    &&& (method != "GET"@ && method != "HEAD"@ && method != "POST"@) || unsafe_header(headers)
}

/// The request at its first hop. `origin` is the origin of the URL that it
/// goes out to, and `given` are the page's headers.
pub open spec fn first_run(
    plan: PlanView,
    origin: Option<Seq<char>>,
    given: HeaderView,
) -> RunView {
    let request: FetchRequest<Seq<char>> = plan.job.request;
    let method: Seq<char> = or_else(plan.method, request.method);
    FetchRun {
        url: plan_url(plan),
        method,
        page_origin: effective_origin(request.origin, origin),
        mode: request.mode,
        credentials: credentials_named(request.credentials),
        headers: plan_headers(plan, given),
        private_network: plan.job.private_network,
        stealth: plan.job.stealth,
        current_url: plan_url(plan),
        current_method: sent_method(method),
        current_body: or_else(plan.body, request.body),
        redirects: 0,
    }
}

/// The User-Agent that goes out where the page gives none.
pub open spec fn default_user_agent() -> Seq<char> {
    "Mozilla/5.0 (X11; Linux x86_64) AppleWebKit/537.36 (KHTML, like Gecko) Chrome/145.0.0.0 Safari/537.36"@
}

/// Whether the hop crosses origins; a URL without an origin does not.
pub open spec fn crosses(run: RunView, origin: Option<Seq<char>>) -> bool {
    origin is Some && origin->0 != run.page_origin
}

/// The headers of a hop. The stealth client takes them as a map with names in
/// lower case, the origin among them.
pub open spec fn hop_headers(run: RunView, cross: bool) -> HeaderView {
    if run.stealth {
        lowered_into(
            if cross {
                seq![("origin"@, run.page_origin)]
            } else {
                Seq::empty()
            },
            run.headers,
        )
    } else if names_header(run.headers, "user-agent"@) {
        run.headers
    } else {
        seq![("User-Agent"@, default_user_agent())] + run.headers
    }
}

/// The hop that is due, given the origin of its URL. Without one the stealth
/// client cannot send it, and the request ends.
pub open spec fn hop_step(run: RunView, origin: Option<Seq<char>>) -> FetchStepView {
    if run.stealth && origin is None {
        FetchStep::Done(bare_reply(run.current_url, true), None)
    } else {
        FetchStep::Send(
            HopRequest {
                url: run.current_url,
                method: run.current_method,
                origin: if crosses(run, origin) && !run.stealth {
                    Some(run.page_origin)
                } else {
                    None
                },
                cookies: credentials_allow(run.credentials, run.page_origin, origin),
                headers: hop_headers(run, crosses(run, origin)),
                body: run.current_body,
            },
            run,
        )
    }
}

/// What a request does once its target is settled, given the origin of that
/// target and the page's headers.
pub open spec fn launch_step(
    plan: PlanView,
    origin: Option<Seq<char>>,
    given: HeaderView,
) -> FetchStepView {
    let run: RunView = first_run(plan, origin, given);
    if preflight_needed(run.page_origin, origin, run.mode, run.current_method, run.headers) {
        FetchStep::Preflight(
            PreflightRequest {
                url: run.url,
                origin: run.page_origin,
                request_method: run.method,
                request_headers: joined(names_of(run.headers), ", "@),
            },
            run,
        )
    } else {
        hop_step(run, origin)
    }
}

/// What a request does once the standing of the URL that interception put in
/// is known; `target` is what that URL parses to, `origin` the origin of where
/// the request goes, and `given` are the page's headers.
pub open spec fn rewrite_step(
    plan: PlanView,
    target: Option<UrlParts<Seq<char>>>,
    forbidden: bool,
    origin: Option<Seq<char>>,
    given: HeaderView,
) -> FetchStepView {
    match (plan.url, target) {
        (Some(url), Some(p)) => match refusal_message(
            refusal(p, plan.job.private_network, forbidden),
        ) {
            Some(e) => FetchStep::Done(
                FetchReply {
                    blocked: true,
                    error: Some("Intercept rewrite to forbidden URL blocked: "@ + e),
                    ..bare_reply(url, false)
                },
                None,
            ),
            None => launch_step(plan, origin, given),
        },
        _ => launch_step(plan, origin, given),
    }
}

/// The address whose standing decides about the URL that interception put in.
pub open spec fn rewrite_address(
    plan: PlanView,
    target: Option<UrlParts<Seq<char>>>,
) -> Option<Seq<char>> {
    match (plan.url, target) {
        (Some(url), Some(p)) => address_in_question(p, plan.job.private_network),
        _ => None,
    }
}

/// What a request does once interception is over.
pub open spec fn plan_step(
    plan: PlanView,
    target: Option<UrlParts<Seq<char>>>,
    origin: Option<Seq<char>>,
    given: HeaderView,
) -> FetchStepView {
    match rewrite_address(plan, target) {
        Some(ip) => FetchStep::CheckAddress(ip, AddressCheck::Rewrite(plan)),
        None => rewrite_step(plan, target, false, origin, given),
    }
}

/// What the text of the URL that interception put in parses to.
pub open spec fn plan_target(plan: PlanView) -> Option<UrlParts<Seq<char>>> {
    match plan.url {
        Some(u) => parsed_url(u),
        None => None,
    }
}

fn pick_text(s: Option<String>, other: &str) -> (r: String)
    ensures
        r@ == or_else(opt_text(s), other@),
{
    match s {
        Some(t) => t,
        None => other.to_owned(),
    }
}

fn has_unsafe_header(h: &Headers) -> (r: bool)
    ensures
        r == unsafe_header(pairs(h@)),
{
    let mut i: usize = 0;
    while i < h.len()
        invariant
            i <= h@.len(),
            forall|j: int| 0 <= j < i ==> simple_header((#[trigger] pairs(h@)[j]).0),
        decreases h@.len() - i,
    {
        let l: String = lower_unicode(h[i].0.as_str());
        assert(pairs(h@)[i as int].0 == h@[i as int].0@);
        if !(same_text(l.as_str(), "accept") || same_text(l.as_str(), "accept-language")
            || same_text(l.as_str(), "content-language") || same_text(l.as_str(), "content-type")) {
            return true;
        }
        i = i + 1;
    }
    false
}

fn origin_text(origin: &Option<String>) -> (r: String)
    ensures
        r@ == text_or(opt_text(*origin)),
{
    match origin {
        Some(o) => o.as_str().to_owned(),
        None => String::new(),
    }
}

/// Sends the hop that is due, given the origin of its URL.
pub fn send_hop(run: FetchRun<String, Headers>, origin: &Option<String>) -> (r: FetchStep<
    String,
    Headers,
>)
    ensures
        r@ == hop_step(run@, opt_text(*origin)),
{
    if run.stealth && origin.is_none() {
        return FetchStep::Done(empty_reply(run.current_url, true), None);
    }
    let cross: bool = match origin {
        Some(o) => !same_text(o.as_str(), run.page_origin.as_str()),
        None => false,
    };
    let cookies: bool = run.credentials.allows_origin(run.page_origin.as_str(), origin);
    let mut headers: Headers = Vec::new();
    assert(pairs(headers@) =~= Seq::<(Seq<char>, Seq<char>)>::empty());
    if run.stealth {
        if cross {
            headers.push(("origin".to_owned(), run.page_origin.as_str().to_owned()));
            assert(pairs(headers@) =~= seq![("origin"@, run.page_origin@)]);
        }
        put_lowered(&mut headers, &run.headers);
    } else {
        headers = copy_headers(&run.headers);
        if !has_header(&run.headers, "user-agent") {
            headers.insert(
                0,
                (
                    "User-Agent".to_owned(),
                    "Mozilla/5.0 (X11; Linux x86_64) AppleWebKit/537.36 (KHTML, like Gecko) Chrome/145.0.0.0 Safari/537.36".to_owned(),
                ),
            );
            assert(pairs(headers@) =~= seq![("User-Agent"@, default_user_agent())] + pairs(
                run.headers@,
            ));
        }
    }
    let wire_origin: Option<String> = if cross && !run.stealth {
        Some(run.page_origin.as_str().to_owned())
    } else {
        None
    };
    FetchStep::Send(
        HopRequest {
            url: run.current_url.as_str().to_owned(),
            method: run.current_method.as_str().to_owned(),
            origin: wire_origin,
            cookies,
            headers,
            body: run.current_body.as_str().to_owned(),
        },
        run,
    )
}

/// Starts a request on the network, given the origin of the URL that it goes
/// out to and the page's headers.
pub fn launch(plan: Plan<String, Headers>, origin: &Option<String>, given: Headers) -> (r:
    FetchStep<String, Headers>)
    ensures
        r@ == launch_step(plan@, opt_text(*origin), pairs(given@)),
{
    let Plan { job, url, method, headers, body } = plan;
    let FetchJob { request, intercept: _, private_network, stealth } = job;
    let url: String = pick_text(url, request.url.as_str());
    let method: String = pick_text(method, request.method.as_str());
    let body: String = pick_text(body, request.body.as_str());
    let headers: Headers = match headers {
        Some(h) => h,
        None => given,
    };
    let page_origin: String = if is_empty(request.origin.as_str()) {
        origin_text(origin)
    } else {
        request.origin
    };
    let credentials: FetchCredentials = FetchCredentials::parse(request.credentials.as_str());
    let current_method: String = method_to_send(method.as_str());
    let cross: bool = !is_empty(page_origin.as_str()) && !same_text(
        origin_text(origin).as_str(),
        page_origin.as_str(),
    );
    let simple_method: bool = same_text(current_method.as_str(), "GET") || same_text(
        current_method.as_str(),
        "HEAD",
    ) || same_text(current_method.as_str(), "POST");
    let needs: bool = cross && same_text(request.mode.as_str(), "cors") && (!simple_method
        || has_unsafe_header(&headers));
    let run: FetchRun<String, Headers> = FetchRun {
        current_url: url.as_str().to_owned(),
        url,
        method,
        page_origin,
        mode: request.mode,
        credentials,
        headers,
        private_network,
        stealth,
        current_method,
        current_body: body,
        redirects: 0,
    };
    assert(run@ == first_run(plan@, opt_text(*origin), pairs(given@)));
    if needs {
        let names: Vec<String> = header_names(&run.headers);
        FetchStep::Preflight(
            PreflightRequest {
                url: run.url.as_str().to_owned(),
                origin: run.page_origin.as_str().to_owned(),
                request_method: run.method.as_str().to_owned(),
                request_headers: join(&names, ", "),
            },
            run,
        )
    } else {
        send_hop(run, origin)
    }
}

/// Goes on once the standing of the URL that interception put in is known.
pub fn resolve_rewrite(
    plan: Plan<String, Headers>,
    target: &Option<UrlParts<String>>,
    forbidden: bool,
    origin: &Option<String>,
    given: Headers,
) -> (r: FetchStep<String, Headers>)
    ensures
        r@ == rewrite_step(
            plan@,
            opt_parts(*target),
            forbidden,
            opt_text(*origin),
            pairs(given@),
        ),
{
    if let Some(url) = &plan.url {
        if let Some(p) = target {
            match validate_fetch_url(p, plan.job.private_network, forbidden) {
                Ok(_) => {},
                Err(e) => {
                    let mut message: String =
                        "Intercept rewrite to forbidden URL blocked: ".to_owned();
                    message.append(e.as_str());
                    let reply: FetchReply<String, Headers> = empty_reply(
                        url.as_str().to_owned(),
                        false,
                    );
                    return FetchStep::Done(
                        FetchReply { blocked: true, error: Some(message), ..reply },
                        None,
                    );
                },
            }
        }
    }
    launch(plan, origin, given)
}

/// Goes on once interception is over, given what the URL it put in parses to,
/// the origin of where the request goes, and the page's headers.
pub fn settle_plan(
    plan: Plan<String, Headers>,
    target: &Option<UrlParts<String>>,
    origin: &Option<String>,
    given: Headers,
) -> (r: FetchStep<String, Headers>)
    ensures
        r@ == plan_step(plan@, opt_parts(*target), opt_text(*origin), pairs(given@)),
{
    let ip: Option<String> = if plan.url.is_some() {
        match target {
            Some(p) => address_to_check(p, plan.job.private_network),
            None => None,
        }
    } else {
        None
    };
    match ip {
        Some(address) => FetchStep::CheckAddress(address, AddressCheck::Rewrite(plan)),
        None => resolve_rewrite(plan, target, false, origin, given),
    }
}

fn url_of_plan(plan: &Plan<String, Headers>) -> (r: String)
    ensures
        r@ == plan_url(plan@),
{
    match &plan.url {
        Some(u) => u.as_str().to_owned(),
        None => plan.job.request.url.as_str().to_owned(),
    }
}

fn target_of_plan(plan: &Plan<String, Headers>) -> (r: Option<UrlParts<String>>)
    ensures
        opt_parts(r) == plan_target(plan@),
{
    match &plan.url {
        Some(u) => parse_parts(u.as_str()),
        None => None,
    }
}

fn go_on(plan: Plan<String, Headers>) -> (r: FetchStep<String, Headers>)
    ensures
        r@ == plan_step(
            plan@,
            plan_target(plan@),
            origin_of(plan_url(plan@)),
            parsed_headers(plan@.job.request.headers_json),
        ),
{
    let target: Option<UrlParts<String>> = target_of_plan(&plan);
    let url: String = url_of_plan(&plan);
    let origin: Option<String> = request_origin(url.as_str());
    let given: Headers = parse_headers(plan.job.request.headers_json.as_str());
    settle_plan(plan, &target, &origin, given)
}

/// The first step of a request: it is shown to whoever intercepts it, or goes
/// on at once.
pub open spec fn job_step(job: FetchJob<Seq<char>>) -> FetchStepView {
    match job.intercept {
        Some(id) => FetchStep::Intercept(
            InterceptQuery {
                request_id: id,
                url: job.request.url,
                method: job.request.method,
                headers: parsed_headers(job.request.headers_json),
                resource_type: "Fetch"@,
            },
            job,
        ),
        None => plan_step(
            plain_plan(job),
            None,
            origin_of(job.request.url),
            parsed_headers(job.request.headers_json),
        ),
    }
}

/// Starts the course of a request.
pub fn run_fetch_job(job: FetchJob<String>) -> (r: FetchStep<String, Headers>)
    ensures
        r@ == job_step(job@),
{
    match &job.intercept {
        Some(id) => {
            let query: InterceptQuery<String, Headers> = InterceptQuery {
                request_id: id.as_str().to_owned(),
                url: job.request.url.as_str().to_owned(),
                method: job.request.method.as_str().to_owned(),
                headers: parse_headers(job.request.headers_json.as_str()),
                resource_type: "Fetch".to_owned(),
            };
            FetchStep::Intercept(query, job)
        },
        None => go_on(Plan { job, url: None, method: None, headers: None, body: None }),
    }
}

/// The headers that interception put in, as a map.
pub open spec fn opt_mapped(headers: Option<Headers>) -> Option<HeaderView> {
    match headers {
        Some(h) => Some(mapped(pairs(h@))),
        None => None,
    }
}

/// The plan after interception let the request go on.
pub open spec fn continued(
    job: FetchJob<Seq<char>>,
    url: Option<Seq<char>>,
    method: Option<Seq<char>>,
    headers: Option<HeaderView>,
    body: Option<Seq<char>>,
) -> PlanView {
    Plan { job, url, method, headers, body }
}

/// What a request does once whoever intercepts it has decided. Without a
/// decision it goes on as it is.
pub open spec fn intercepted_step(
    job: FetchJob<Seq<char>>,
    decision: Option<InterceptResolution>,
) -> FetchStepView {
    match decision {
        Some(InterceptResolution::Fulfill { status, headers, body }) => FetchStep::Done(
            FetchReply {
                status,
                body: body@,
                headers: Some(mapped(pairs(headers@))),
                ..bare_reply(job.request.url, true)
            },
            None,
        ),
        Some(InterceptResolution::Fail { reason }) => FetchStep::Done(
            blocked_reply(job.request.url, Some(reason@)),
            None,
        ),
        Some(InterceptResolution::Continue { url, method, headers, body }) => {
            let plan: PlanView = continued(
                job,
                opt_text(url),
                opt_text(method),
                opt_mapped(headers),
                opt_text(body),
            );
            plan_step(
                plan,
                plan_target(plan),
                origin_of(plan_url(plan)),
                parsed_headers(job.request.headers_json),
            )
        },
        None => plan_step(
            plain_plan(job),
            None,
            origin_of(job.request.url),
            parsed_headers(job.request.headers_json),
        ),
    }
}

/// Goes on once whoever intercepts the request has decided, or cannot.
pub fn on_interception(job: FetchJob<String>, decision: Option<InterceptResolution>) -> (r:
    FetchStep<String, Headers>)
    ensures
        r@ == intercepted_step(job@, decision),
{
    match decision {
        Some(InterceptResolution::Fulfill { status, headers, body }) => {
            let reply: FetchReply<String, Headers> = empty_reply(job.request.url, true);
            FetchStep::Done(
                FetchReply { status, body, headers: Some(map_headers(&headers)), ..reply },
                None,
            )
        },
        Some(InterceptResolution::Fail { reason }) => {
            let reply: FetchReply<String, Headers> = empty_reply(job.request.url, true);
            FetchStep::Done(FetchReply { blocked: true, error: Some(reason), ..reply }, None)
        },
        Some(InterceptResolution::Continue { url, method, headers, body }) => {
            let headers: Option<Headers> = match headers {
                Some(h) => Some(map_headers(&h)),
                None => None,
            };
            go_on(Plan { job, url, method, headers, body })
        },
        None => go_on(Plan { job, url: None, method: None, headers: None, body: None }),
    }
}

/// What a request does once its preflight is answered: the access headers that
/// came back, or an error.
pub open spec fn preflight_step(
    run: RunView,
    answer: Result<(Seq<char>, Seq<char>), Seq<char>>,
    origin: Option<Seq<char>>,
) -> FetchStepView {
    match answer {
        Err(e) => FetchStep::Failed("CORS preflight failed: "@ + e),
        Ok((allowed, credentials)) => if cors_allows(
            run.credentials,
            run.page_origin,
            allowed,
            credentials,
        ) {
            hop_step(run, origin)
        } else {
            FetchStep::Failed(
                "CORS preflight: Origin '"@ + run.page_origin
                    + "' not allowed by Access-Control-Allow-Origin '"@ + allowed + "'"@,
            )
        },
    }
}

/// An answer to a preflight over scalar sequences.
pub open spec fn preflight_view(answer: Result<(String, String), String>) -> Result<
    (Seq<char>, Seq<char>),
    Seq<char>,
> {
    match answer {
        Ok(p) => Ok((p.0@, p.1@)),
        Err(e) => Err(e@),
    }
}

/// Goes on with the answer to a preflight, given the origin of the URL that
/// the request goes to.
pub fn resolve_preflight(
    run: FetchRun<String, Headers>,
    answer: Result<(String, String), String>,
    origin: &Option<String>,
) -> (r: FetchStep<String, Headers>)
    ensures
        r@ == preflight_step(run@, preflight_view(answer), opt_text(*origin)),
{
    match answer {
        Err(e) => {
            let mut message: String = "CORS preflight failed: ".to_owned();
            message.append(e.as_str());
            FetchStep::Failed(message)
        },
        Ok((allowed, credentials)) => {
            if cors_response_allows(
                run.credentials,
                run.page_origin.as_str(),
                allowed.as_str(),
                credentials.as_str(),
            ) {
                send_hop(run, origin)
            } else {
                let mut message: String = "CORS preflight: Origin '".to_owned();
                message.append(run.page_origin.as_str());
                message.append("' not allowed by Access-Control-Allow-Origin '");
                message.append(allowed.as_str());
                message.append("'");
                FetchStep::Failed(message)
            }
        },
    }
}

/// Goes on with the answer to a preflight.
pub fn on_preflight(run: FetchRun<String, Headers>, answer: Result<(String, String), String>) -> (r:
    FetchStep<String, Headers>)
    ensures
        r@ == preflight_step(run@, preflight_view(answer), origin_of(run@.current_url)),
{
    let origin: Option<String> = request_origin(run.current_url.as_str());
    resolve_preflight(run, answer, &origin)
}

/// The request at the hop after a redirect: the first three redirect statuses
/// for a moved target turn it into a `GET` without a body, any other keeps
/// both.
pub open spec fn redirected(run: RunView, status: u16, href: Seq<char>) -> RunView {
    let downgrade: bool = status == 301 || status == 302 || status == 303;
    FetchRun {
        current_url: href,
        current_method: if downgrade {
            "GET"@
        } else {
            run.current_method
        },
        current_body: if downgrade {
            Seq::empty()
        } else {
            run.current_body
        },
        redirects: (run.redirects + 1) as usize,
        ..run
    }
}

/// What a request does at a redirect once the standing of its target is known:
/// a refused target and one redirect too many end it.
pub open spec fn redirect_step(
    run: RunView,
    status: u16,
    target: UrlParts<Seq<char>>,
    forbidden: bool,
) -> FetchStepView {
    match refusal_message(refusal(target, run.private_network, forbidden)) {
        Some(e) => FetchStep::Done(
            blocked_reply(target.href, Some("Redirect to forbidden URL blocked: "@ + e)),
            None,
        ),
        None => if run.redirects >= FETCH_REDIRECT_LIMIT {
            FetchStep::Done(
                blocked_reply(target.href, Some("Too many redirects (>10)"@)),
                None,
            )
        } else {
            hop_step(redirected(run, status, target.href), Some(target.origin))
        },
    }
}

fn blocked_end(url: String, error: String) -> (r: FetchStep<String, Headers>)
    ensures
        r@ == FetchStepView::Done(blocked_reply(url@, Some(error@)), None),
{
    let reply: FetchReply<String, Headers> = empty_reply(url, true);
    FetchStep::Done(FetchReply { blocked: true, error: Some(error), ..reply }, None)
}

/// Goes on at a redirect once the standing of its target is known.
pub fn follow_redirect(
    run: FetchRun<String, Headers>,
    status: u16,
    target: UrlParts<String>,
    forbidden: bool,
) -> (r: FetchStep<String, Headers>)
    ensures
        r@ == redirect_step(run@, status, target@, forbidden),
{
    match validate_fetch_url(&target, run.private_network, forbidden) {
        Ok(_) => {},
        Err(e) => {
            let mut message: String = "Redirect to forbidden URL blocked: ".to_owned();
            message.append(e.as_str());
            return blocked_end(target.href, message);
        },
    }
    if run.redirects >= FETCH_REDIRECT_LIMIT {
        return blocked_end(target.href, "Too many redirects (>10)".to_owned());
    }
    let downgrade: bool = status == 301 || status == 302 || status == 303;
    let method: String = if downgrade {
        "GET".to_owned()
    } else {
        run.current_method.as_str().to_owned()
    };
    let body: String = if downgrade {
        String::new()
    } else {
        run.current_body.as_str().to_owned()
    };
    let next: FetchRun<String, Headers> = FetchRun {
        current_url: target.href,
        current_method: method,
        current_body: body,
        redirects: run.redirects + 1,
        ..run
    };
    send_hop(next, &Some(target.origin))
}

/// The message for a response that its access headers keep from the page.
pub open spec fn cors_message(
    credentials: FetchCredentials,
    page_origin: Seq<char>,
    allowed: Seq<char>,
) -> Seq<char> {
    if credentials == FetchCredentials::Include {
        "CORS error: credentialed request requires Access-Control-Allow-Origin '"@ + page_origin
            + "' and Access-Control-Allow-Credentials 'true'"@
    } else {
        "CORS error: Origin '"@ + page_origin + "' not in Access-Control-Allow-Origin '"@ + allowed
            + "'"@
    }
}

/// Whether the page may read the final response: within its origin or outside
/// `cors` mode always, else by the access headers.
pub open spec fn readable(
    run: RunView,
    headers: HeaderView,
    origin: Option<Seq<char>>,
) -> bool {
    !(crosses(run, origin) && run.mode == "cors"@) || cors_allows(
        run.credentials,
        run.page_origin,
        text_or(lookup(mapped(headers), "access-control-allow-origin"@)),
        text_or(lookup(mapped(headers), "access-control-allow-credentials"@)),
    )
}

/// What a request does at its final response, given the origin of the URL that
/// it came from.
pub open spec fn final_step(
    run: RunView,
    response: ResponseView,
    origin: Option<Seq<char>>,
) -> FetchStepView {
    if readable(run, response.headers, origin) {
        FetchStep::ReadBody(run, response)
    } else {
        FetchStep::Done(
            FetchReply {
                cors_blocked: true,
                cors_error: Some(
                    cors_message(
                        run.credentials,
                        run.page_origin,
                        text_or(lookup(mapped(response.headers), "access-control-allow-origin"@)),
                    ),
                ),
                ..bare_reply(run.url, true)
            },
            None,
        )
    }
}

/// Goes on at the final response, given the origin of the URL that it came
/// from.
pub fn finish_response(
    run: FetchRun<String, Headers>,
    response: HopResponse<String, Headers>,
    origin: &Option<String>,
) -> (r: FetchStep<String, Headers>)
    ensures
        r@ == final_step(run@, response@, opt_text(*origin)),
{
    let cross: bool = match origin {
        Some(o) => !same_text(o.as_str(), run.page_origin.as_str()),
        None => false,
    };
    if cross && same_text(run.mode.as_str(), "cors") {
        let map: Headers = map_headers(&response.headers);
        let allowed_header: Option<String> = get_header(&map, "access-control-allow-origin");
        let credentials_header: Option<String> = get_header(
            &map,
            "access-control-allow-credentials",
        );
        let allowed: String = origin_text(&allowed_header);
        let credentials: String = origin_text(&credentials_header);
        if !cors_response_allows(
            run.credentials,
            run.page_origin.as_str(),
            allowed.as_str(),
            credentials.as_str(),
        ) {
            let mut message: String = String::new();
            if run.credentials == FetchCredentials::Include {
                message =
                "CORS error: credentialed request requires Access-Control-Allow-Origin '".to_owned();
                message.append(run.page_origin.as_str());
                message.append("' and Access-Control-Allow-Credentials 'true'");
            } else {
                message = "CORS error: Origin '".to_owned();
                message.append(run.page_origin.as_str());
                message.append("' not in Access-Control-Allow-Origin '");
                message.append(allowed.as_str());
                message.append("'");
            }
            let reply: FetchReply<String, Headers> = empty_reply(run.url, true);
            return FetchStep::Done(
                FetchReply { cors_blocked: true, cors_error: Some(message), ..reply },
                None,
            );
        }
    }
    FetchStep::ReadBody(run, response)
}

/// Whether a status redirects.
pub open spec fn redirects(status: u16) -> bool {
    300 <= status < 400
}

/// What a request does with the head of a response. `target` is where its
/// location leads, where it has one that resolves, and `origin` the origin of
/// the URL that it came from.
pub open spec fn response_step(
    run: RunView,
    answer: Result<ResponseView, Seq<char>>,
    target: Option<UrlParts<Seq<char>>>,
    origin: Option<Seq<char>>,
) -> FetchStepView {
    match answer {
        Err(e) => FetchStep::Failed(e),
        Ok(response) => match target {
            Some(p) => if redirects(response.status) && response.location is Some {
                match address_in_question(p, run.private_network) {
                    Some(ip) => FetchStep::CheckAddress(
                        ip,
                        AddressCheck::Redirect(run, response.status, p),
                    ),
                    None => redirect_step(run, response.status, p, false),
                }
            } else {
                final_step(run, response, origin)
            },
            None => final_step(run, response, origin),
        },
    }
}

/// An answer to a hop over scalar sequences.
pub open spec fn response_view(answer: Result<HopResponse<String, Headers>, String>) -> Result<
    ResponseView,
    Seq<char>,
> {
    match answer {
        Ok(p) => Ok(p@),
        Err(e) => Err(e@),
    }
}

/// Goes on with the answer to a hop, given where its location leads and the
/// origin of the URL that it came from.
pub fn resolve_response(
    run: FetchRun<String, Headers>,
    answer: Result<HopResponse<String, Headers>, String>,
    target: Option<UrlParts<String>>,
    origin: &Option<String>,
) -> (r: FetchStep<String, Headers>)
    ensures
        r@ == response_step(
            run@,
            response_view(answer),
            opt_parts(target),
            opt_text(*origin),
        ),
{
    match answer {
        Err(e) => FetchStep::Failed(e),
        Ok(response) => match target {
            Some(p) => {
                if 300 <= response.status && response.status < 400 && response.location.is_some() {
                    match address_to_check(&p, run.private_network) {
                        Some(ip) => FetchStep::CheckAddress(
                            ip,
                            AddressCheck::Redirect(run, response.status, p),
                        ),
                        None => follow_redirect(run, response.status, p, false),
                    }
                } else {
                    finish_response(run, response, origin)
                }
            },
            None => finish_response(run, response, origin),
        },
    }
}

/// Where the location of a response to the current hop leads.
pub open spec fn location_target(
    run: RunView,
    answer: Result<ResponseView, Seq<char>>,
) -> Option<UrlParts<Seq<char>>> {
    match answer {
        Ok(response) => match response.location {
            Some(l) => joined_url(run.current_url, l),
            None => None,
        },
        Err(e) => None,
    }
}

/// Goes on with the answer to a hop.
pub fn on_response(
    run: FetchRun<String, Headers>,
    answer: Result<HopResponse<String, Headers>, String>,
) -> (r: FetchStep<String, Headers>)
    ensures
        r@ == response_step(
            run@,
            response_view(answer),
            location_target(run@, response_view(answer)),
            origin_of(run@.current_url),
        ),
{
    let target: Option<UrlParts<String>> = match &answer {
        Ok(response) => match &response.location {
            Some(l) => join_parts(run.current_url.as_str(), l.as_str()),
            None => None,
        },
        Err(_) => None,
    };
    let origin: Option<String> = request_origin(run.current_url.as_str());
    resolve_response(run, answer, target, &origin)
}

/// What a request does once the standing of an address is known.
pub open spec fn checked_step(
    check: AddressCheck<Seq<char>, HeaderView>,
    forbidden: bool,
) -> FetchStepView {
    match check {
        AddressCheck::Rewrite(plan) => rewrite_step(
            plan,
            plan_target(plan),
            forbidden,
            origin_of(plan_url(plan)),
            parsed_headers(plan.job.request.headers_json),
        ),
        AddressCheck::Redirect(run, status, target) => redirect_step(
            run,
            status,
            target,
            forbidden,
        ),
    }
}

/// Goes on once the standing of an address is known.
pub fn on_address(check: AddressCheck<String, Headers>, forbidden: bool) -> (r: FetchStep<
    String,
    Headers,
>)
    ensures
        r@ == checked_step(check@, forbidden),
{
    match check {
        AddressCheck::Rewrite(plan) => {
            let target: Option<UrlParts<String>> = target_of_plan(&plan);
            let url: String = url_of_plan(&plan);
            let origin: Option<String> = request_origin(url.as_str());
            let given: Headers = parse_headers(plan.job.request.headers_json.as_str());
            resolve_rewrite(plan, &target, forbidden, &origin, given)
        },
        AddressCheck::Redirect(run, status, target) => follow_redirect(
            run,
            status,
            target,
            forbidden,
        ),
    }
}

/// How a request ends once the body of its final response is read, given the
/// text and the Base64 form of the body. A stealth request leaves nothing to
/// keep.
pub open spec fn body_step(
    run: RunView,
    response: ResponseView,
    len: usize,
    text: Seq<char>,
    base64: Seq<char>,
) -> FetchStepView {
    FetchStep::Done(
        FetchReply {
            status: response.status,
            body: text,
            body_base64: Some(base64),
            headers: Some(mapped(response.headers)),
            ..bare_reply(run.url, true)
        },
        if run.stealth {
            None
        } else {
            Some(
                FetchStore {
                    body: text,
                    body_len: len,
                    url: run.url,
                    method: run.method,
                    status: response.status,
                    response_headers: mapped(response.headers),
                },
            )
        },
    )
}

/// Ends a request with the body of its final response.
pub fn finish_body(
    run: FetchRun<String, Headers>,
    response: HopResponse<String, Headers>,
    len: usize,
    text: String,
    base64: String,
) -> (r: FetchStep<String, Headers>)
    ensures
        r@ == body_step(run@, response@, len, text@, base64@),
{
    let map: Headers = map_headers(&response.headers);
    let store: Option<FetchStore<String, Headers>> = if run.stealth {
        None
    } else {
        Some(
            FetchStore {
                body: text.as_str().to_owned(),
                body_len: len,
                url: run.url.as_str().to_owned(),
                method: run.method,
                status: response.status,
                response_headers: copy_headers(&map),
            },
        )
    };
    let reply: FetchReply<String, Headers> = empty_reply(run.url, true);
    FetchStep::Done(
        FetchReply {
            status: response.status,
            body: text,
            body_base64: Some(base64),
            headers: Some(map),
            ..reply
        },
        store,
    )
}

/// Ends a request with the body of its final response, or with the error that
/// reading it gave.
pub fn on_body(
    run: FetchRun<String, Headers>,
    response: HopResponse<String, Headers>,
    body: Result<Vec<u8>, String>,
) -> (r: FetchStep<String, Headers>)
    requires
        match body {
            Ok(b) => encodable(b@),
            Err(e) => true,
        },
    ensures
        match body {
            Ok(b) => r@ == body_step(
                run@,
                response@,
                b@.len() as usize,
                lossy_text(b@),
                base64_text(b@),
            ),
            Err(e) => r@ == FetchStepView::Failed(e@),
        },
{
    match body {
        Ok(b) => {
            let text: String = decode_lossy(&b);
            let base64: String = encode_base64(&b);
            let len: usize = b.len();
            finish_body(run, response, len, text, base64)
        },
        Err(e) => FetchStep::Failed(e),
    }
}

/// The URL of a request as whoever observes requests is told of it; nobody is
/// told of one whose URL does not parse.
pub fn request_observed(url: &str) -> (r: Option<String>)
    ensures
        opt_text(r) == (match parse_outcome(url@) {
            Ok(href) => Some(href),
            Err(_) => None,
        }),
{
    match try_parse(url) {
        Ok(href) => Some(href),
        Err(_) => None,
    }
}

/// The method that is reported to whoever observes responses: that of the last
/// hop where the stealth client sent it, else the requested one.
pub open spec fn observed_method(run: RunView) -> Seq<char> {
    if run.stealth {
        run.current_method
    } else {
        run.method
    }
}

/// The method that is reported to whoever observes responses.
pub fn response_method(run: &FetchRun<String, Headers>) -> (r: String)
    ensures
        r@ == observed_method(run@),
{
    if run.stealth {
        run.current_method.as_str().to_owned()
    } else {
        run.method.as_str().to_owned()
    }
}

/// The URL that is reported to whoever observes responses: the requested one
/// in its serialised form, or a fixed one where it does not parse.
pub open spec fn observed_url(url: Option<UrlParts<Seq<char>>>) -> Seq<char> {
    match url {
        Some(p) => p.href,
        None => "http://0.0.0.0/"@,
    }
}

/// The URL of the response that is reported to whoever observes responses.
pub fn fetch_response(url: &str) -> (r: String)
    ensures
        r@ == observed_url(parsed_url(url@)),
{
    match parse_parts(url) {
        Some(p) => p.href,
        None => "http://0.0.0.0/".to_owned(),
    }
}

/// The redirects that a step has behind it.
pub open spec fn redirects_behind(step: FetchStepView) -> Option<usize> {
    match step {
        FetchStep::Preflight(p, run) => Some(run.redirects),
        FetchStep::Send(h, run) => Some(run.redirects),
        FetchStep::ReadBody(run, response) => Some(run.redirects),
        FetchStep::CheckAddress(ip, AddressCheck::Redirect(run, status, p)) => Some(run.redirects),
        _ => None,
    }
}

/// A request follows no more redirects than the limit: it starts out with
/// none, no answer takes it past the limit, and only a redirect counts one up.
pub proof fn redirects_are_bounded(
    run: RunView,
    answer: Result<ResponseView, Seq<char>>,
    target: Option<UrlParts<Seq<char>>>,
    origin: Option<Seq<char>>,
    status: u16,
    next: UrlParts<Seq<char>>,
    forbidden: bool,
    plan: PlanView,
    given: HeaderView,
)
    requires
        run.redirects <= FETCH_REDIRECT_LIMIT,
    ensures
        match redirects_behind(launch_step(plan, origin, given)) {
            Some(n) => n == 0,
            None => true,
        },
        match redirects_behind(response_step(run, answer, target, origin)) {
            Some(n) => run.redirects <= n <= FETCH_REDIRECT_LIMIT && n <= run.redirects + 1,
            None => true,
        },
        match redirects_behind(redirect_step(run, status, next, forbidden)) {
            Some(n) => n == run.redirects + 1 && n <= FETCH_REDIRECT_LIMIT,
            None => true,
        },
{
}

/// A redirect to a refused target is never followed: the request ends with a
/// blocked reply.
pub proof fn refused_redirects_are_not_followed(
    run: RunView,
    status: u16,
    target: UrlParts<Seq<char>>,
    forbidden: bool,
)
    requires
        refusal(target, run.private_network, forbidden) is Some,
    ensures
        match redirect_step(run, status, target, forbidden) {
            FetchStep::Done(reply, store) => reply.blocked && reply.error is Some && store is None,
            _ => false,
        },
{
}

/// A URL that interception puts in is held to the same rule as any other: a
/// refused one is never asked for, and the request ends with a blocked reply.
pub proof fn refused_rewrites_are_not_sent(
    plan: PlanView,
    target: UrlParts<Seq<char>>,
    forbidden: bool,
    origin: Option<Seq<char>>,
    given: HeaderView,
)
    requires
        plan.url is Some,
        refusal(target, plan.job.private_network, forbidden) is Some,
    ensures
        match rewrite_step(plan, Some(target), forbidden, origin, given) {
            FetchStep::Done(reply, store) => reply.blocked && reply.error is Some && store is None,
            _ => false,
        },
{
}

/// Every hop decides about cookies by its own URL: a hop carries and stores
/// them exactly where the credentials mode allows it for that hop's origin,
/// whatever the hops before it did.
pub proof fn cookies_follow_each_hop(run: RunView, origin: Option<Seq<char>>)
    ensures
        match hop_step(run, origin) {
            FetchStep::Send(hop, after) => {
                &&& hop.cookies == credentials_allow(run.credentials, run.page_origin, origin)
                &&& run.credentials == FetchCredentials::Omit ==> !hop.cookies
                &&& run.credentials == FetchCredentials::SameOrigin && crosses(run, origin)
                    ==> !hop.cookies
                &&& after == run
            },
            _ => true,
        },
{
}

/// A response across origins in `cors` mode reaches the page only where its
/// access headers allow it.
pub proof fn unreadable_responses_stay_hidden(
    run: RunView,
    response: ResponseView,
    origin: Option<Seq<char>>,
)
    requires
        !readable(run, response.headers, origin),
    ensures
        match final_step(run, response, origin) {
            FetchStep::Done(reply, store) => {
                &&& reply.status == 0
                &&& reply.body.len() == 0
                &&& reply.body_base64 is None
                &&& reply.headers == Some(Seq::<(Seq<char>, Seq<char>)>::empty())
                &&& reply.cors_blocked
                &&& store is None
            },
            _ => false,
        },
{
}

} // verus!
