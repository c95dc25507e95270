use tinybrowser::fetch::headers::{
    get_header, map_headers, parse_headers, put_header, write_headers,
};
use tinybrowser::fetch::job::{
    fetch_response, on_address, on_body, on_interception, on_preflight, on_response,
    request_observed, response_method, run_fetch_job, AddressCheck, FetchRun, FetchStep, HopResponse, InterceptResolution,
};
use tinybrowser::fetch::policy::{
    address_to_check, cors_response_allows, glob_match, is_blocked, validate_fetch_url,
    FetchCredentials,
};
use tinybrowser::fetch::reply::{write_reply, FetchOutcome, FetchReply, FetchStore};
use tinybrowser::fetch::store::{
    apply_fetch_outcome, fetch_timeout, request_address_to_check, response_body_byte_limit,
    response_body_entry_limit, start_fetch, FetchJob, FetchRequest, FetchStart, NetworkSide,
};
use tinybrowser::runtime::{FetchSettlement, JsRuntime};
use tinybrowser::state::{Headers, RuntimeState};
use tinybrowser::urls::{parse_parts, UrlParts};

fn s(text: &str) -> String {
    text.to_string()
}

fn parts(href: &str) -> UrlParts<String> {
    parse_parts(href).expect("a URL")
}

fn header(name: &str, value: &str) -> (String, String) {
    (s(name), s(value))
}

fn request(url: &str) -> FetchRequest<String> {
    FetchRequest {
        url: s(url),
        method: s("GET"),
        headers_json: s("{}"),
        body: s(""),
        origin: s("https://www.example.com"),
        mode: s("cors"),
        credentials: s("same-origin"),
    }
}

fn job(request: FetchRequest<String>) -> FetchJob<String> {
    FetchJob { request, intercept: None, private_network: false, stealth: false }
}

fn side() -> NetworkSide {
    NetworkSide {
        private_network: false,
        address_forbidden: false,
        intercept_channel: false,
        stealth: false,
    }
}

fn sent(step: FetchStep<String, Headers>) -> FetchRun<String, Headers> {
    match step {
        FetchStep::Send(_, run) => run,
        _ => panic!("a hop was due"),
    }
}

fn done(step: FetchStep<String, Headers>) -> (FetchReply<String, Headers>, Option<FetchStore<String, Headers>>) {
    match step {
        FetchStep::Done(reply, store) => (reply, store),
        _ => panic!("the request should have ended"),
    }
}

fn redirect(status: u16, location: &str) -> Result<HopResponse<String, Headers>, String> {
    Ok(HopResponse {
        status,
        headers: vec![header("location", location)],
        location: Some(s(location)),
    })
}

fn response(status: u16, headers: Headers) -> Result<HopResponse<String, Headers>, String> {
    Ok(HopResponse { status, headers, location: None })
}

#[test]
fn glob_match_handles_cdp_blocked_url_patterns() {
    assert!(glob_match(
        "*://*.google.com/maps/vt/*",
        "https://www.google.com/maps/vt/pb=!1m4!1m3",
    ));
    assert!(glob_match(
        "*://*.gstatic.com/*.woff2",
        "https://fonts.gstatic.com/s/inter/v18/font.woff2",
    ));
    assert!(glob_match(
        "https://example.com/assets/*",
        "https://example.com/assets/app.js",
    ));
    assert!(!glob_match(
        "https://example.com/assets/*",
        "https://cdn.example.com/assets/app.js",
    ));
    assert!(!glob_match(
        "*://*.gstatic.com/*.woff2",
        "https://fonts.gstatic.com/s/inter/v18/font.woff",
    ));
}

#[test]
fn fetch_credentials_gate_cookie_send_and_storage_per_request_origin() {
    let page_origin = "https://www.example.com";
    let same_origin_url = "https://www.example.com/api";
    let explicit_default_port = "https://www.example.com:443/api";
    let cross_origin_url = "https://api.example.com/data";

    assert!(!FetchCredentials::Omit.allows(page_origin, same_origin_url));
    assert!(!FetchCredentials::Omit.allows(page_origin, cross_origin_url));

    assert!(FetchCredentials::SameOrigin.allows(page_origin, same_origin_url));
    assert!(FetchCredentials::SameOrigin.allows(page_origin, explicit_default_port));
    assert!(!FetchCredentials::SameOrigin.allows(page_origin, cross_origin_url));

    assert!(FetchCredentials::Include.allows(page_origin, same_origin_url));
    assert!(FetchCredentials::Include.allows(page_origin, cross_origin_url));
}

#[test]
fn credentialed_cors_requires_exact_origin_and_allow_credentials() {
    let page_origin = "https://www.example.com";

    assert!(cors_response_allows(
        FetchCredentials::SameOrigin,
        page_origin,
        "*",
        "",
    ));
    assert!(!cors_response_allows(
        FetchCredentials::Include,
        page_origin,
        "*",
        "true",
    ));
    assert!(!cors_response_allows(
        FetchCredentials::Include,
        page_origin,
        page_origin,
        "",
    ));
    assert!(cors_response_allows(
        FetchCredentials::Include,
        page_origin,
        page_origin,
        "true",
    ));
}

#[test]
fn fetch_url_validation_honors_per_context_private_network_opt_in() {
    let loopback = parts("http://127.0.0.1:8080/resource");
    assert!(validate_fetch_url(&loopback, true, true).is_ok());
}

#[test]
fn credentials_modes_have_their_names() {
    assert_eq!(FetchCredentials::parse("omit"), FetchCredentials::Omit);
    assert_eq!(FetchCredentials::parse("include"), FetchCredentials::Include);
    assert_eq!(FetchCredentials::parse("same-origin"), FetchCredentials::SameOrigin);
    assert_eq!(FetchCredentials::parse("anything"), FetchCredentials::SameOrigin);
}

#[test]
fn plain_patterns_match_only_themselves() {
    assert!(glob_match("https://a.test/x", "https://a.test/x"));
    assert!(!glob_match("https://a.test/x", "https://a.test/xy"));
    assert!(glob_match("https://a.test/*", "https://a.test/"));
    assert!(glob_match("*", "anything"));
}

#[test]
fn targets_are_refused_for_their_reason() {
    assert_eq!(
        validate_fetch_url(&parts("ftp://example.com/x"), false, false).unwrap_err(),
        "Forbidden URL scheme 'ftp' - only http, https, and file are allowed"
    );
    assert_eq!(
        validate_fetch_url(&parts("http://127.0.0.1:1/secret"), false, true).unwrap_err(),
        "Access to private/internal IP address 127.0.0.1 is not allowed"
    );
    assert_eq!(
        validate_fetch_url(&parts("http://[::1]/"), false, true).unwrap_err(),
        "Access to private/internal IPv6 address ::1 is not allowed"
    );
    assert_eq!(
        validate_fetch_url(&parts("http://a.localhost/"), false, false).unwrap_err(),
        "Access to localhost domain 'a.localhost' is not allowed"
    );
    assert!(validate_fetch_url(&parts("file:///tmp/x"), false, true).is_ok());
    assert!(validate_fetch_url(&parts("https://example.com/"), false, true).is_ok());
}

#[test]
fn standing_is_asked_only_for_addresses() {
    assert_eq!(address_to_check(&parts("http://127.0.0.1/"), false), Some(s("127.0.0.1")));
    assert_eq!(address_to_check(&parts("http://127.0.0.1/"), true), None);
    assert_eq!(address_to_check(&parts("http://example.com/"), false), None);
    assert_eq!(request_address_to_check("http://10.0.0.1/x", false), Some(s("10.0.0.1")));
    assert_eq!(request_address_to_check("no url", false), None);
}

#[test]
fn blocked_patterns_cover_requests() {
    let patterns = vec![s("*://*.ads.test/*"), s("exact")];
    assert!(is_blocked(&patterns, "https://x.ads.test/banner"));
    assert!(!is_blocked(&patterns, "https://example.com/"));
}

#[test]
fn header_maps_keep_the_last_value_in_name_order() {
    let list = vec![header("b", "1"), header("a", "2"), header("b", "3")];
    let map = map_headers(&list);
    assert_eq!(map, vec![header("a", "2"), header("b", "3")]);
    assert_eq!(get_header(&map, "b"), Some(s("3")));
    assert_eq!(get_header(&map, "c"), None);
    assert_eq!(write_headers(&map), "{\"a\":\"2\",\"b\":\"3\"}");
    let mut more = map;
    put_header(&mut more, "aa", "x");
    assert_eq!(more[1], header("aa", "x"));
}

#[test]
fn replies_are_written_with_sorted_members() {
    let reply = FetchReply {
        status: 200,
        body: s("hi \"you\""),
        body_base64: Some(s("aGk=")),
        url: s("https://a.test/"),
        headers: Some(vec![header("x", "y")]),
        blocked: false,
        error: None,
        cors_blocked: false,
        cors_error: None,
        request_id: Some(s("fetch-1")),
    };
    assert_eq!(
        write_reply(&reply),
        "{\"body\":\"hi \\\"you\\\"\",\"bodyBase64\":\"aGk=\",\"headers\":{\"x\":\"y\"},\"requestId\":\"fetch-1\",\"status\":200,\"url\":\"https://a.test/\"}"
    );
    let blocked = FetchOutcome::blocked("https://a.test/", Some(s("no")));
    assert_eq!(
        write_reply(&blocked.reply),
        "{\"blocked\":true,\"body\":\"\",\"error\":\"no\",\"headers\":{},\"status\":0,\"url\":\"https://a.test/\"}"
    );
}

#[test]
fn fetch_ssrf_blocks_loopback_without_allow_private_network() {
    let mut gs = RuntimeState::new();
    let mut network = side();
    network.address_forbidden = true;
    match start_fetch(&mut gs, request("http://127.0.0.1:1/secret"), &network) {
        FetchStart::Immediate(outcome) => {
            assert!(outcome.reply.blocked);
            assert_eq!(
                outcome.reply.error.unwrap(),
                "Access to private/internal IP address 127.0.0.1 is not allowed"
            );
        }
        FetchStart::Pending(_) => panic!("the request should not go out"),
    }
    assert_eq!(gs.fetched_urls, vec![s("http://127.0.0.1:1/secret")]);
}

#[test]
fn blocked_requests_leave_no_trace() {
    let mut gs = RuntimeState::new();
    gs.blocked_urls = vec![s("https://ads.test/*")];
    match start_fetch(&mut gs, request("https://ads.test/x"), &side()) {
        FetchStart::Immediate(outcome) => {
            assert!(outcome.reply.blocked);
            assert!(outcome.reply.error.is_none());
            assert!(outcome.store.is_none());
        }
        FetchStart::Pending(_) => panic!("the request should not go out"),
    }
    assert!(gs.fetched_urls.is_empty());
}

#[test]
fn intercepted_requests_are_numbered() {
    let mut gs = RuntimeState::new();
    gs.intercept_enabled = true;
    let mut network = side();
    network.intercept_channel = true;
    for n in 1..3 {
        match start_fetch(&mut gs, request("https://example.com/"), &network) {
            FetchStart::Pending(job) => {
                assert_eq!(job.intercept, Some(format!("intercept-{n}")));
            }
            FetchStart::Immediate(_) => panic!("the request should go out"),
        }
    }
}

#[test]
fn fetch_intercept_fulfill_fail_and_continue_reach_the_promise() {
    let make = |url: &str| {
        let mut j = job(request(url));
        j.intercept = Some(s("intercept-1"));
        j
    };
    let shown = match run_fetch_job(make("http://example.invalid/fulfill")) {
        FetchStep::Intercept(query, job) => {
            assert_eq!(query.request_id, "intercept-1");
            assert_eq!(query.url, "http://example.invalid/fulfill");
            assert_eq!(query.resource_type, "Fetch");
            job
        }
        _ => panic!("the request is shown first"),
    };
    let (reply, store) = done(on_interception(
        shown,
        Some(InterceptResolution::Fulfill { status: 200, headers: vec![], body: s("fulfilled") }),
    ));
    assert_eq!(reply.status, 200);
    assert_eq!(reply.body, "fulfilled");
    assert!(store.is_none());

    let (reply, _) = done(on_interception(
        make("http://example.invalid/fail"),
        Some(InterceptResolution::Fail { reason: s("blocked-by-test") }),
    ));
    assert!(reply.blocked);
    assert_eq!(reply.error.unwrap(), "blocked-by-test");

    let run = sent(on_interception(
        make("https://www.example.com/fixture"),
        Some(InterceptResolution::Continue { url: None, method: None, headers: None, body: None }),
    ));
    let (run, head) = match on_response(run, response(200, vec![])) {
        FetchStep::ReadBody(run, head) => (run, head),
        _ => panic!("the body is read"),
    };
    let (reply, store) = done(on_body(run, head, Ok(b"from-network".to_vec())));
    assert_eq!(reply.body, "from-network");
    assert_eq!(store.unwrap().body_len, 12);
}

#[test]
fn rewrites_are_validated_again() {
    let resolution = |url: &str| {
        Some(InterceptResolution::Continue {
            url: Some(s(url)),
            method: Some(s("POST")),
            headers: Some(vec![header("Accept", "text/plain")]),
            body: Some(s("payload")),
        })
    };
    let (reply, _) = done(on_interception(job(request("https://a.test/")), resolution("http://localhost/")));
    assert!(reply.blocked);
    assert!(reply.headers.is_none());
    assert_eq!(
        reply.error.unwrap(),
        "Intercept rewrite to forbidden URL blocked: Access to localhost domain 'localhost' is not allowed"
    );
    let check = match on_interception(job(request("https://a.test/")), resolution("http://10.0.0.1/")) {
        FetchStep::CheckAddress(ip, check) => {
            assert_eq!(ip, "10.0.0.1");
            check
        }
        _ => panic!("the address is looked at"),
    };
    let (reply, _) = done(on_address(check, true));
    assert_eq!(
        reply.error.unwrap(),
        "Intercept rewrite to forbidden URL blocked: Access to private/internal IP address 10.0.0.1 is not allowed"
    );
    match on_interception(job(request("https://a.test/")), resolution("https://www.example.com/new")) {
        FetchStep::Send(hop, _) => {
            assert_eq!(hop.url, "https://www.example.com/new");
            assert_eq!(hop.method, "POST");
            assert_eq!(hop.body, "payload");
            assert!(hop.origin.is_none());
            assert!(hop.cookies);
            assert_eq!(hop.headers[0].0, "User-Agent");
            assert_eq!(hop.headers[1], header("Accept", "text/plain"));
        }
        _ => panic!("the request goes out"),
    }
}

#[test]
fn cross_origin_requests_carry_origin_and_no_cookies() {
    match run_fetch_job(job(request("https://api.example.com/data"))) {
        FetchStep::Send(hop, _) => {
            assert_eq!(hop.origin, Some(s("https://www.example.com")));
            assert!(!hop.cookies);
            assert_eq!(hop.method, "GET");
        }
        _ => panic!("the request goes out"),
    }
    let mut included = request("https://api.example.com/data");
    included.credentials = s("include");
    match run_fetch_job(job(included)) {
        FetchStep::Send(hop, _) => assert!(hop.cookies),
        _ => panic!("the request goes out"),
    }
}

#[test]
fn a_custom_user_agent_is_kept() {
    let mut custom = request("https://www.example.com/");
    custom.headers_json = s("{\"USER-agent\":\"mine\"}");
    match run_fetch_job(job(custom)) {
        FetchStep::Send(hop, _) => assert_eq!(hop.headers, vec![header("USER-agent", "mine")]),
        _ => panic!("the request goes out"),
    }
}

#[test]
fn unusual_methods_and_headers_need_a_preflight() {
    let mut put = request("https://api.example.com/data");
    put.method = s("PUT");
    put.headers_json = s("{\"X-B\":\"1\",\"Accept\":\"*/*\"}");
    let run = match run_fetch_job(job(put)) {
        FetchStep::Preflight(preflight, run) => {
            assert_eq!(preflight.url, "https://api.example.com/data");
            assert_eq!(preflight.origin, "https://www.example.com");
            assert_eq!(preflight.request_method, "PUT");
            assert_eq!(preflight.request_headers, "Accept, X-B");
            run
        }
        _ => panic!("a preflight is due"),
    };
    match on_preflight(run, Ok((s("https://other.test"), s("")))) {
        FetchStep::Failed(e) => assert_eq!(
            e,
            "CORS preflight: Origin 'https://www.example.com' not allowed by Access-Control-Allow-Origin 'https://other.test'"
        ),
        _ => panic!("the preflight forbids the request"),
    }
    let mut custom = request("https://api.example.com/data");
    custom.headers_json = s("{\"X-Custom\":\"1\"}");
    let run = match run_fetch_job(job(custom)) {
        FetchStep::Preflight(_, run) => run,
        _ => panic!("a preflight is due"),
    };
    match on_preflight(run, Err(s("refused"))) {
        FetchStep::Failed(e) => assert_eq!(e, "CORS preflight failed: refused"),
        _ => panic!("the preflight failed"),
    }
    let mut allowed = request("https://api.example.com/data");
    allowed.method = s("DELETE");
    let run = match run_fetch_job(job(allowed)) {
        FetchStep::Preflight(_, run) => run,
        _ => panic!("a preflight is due"),
    };
    let run = sent(on_preflight(run, Ok((s("*"), s("")))));
    assert_eq!(run.current_method, "DELETE");
}

#[test]
fn a_name_that_is_no_method_goes_out_as_get() {
    let mut odd = request("https://www.example.com/");
    odd.method = s("not a method");
    let run = sent(run_fetch_job(job(odd)));
    assert_eq!(run.current_method, "GET");
    assert_eq!(run.method, "not a method");
    let mut own = request("https://www.example.com/");
    own.method = s("my-Method!");
    assert_eq!(sent(run_fetch_job(job(own))).current_method, "my-Method!");
}

#[test]
fn redirects_downgrade_by_status() {
    let mut post = request("https://www.example.com/a");
    post.method = s("POST");
    post.body = s("data");
    let run = sent(run_fetch_job(job(post)));
    let run = sent(on_response(run, redirect(307, "/b")));
    assert_eq!(run.current_url, "https://www.example.com/b");
    assert_eq!(run.current_method, "POST");
    assert_eq!(run.current_body, "data");
    assert_eq!(run.redirects, 1);
    let run = sent(on_response(run, redirect(303, "https://www.example.com/c")));
    assert_eq!(run.current_method, "GET");
    assert_eq!(run.current_body, "");
    assert_eq!(run.url, "https://www.example.com/a");
}

#[test]
fn redirects_are_limited() {
    let mut run = sent(run_fetch_job(job(request("https://www.example.com/0"))));
    for _ in 0..10 {
        run = sent(on_response(run, redirect(302, "/next")));
    }
    assert_eq!(run.redirects, 10);
    let (reply, store) = done(on_response(run, redirect(302, "/next")));
    assert!(reply.blocked);
    assert_eq!(reply.error.unwrap(), "Too many redirects (>10)");
    assert!(store.is_none());
}

#[test]
fn redirects_to_refused_targets_are_blocked() {
    let run = sent(run_fetch_job(job(request("https://www.example.com/"))));
    let (reply, _) = done(on_response(run, redirect(301, "http://localhost:9000/")));
    assert_eq!(reply.url, "http://localhost:9000/");
    assert_eq!(
        reply.error.unwrap(),
        "Redirect to forbidden URL blocked: Access to localhost domain 'localhost' is not allowed"
    );
    let run = sent(run_fetch_job(job(request("https://www.example.com/"))));
    let check = match on_response(run, redirect(301, "http://10.1.2.3/")) {
        FetchStep::CheckAddress(ip, check) => {
            assert_eq!(ip, "10.1.2.3");
            check
        }
        _ => panic!("the address is looked at"),
    };
    assert!(matches!(check, AddressCheck::Redirect(_, 301, _)));
    let run = sent(on_address(check, false));
    assert_eq!(run.current_url, "http://10.1.2.3/");
}

#[test]
fn responses_without_a_usable_location_are_final() {
    let run = sent(run_fetch_job(job(request("https://www.example.com/"))));
    let head = response(302, vec![]);
    assert!(matches!(on_response(run, head), FetchStep::ReadBody(_, _)));
    let run = sent(run_fetch_job(job(request("https://www.example.com/"))));
    assert!(matches!(on_response(run, redirect(302, "http://[")), FetchStep::ReadBody(_, _)));
    let run = sent(run_fetch_job(job(request("https://www.example.com/"))));
    match on_response(run, Err(s("connection reset"))) {
        FetchStep::Failed(e) => assert_eq!(e, "connection reset"),
        _ => panic!("the hop failed"),
    }
}

#[test]
fn cross_origin_responses_need_leave() {
    let run = sent(run_fetch_job(job(request("https://api.example.com/"))));
    let (reply, _) = done(on_response(run, response(200, vec![])));
    assert!(reply.cors_blocked);
    assert_eq!(reply.status, 0);
    assert_eq!(
        reply.cors_error.unwrap(),
        "CORS error: Origin 'https://www.example.com' not in Access-Control-Allow-Origin ''"
    );
    let mut included = request("https://api.example.com/");
    included.credentials = s("include");
    let run = sent(run_fetch_job(job(included)));
    let star = vec![header("access-control-allow-origin", "*")];
    let (reply, _) = done(on_response(run, response(200, star)));
    assert_eq!(
        reply.cors_error.unwrap(),
        "CORS error: credentialed request requires Access-Control-Allow-Origin 'https://www.example.com' and Access-Control-Allow-Credentials 'true'"
    );
    let run = sent(run_fetch_job(job(request("https://api.example.com/"))));
    let star = vec![header("access-control-allow-origin", "*")];
    assert!(matches!(on_response(run, response(200, star)), FetchStep::ReadBody(_, _)));
    let mut opaque = request("https://api.example.com/");
    opaque.mode = s("no-cors");
    let run = sent(run_fetch_job(job(opaque)));
    assert!(matches!(on_response(run, response(200, vec![])), FetchStep::ReadBody(_, _)));
}

#[test]
fn patterns_take_each_part_where_it_first_stands() {
    assert!(glob_match("a*b", "axxb"));
    assert!(!glob_match("a*b", "abxb"));
    assert!(glob_match("a*b*", "abxb"));
    assert!(glob_match("*b*", "abxb"));
    assert!(!glob_match("b*", "abxb"));
    assert!(!glob_match("a*c*", "abxb"));
    assert!(glob_match("", ""));
    assert!(!glob_match("", "a"));
}

#[test]
fn bodies_are_told_as_text_and_base64() {
    let run = sent(run_fetch_job(job(request("https://www.example.com/"))));
    let head = HopResponse { status: 200, headers: vec![header("x", "1"), header("x", "2")], location: None };
    let (reply, store) = done(on_body(run, head, Ok(vec![0x68, 0x69, 0xff])));
    assert_eq!(reply.body, "hi\u{FFFD}");
    assert_eq!(reply.body_base64, Some(s("aGn/")));
    assert_eq!(reply.headers, Some(vec![header("x", "2")]));
    let store = store.unwrap();
    assert_eq!(store.body_len, 3);
    assert_eq!(store.method, "GET");
    let run = sent(run_fetch_job(job(request("https://www.example.com/"))));
    let head = HopResponse { status: 200, headers: vec![], location: None };
    match on_body(run, head, Err(s("cut off"))) {
        FetchStep::Failed(e) => assert_eq!(e, "cut off"),
        _ => panic!("the body failed"),
    }
}

#[test]
fn what_is_no_method_goes_out_as_a_get() {
    let mut odd = request("https://www.example.com/");
    odd.method = s("NOT A METHOD");
    match run_fetch_job(job(odd)) {
        FetchStep::Send(hop, run) => {
            assert_eq!(hop.method, "GET");
            assert_eq!(run.method, "NOT A METHOD");
        }
        _ => panic!("the request goes out"),
    }
}

#[test]
fn headers_that_are_no_object_are_none() {
    assert_eq!(parse_headers("{\"b\":\"2\",\"a\":\"1\"}"), vec![header("a", "1"), header("b", "2")]);
    assert!(parse_headers("no json").is_empty());
    assert!(parse_headers("{\"a\":1}").is_empty());
}

#[test]
fn observers_are_told_of_urls_that_parse() {
    assert_eq!(request_observed("HTTPS://A.com"), Some(s("https://a.com/")));
    assert_eq!(request_observed("no url"), None);
    let mut run = sent(run_fetch_job(job(request("https://www.example.com/"))));
    run.method = s("POST");
    run.current_method = s("GET");
    assert_eq!(response_method(&run), "POST");
    run.stealth = true;
    assert_eq!(response_method(&run), "GET");
}

#[test]
fn bodies_of_every_length_have_their_own_base64() {
    let expected = vec![
        (vec![], ""),
        (vec![0u8], "AA=="),
        (vec![0, 0], "AAA="),
        (vec![0, 0, 0], "AAAA"),
        (vec![0xfb, 0xef, 0xbe, 0xff], "++++/w=="),
    ];
    for (bytes, text) in expected {
        let run = sent(run_fetch_job(job(request("https://www.example.com/"))));
        let head = HopResponse { status: 200, headers: vec![], location: None };
        let (reply, _) = done(on_body(run, head, Ok(bytes)));
        assert_eq!(reply.body_base64, Some(s(text)));
    }
}

#[test]
fn stealth_requests_lower_their_headers_and_keep_nothing() {
    let mut quiet = request("https://api.example.com/");
    quiet.headers_json = s("{\"Accept\":\"*/*\"}");
    quiet.mode = s("no-cors");
    let mut stealth = job(quiet);
    stealth.stealth = true;
    let run = match run_fetch_job(stealth) {
        FetchStep::Send(hop, run) => {
            assert_eq!(
                hop.headers,
                vec![header("accept", "*/*"), header("origin", "https://www.example.com")]
            );
            assert!(hop.origin.is_none());
            run
        }
        _ => panic!("the request goes out"),
    };
    let head = HopResponse { status: 200, headers: vec![], location: None };
    let (_, store) = done(on_body(run, head, Ok(vec![])));
    assert!(store.is_none());
    let mut broken = job(request("no url"));
    broken.stealth = true;
    let (reply, _) = done(run_fetch_job(broken));
    assert_eq!(reply.status, 0);
    assert_eq!(reply.url, "no url");
    assert!(!reply.blocked);
}

#[test]
fn observers_see_a_url_in_any_case() {
    assert_eq!(fetch_response("https://EXAMPLE.com"), "https://example.com/");
    assert_eq!(fetch_response("no url"), "http://0.0.0.0/");
}

#[test]
fn settings_fall_back_to_their_defaults() {
    assert_eq!(fetch_timeout(None), 30_000);
    assert_eq!(fetch_timeout(Some("250")), 250);
    assert_eq!(fetch_timeout(Some("soon")), 30_000);
    let entries = response_body_entry_limit(None);
    assert_eq!(response_body_entry_limit(Some("7")), 7);
    assert_eq!(response_body_entry_limit(Some("-7")), entries);
    let bytes = response_body_byte_limit(None);
    assert_eq!(response_body_byte_limit(Some("64")), 64);
    assert_eq!(response_body_byte_limit(Some("")), bytes);
}

fn stored(body: &str) -> FetchOutcome {
    let mut outcome = FetchOutcome::blocked("https://a.test/", None);
    outcome.reply.blocked = false;
    outcome.reply.status = 200;
    outcome.store = Some(FetchStore {
        body: s(body),
        body_len: body.len(),
        url: s("https://a.test/"),
        method: s("GET"),
        status: 200,
        response_headers: vec![],
    });
    outcome
}

#[test]
fn stored_bodies_come_back_within_the_limits() {
    let mut rt = JsRuntime::new();
    let first = apply_fetch_outcome(&mut rt.state, stored("one"), 5, 2, 100);
    assert!(first.contains("\"requestId\":\"fetch-1\""));
    apply_fetch_outcome(&mut rt.state, stored("two"), 6, 2, 100);
    assert_eq!(rt.get_network_response_body("fetch-1").unwrap().body, "one");
    apply_fetch_outcome(&mut rt.state, stored("three"), 7, 2, 100);
    assert!(rt.get_network_response_body("fetch-1").is_none());
    assert_eq!(rt.get_network_response_body("fetch-3").unwrap().body, "three");
    apply_fetch_outcome(&mut rt.state, stored("too long"), 8, 2, 4);
    assert!(rt.get_network_response_body("fetch-4").is_none());
    let events = rt.take_js_network_events();
    assert_eq!(events.len(), 4);
    assert_eq!(events[3].timestamp_nanos, 8);
    assert_eq!(events[3].body_size, 8);
    assert!(rt.take_js_network_events().is_empty());
    rt.clear_network_response_bodies();
    assert!(rt.get_network_response_body("fetch-3").is_none());
}

#[test]
fn answers_settle_only_promises_that_wait() {
    let mut rt = JsRuntime::new();
    let id = rt.host.push_fetch();
    assert!(matches!(
        rt.complete_fetch(id + 1, Ok(stored("x")), 0, 10, 10),
        FetchSettlement::Ignored
    ));
    assert_eq!(rt.state.network_response_body_counter, 0);
    match rt.complete_fetch(id, Ok(stored("x")), 0, 10, 10) {
        FetchSettlement::Resolve(json) => assert!(json.contains("fetch-1")),
        _ => panic!("the promise is fulfilled"),
    }
    assert!(!rt.host.has_fetch());
    let id = rt.host.push_fetch();
    match rt.complete_fetch(id, Err(s("gone")), 0, 10, 10) {
        FetchSettlement::Reject(e) => assert_eq!(e, "gone"),
        _ => panic!("the promise is rejected"),
    }
}
