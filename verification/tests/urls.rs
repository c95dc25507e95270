use tinybrowser::cookie::{cookie_target, cookies_of_header, get_for_url, Cookie};
use tinybrowser::urls::{
    choose_domain, document_domain_candidate, join_parts, parse_parts, request_origin, set_host_port,
    split_host_port, url_parse, url_resolve, url_set, url_set_inner, HostKind,
};

fn member(reply: &str, key: &str) -> String {
    let v: serde_json::Value = serde_json::from_str(reply).expect("JSON");
    v.get(key).and_then(|x| x.as_str()).expect("a text").to_string()
}

#[test]
fn test_url_relative_resolution() {
    for (href, base, expected) in [
        ("data.json", "http://example.com/path/page.html", "http://example.com/path/data.json"),
        ("/api/data", "http://example.com/path/page.html", "http://example.com/api/data"),
        ("https://other.com/foo", "http://example.com/bar", "https://other.com/foo"),
        ("sub/file.js", "http://example.com/a/b/c.html", "http://example.com/a/b/sub/file.js"),
        ("api.json", "http://localhost:8080/dir/index.html", "http://localhost:8080/dir/api.json"),
    ] {
        assert_eq!(member(&url_parse(href, base), "href"), expected);
        assert_eq!(url_resolve(href, base), expected);
    }
}

#[test]
fn components_are_written_with_sorted_members() {
    assert_eq!(
        url_parse("https://u:p@a.com:8443/x?y=1#z", ""),
        "{\"hash\":\"#z\",\"host\":\"a.com:8443\",\"hostname\":\"a.com\",\"href\":\"https://u:p@a.com:8443/x?y=1#z\",\"ok\":true,\"origin\":\"https://a.com:8443\",\"password\":\"p\",\"pathname\":\"/x\",\"port\":\"8443\",\"protocol\":\"https:\",\"search\":\"?y=1\",\"username\":\"u\"}"
    );
    assert_eq!(url_parse("no url", ""), "{\"ok\":false}");
    assert_eq!(url_parse("x", "no base"), "{\"ok\":false}");
}

#[test]
fn what_does_not_resolve_is_empty() {
    assert_eq!(url_resolve("https://EXAMPLE.com", ""), "https://example.com/");
    assert_eq!(url_resolve("page.html", ""), "");
    assert_eq!(url_resolve("page.html", "no base"), "");
}

#[test]
fn setters_change_their_part() {
    let url = "https://u:p@a.com:8443/x?y=1#z";
    assert_eq!(member(&url_set(url, "protocol", "http:"), "href"), "http://u:p@a.com:8443/x?y=1#z");
    assert_eq!(member(&url_set(url, "username", "me"), "username"), "me");
    assert_eq!(member(&url_set(url, "password", ""), "password"), "");
    assert_eq!(member(&url_set(url, "host", "b.org:99"), "host"), "b.org:99");
    assert_eq!(member(&url_set(url, "hostname", "c.net"), "host"), "c.net:8443");
    assert_eq!(member(&url_set(url, "port", ""), "host"), "a.com");
    assert_eq!(member(&url_set(url, "port", "123"), "port"), "123");
    assert_eq!(member(&url_set(url, "pathname", "/new"), "pathname"), "/new");
    assert_eq!(member(&url_set(url, "search", "?q=2"), "search"), "?q=2");
    assert_eq!(member(&url_set(url, "search", ""), "search"), "");
    assert_eq!(member(&url_set(url, "hash", "#top"), "hash"), "#top");
    assert_eq!(member(&url_set(url, "href", "https://d.io"), "href"), "https://d.io/");
    assert_eq!(url_set(url, "unknown", "value"), url_parse(url, ""));
    assert_eq!(url_set(url, "href", "no url"), url_parse(url, ""));
    assert_eq!(url_set("no url", "hash", "x"), "{\"ok\":false}");
}

#[test]
fn setters_tell_the_components_they_leave() {
    let reply = url_set("foo:/a", "pathname", "//b");
    assert_eq!(member(&reply, "href"), "foo://b");
    assert_eq!(member(&reply, "pathname"), "//b");
    assert_eq!(member(&reply, "host"), "");
    let reply = url_set("file:///C:/x", "hostname", "a");
    assert_eq!(member(&reply, "href"), "file://a/C:/x");
    assert_eq!(member(&reply, "host"), "a");
    let reply = url_set("foo:/.//x", "host", "h:");
    assert_eq!(member(&reply, "href"), "foo://h/.//x");
    assert_eq!(member(&reply, "pathname"), "//x");
    let reply = url_set("data:a", "pathname", "b?c");
    assert_eq!(member(&reply, "pathname"), "b?c");
    assert_eq!(member(&reply, "search"), "");
}

#[test]
fn origins_are_those_of_the_url() {
    for href in [
        "https://a.com",
        "https://a.com:443/x",
        "https://a.com:8443/x",
        "http://u:p@[0:0::1]:80/",
        "http://[::1]:81/",
        "ws://127.1:80/",
        "wss://b\u{fc}cher.example/",
        "ftp://a.com:21/x",
        "ftp://a.com:2121/x",
        "file:///C:/x",
        "file://host/x",
        "data:text/plain,x",
        "about:blank",
        "foo://a.com:80/x",
        "blob:https://a.com:8443/uuid",
        "blob:blob:http://a.com/uuid",
        "blob:file:///x",
        "blob:nothing",
        "blob:",
        "blob:/x",
        "blob:\u{e9}",
    ] {
        let expected = url::Url::parse(href).unwrap().origin().ascii_serialization();
        assert_eq!(request_origin(href), Some(expected.clone()), "{href}");
        assert_eq!(member(&url_parse(href, ""), "origin"), expected, "{href}");
    }
    let deep = format!("{}https://a.com/x", "blob:".repeat(1000));
    assert_eq!(request_origin(&deep), Some("https://a.com".to_string()));
}

#[test]
fn resolved_urls_are_told_as_they_are() {
    let reply = url_parse("./C:/x", "file://host/a");
    assert_eq!(member(&reply, "href"), "file://host/C:/x");
    assert_eq!(member(&reply, "host"), "host");
    let parts = join_parts("file://host/a", "./C:/x").unwrap();
    assert_eq!(parts.href, "file://host/C:/x");
    assert!(matches!(parts.host, HostKind::Domain(d) if d == "host"));
    assert!(join_parts("no base", "x").is_none());
}

#[test]
fn refused_values_leave_the_url_alone() {
    let url = "https://a.com:8443/x";
    assert_eq!(url_set(url, "protocol", "foo"), url_parse(url, ""));
    assert_eq!(url_set(url, "hostname", ""), url_parse(url, ""));
    assert_eq!(url_set(url, "port", "65536"), url_parse(url, ""));
    assert_eq!(url_set(url, "host", ":99"), url_parse(url, ""));
    assert_eq!(member(&url_set(url, "host", "b.org:70000"), "host"), "b.org:8443");
    assert_eq!(member(&url_set(url, "host", "b.org:"), "host"), "b.org");
    assert_eq!(member(&url_set(url, "host", "b.org:443"), "host"), "b.org");
    assert_eq!(member(&url_set("file:///x", "host", "b.org:99"), "href"), "file://b.org/x");
    assert_eq!(member(&url_set("foo:/.//x", "host", "h:99"), "href"), "foo://h:99//x");
    assert!(set_host_port(url, ":99").is_none());
    assert!(set_host_port("no url", "a").is_none());
    assert!(url_set_inner("no url", "hash", "x").is_none());
    assert!(url_set_inner(url, "href", "no url").is_none());
    assert_eq!(url_set_inner(url, "hash", "z").unwrap().fragment, Some("z".to_string()));
}

#[test]
fn no_host_is_taken_away_from_a_bare_port() {
    let url = "foo://h:80/";
    for value in ["", ":", ":90"] {
        assert_eq!(url_set(url, "host", value), url_parse(url, ""), "{value}");
        assert!(set_host_port(url, value).is_none());
    }
    assert_eq!(url_set(url, "hostname", ""), url_parse(url, ""));
    assert_eq!(member(&url_set("foo://h:80?q", "host", ""), "href"), "foo://h:80?q");
    assert_eq!(member(&url_set("foo://u@h:80/", "host", ""), "href"), "foo://u@:80/");
    assert_eq!(member(&url_set("foo://:p@h:80/", "host", ""), "password"), "p");
    assert_eq!(member(&url_set("foo://h/", "host", ""), "href"), "foo:///");
    assert_eq!(member(&url_set("foo://h", "host", ":90"), "href"), "foo://");
    assert_eq!(url_set("https://h:81/", "host", ""), url_parse("https://h:81/", ""));
}

#[test]
fn origins_after_setters_are_those_of_the_new_url() {
    let url = "https://a.com:8443/x";
    assert_eq!(member(&url_set(url, "host", "b.org:99"), "origin"), "https://b.org:99");
    assert_eq!(member(&url_set(url, "port", "443"), "origin"), "https://a.com");
    assert_eq!(member(&url_set(url, "protocol", "ws"), "origin"), "ws://a.com:8443");
    assert_eq!(member(&url_set("foo:/a", "pathname", "//b"), "origin"), "null");
    assert_eq!(member(&url_set("blob:x", "pathname", "https://c.io/y"), "origin"), "https://c.io");
    assert_eq!(member(&url_set("foo:x", "pathname", "https://c.io/y"), "origin"), "null");
}

#[test]
fn values_that_grow_are_written_in_full() {
    let url = "https://a.com/";
    let long = "\u{20AC} \"".repeat(2000);
    let escaped = "%E2%82%AC%20%22".repeat(2000);
    assert_eq!(member(&url_set(url, "pathname", &long), "pathname"), format!("/{escaped}"));
    assert_eq!(member(&url_set(url, "search", &long), "search"), format!("?{escaped}"));
    assert_eq!(member(&url_set(url, "username", &long), "username"), escaped);
    let parsed = url_parse(&format!("{url}#{long}x"), "");
    assert_eq!(member(&parsed, "hash"), format!("#{escaped}x"));
    assert_eq!(member(&url_set(url, "host", "b\u{fc}cher.example"), "host"), "xn--bcher-kva.example");
}

#[test]
fn hosts_have_their_kinds() {
    let host = |href: &str| parse_parts(href).unwrap().host;
    assert!(matches!(host("https://Example.com/"), HostKind::Domain(d) if d == "example.com"));
    assert!(matches!(host("http://127.1/"), HostKind::Ipv4(a) if a == "127.0.0.1"));
    assert!(matches!(host("http://[0:0::1]/"), HostKind::Ipv6(a) if a == "::1"));
    assert!(matches!(host("about:blank"), HostKind::Absent));
}

#[test]
fn host_values_are_cut_at_the_port() {
    let c = split_host_port("b.org:99");
    assert_eq!((c.host.as_str(), c.port), ("b.org", Some(Some(99))));
    let c = split_host_port("[::1]:80");
    assert_eq!((c.host.as_str(), c.port), ("[::1]", Some(Some(80))));
    let c = split_host_port("plain");
    assert_eq!((c.host.as_str(), c.port), ("plain", None));
}

#[test]
fn origins_are_told_of_urls() {
    assert_eq!(request_origin("https://a.com:443/x"), Some("https://a.com".to_string()));
    assert_eq!(request_origin("file:///x"), Some("null".to_string()));
    assert_eq!(request_origin("x"), None);
}

#[test]
fn domains_relax_step_by_step() {
    let initial = "deep.assets.example.co.uk";
    let first = document_domain_candidate(initial, "ASSETS.EXAMPLE.CO.UK", false);
    assert_eq!(first, "assets.example.co.uk");
    assert_eq!(document_domain_candidate(&first, "example.co.uk", false), "example.co.uk");
}

#[test]
fn unrelated_and_public_hosts_are_refused() {
    let current = "app.user.github.io";
    for value in [
        "",
        ".github.io",
        "github.io",
        "evilgithub.io",
        "other.github.io",
        "child.app.user.github.io",
    ] {
        assert_eq!(document_domain_candidate(current, value, false), "");
    }
    assert_eq!(document_domain_candidate(current, "user.github.io", false), "user.github.io");
}

#[test]
fn a_page_without_a_host_has_no_domain_to_relax() {
    assert_eq!(document_domain_candidate("", "example.com", false), "");
}

#[test]
fn addresses_relax_to_themselves_alone() {
    assert_eq!(document_domain_candidate("10.0.0.1", "10.0.0.1", true), "10.0.0.1");
    assert_eq!(document_domain_candidate("10.0.0.1", "0.0.1", true), "");
    assert_eq!(document_domain_candidate("example.com", "10.0.0.1", false), "");
}

#[test]
fn cookies_of_a_url_carry_its_host() {
    let list = get_for_url("https://shop.example.com/cart", "a=1; b=x=y; odd").unwrap();
    let seen: Vec<(&str, &str, &str)> =
        list.iter().map(|c| (c.name.as_str(), c.value.as_str(), c.domain.as_str())).collect();
    assert_eq!(
        seen,
        vec![
            ("a", "1", "shop.example.com"),
            ("b", "x=y", "shop.example.com"),
            ("odd", "", "shop.example.com"),
        ]
    );
    assert!(get_for_url("about:blank", "a=1").unwrap().is_empty());
    assert_eq!(get_for_url("no url", "a=1").unwrap_err(), "relative URL without a base");
    assert_eq!(cookie_target("HTTPS://Shop.example.com"), Ok("https://shop.example.com/".to_string()));
    assert_eq!(cookie_target("no url"), Err("relative URL without a base".to_string()));
    assert!(cookies_of_header("", &None).is_empty());
}

#[test]
fn new_cookies_are_plain() {
    let c = Cookie::new("n".to_string(), "v".to_string(), "d".to_string());
    assert_eq!(
        (c.name.as_str(), c.value.as_str(), c.domain.as_str(), c.path.as_str()),
        ("n", "v", "d", "/")
    );
    assert!(!c.secure && !c.http_only);
}

#[test]
fn domains_are_chosen_by_what_the_input_is() {
    let input = Some((false, "Example.com".to_string()));
    let registrable = Some("example.com".to_string());
    assert_eq!(choose_domain("www.example.com", false, &input, &registrable), "example.com");
    assert_eq!(choose_domain("www.example.com", true, &input, &registrable), "");
    assert_eq!(choose_domain("www.example.com", false, &None, &registrable), "");
    assert_eq!(choose_domain("www.example.com", false, &input, &None), "");
    let wider = Some((false, "com".to_string()));
    assert_eq!(choose_domain("www.example.com", false, &wider, &registrable), "");
}
