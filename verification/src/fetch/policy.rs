//! The rules of a request: credentials, cross-origin access, blocked patterns
//! and forbidden targets.

use vstd::prelude::*;

use crate::text::{
    contains, contains_text, ends_with, find_from, first_occurrence, first_occurrence_is_least,
    first_occurrence_shift, has_prefix, has_suffix, lowered, occurs_at, same_text, split_at_char,
    split_char, starts_with, texts, to_chars, to_lower,
};
use crate::urls::{origin_of, request_origin, HostKind, UrlParts};

verus! {

/// Whether a request carries and stores cookies.
#[derive(Clone, Copy, Debug, PartialEq, Eq, Structural)]
pub enum FetchCredentials {
    Omit,
    SameOrigin,
    Include,
}

/// The credentials mode with this name; any other name is `SameOrigin`.
pub open spec fn credentials_named(value: Seq<char>) -> FetchCredentials {
    if value == "omit"@ {
        FetchCredentials::Omit
    } else if value == "include"@ {
        FetchCredentials::Include
    } else {
        FetchCredentials::SameOrigin
    }
}

/// Whether a request to an address with this origin may carry credentials.
pub open spec fn credentials_allow(
    credentials: FetchCredentials,
    page_origin: Seq<char>,
    origin: Option<Seq<char>>,
) -> bool {
    match credentials {
        FetchCredentials::Omit => false,
        FetchCredentials::Include => true,
        FetchCredentials::SameOrigin => origin == Some(page_origin),
    }
}

impl FetchCredentials {
    /// The credentials mode with this name; any other name is `SameOrigin`.
    pub fn parse(value: &str) -> (r: Self)
        ensures
            r == credentials_named(value@),
    {
        if same_text(value, "omit") {
            FetchCredentials::Omit
        } else if same_text(value, "include") {
            FetchCredentials::Include
        } else {
            FetchCredentials::SameOrigin
        }
    }

    /// Whether a request to an address with this origin may carry credentials;
    /// an address without an origin never matches the page's.
    pub fn allows_origin(self, page_origin: &str, origin: &Option<String>) -> (r: bool)
        ensures
            r == credentials_allow(self, page_origin@, crate::text::opt_text(*origin)),
    {
        match self {
            FetchCredentials::Omit => false,
            FetchCredentials::Include => true,
            FetchCredentials::SameOrigin => match origin {
                Some(o) => same_text(o.as_str(), page_origin),
                None => false,
            },
        }
    }

    /// Whether a request to `request_url` from a page at `page_origin` may
    /// carry credentials and store cookies.
    pub fn allows(self, page_origin: &str, request_url: &str) -> (r: bool)
        ensures
            r == credentials_allow(self, page_origin@, origin_of(request_url@)),
    {
        let origin: Option<String> = request_origin(request_url);
        self.allows_origin(page_origin, &origin)
    }
}

/// Whether a response's access headers let the page read it. A credentialed
/// request needs the page's own origin and an explicit `true`; any other is
/// content with the origin or the wildcard.
pub open spec fn cors_allows(
    credentials: FetchCredentials,
    page_origin: Seq<char>,
    allowed_origin: Seq<char>,
    allow_credentials: Seq<char>,
) -> bool {
    if credentials == FetchCredentials::Include {
        allowed_origin == page_origin && allow_credentials == "true"@
    } else {
        allowed_origin == "*"@ || allowed_origin == page_origin
    }
}

/// Whether a response's access headers let the page read it.
pub fn cors_response_allows(
    credentials: FetchCredentials,
    page_origin: &str,
    allowed_origin: &str,
    allow_credentials: &str,
) -> (r: bool)
    ensures
        r == cors_allows(credentials, page_origin@, allowed_origin@, allow_credentials@),
{
    if credentials == FetchCredentials::Include {
        same_text(allowed_origin, page_origin) && same_text(allow_credentials, "true")
    } else {
        same_text(allowed_origin, "*") || same_text(allowed_origin, page_origin)
    }
}

/// The wildcard never lets a credentialed response through to a page whose
/// origin is not the wildcard itself.
pub proof fn wildcard_never_covers_credentials(page_origin: Seq<char>, allow_credentials: Seq<char>)
    requires
        page_origin != "*"@,
    ensures
        !cors_allows(FetchCredentials::Include, page_origin, "*"@, allow_credentials),
{
}

/// What is left of `rest` after the non-empty parts from position `k` on were
/// found in it one after the other, each as far left as it can be; nothing
/// where one is missing. The first of them must stand at the very start where
/// `anchored` says so.
pub open spec fn glob_rest(
    parts: Seq<Seq<char>>,
    k: int,
    rest: Seq<char>,
    anchored: bool,
) -> Option<Seq<char>>
    decreases parts.len() - k,
{
    if k < 0 || k >= parts.len() {
        Some(rest)
    } else if parts[k].len() == 0 {
        glob_rest(parts, k + 1, rest, anchored)
    } else {
        match first_occurrence(rest, parts[k], 0) {
            Some(i) => if anchored && i != 0 {
                None
            } else {
                glob_rest(parts, k + 1, rest.skip(i + parts[k].len()), false)
            },
            None => None,
        }
    }
}

/// `url` matches the pattern: the parts between its stars stand in the URL one
/// after the other, the first at the start unless a star leads, and nothing is
/// left at the end unless a star ends the pattern.
pub open spec fn glob_matches(pattern: Seq<char>, url: Seq<char>) -> bool {
    pattern == "*"@ || match glob_rest(
        split_at_char(pattern, '*'),
        0,
        url,
        !has_prefix(pattern, "*"@),
    ) {
        Some(rest) => has_suffix(pattern, "*"@) || rest.len() == 0,
        None => false,
    }
}

/// Whether `url` matches the pattern, part by part between its stars.
pub fn glob_match(pattern: &str, url: &str) -> (r: bool)
    ensures
        r == glob_matches(pattern@, url@),
{
    if same_text(pattern, "*") {
        return true;
    }
    let uc: Vec<char> = to_chars(url);
    let n: usize = uc.len();
    let parts: Vec<String> = split_char(pattern, '*');
    let mut at: usize = 0;
    let mut anchored: bool = !starts_with(pattern, "*");
    let ghost all: Seq<Seq<char>> = texts(parts@);
    let ghost goal: Option<Seq<char>> = glob_rest(all, 0, url@, anchored);
    let mut k: usize = 0;
    assert(url@.skip(0) =~= url@);
    while k < parts.len()
        invariant
            k <= parts@.len(),
            n == uc@.len(),
            at <= n,
            uc@ == url@,
            all == texts(parts@),
            all == split_at_char(pattern@, '*'),
            pattern@ != "*"@,
            goal == glob_rest(all, 0, url@, !has_prefix(pattern@, "*"@)),
            goal == glob_rest(all, k as int, url@.skip(at as int), anchored),
        decreases parts@.len() - k,
    {
        let pc: Vec<char> = to_chars(parts[k].as_str());
        assert(all[k as int] == pc@);
        if pc.len() > 0 {
            proof {
                first_occurrence_shift(url@, pc@, at as int, at as int);
                first_occurrence_is_least(url@, pc@, at as int);
            }
            match find_from(&uc, &pc, at) {
                Some(i) => {
                    if anchored && i != at {
                        return false;
                    }
                    assert(url@.skip(at as int).skip(i - at + pc@.len()) =~= url@.skip(
                        i + pc@.len(),
                    ));
                    at = i + pc.len();
                    anchored = false;
                },
                None => {
                    return false;
                },
            }
        }
        k = k + 1;
    }
    ends_with(pattern, "*") || at == n
}

proof fn one_part(s: Seq<char>)
    requires
        !s.contains('*'),
    ensures
        split_at_char(s, '*') == seq![s],
{
    crate::text::char_index_is_least(s, '*', 0);
    if crate::text::char_index(s, '*', 0) is Some {
        assert(s.contains('*'));
    }
}

/// A pattern without a star matches the very same text and no other.
pub proof fn plain_pattern_matches_itself_alone(pattern: Seq<char>, url: Seq<char>)
    requires
        !pattern.contains('*'),
    ensures
        glob_matches(pattern, url) <==> pattern == url,
{
    reveal_strlit("*");
    one_part(pattern);
    assert(pattern != "*"@) by {
        if pattern == "*"@ {
            assert(pattern[0] == '*');
        }
    }
    if has_prefix(pattern, "*"@) {
        assert(pattern.subrange(0, 1)[0] == '*');
        assert(pattern[0] == '*');
    }
    if has_suffix(pattern, "*"@) {
        assert(pattern.skip(pattern.len() - 1)[0] == '*');
        assert(pattern[pattern.len() - 1] == '*');
    }
    let parts: Seq<Seq<char>> = seq![pattern];
    reveal_with_fuel(glob_rest, 3);
    first_occurrence_is_least(url, pattern, 0);
    if pattern.len() > 0 {
        if pattern == url {
            assert(url.subrange(0, url.len() as int) =~= url);
            assert(occurs_at(url, pattern, 0));
        }
        if occurs_at(url, pattern, 0) && url.skip(pattern.len() as int).len() == 0 {
            assert(url.subrange(0, pattern.len() as int) =~= url);
        }
    } else if url.len() == 0 {
        assert(pattern =~= url);
    }
}

/// A pattern that is plain but for a star at its end matches every text that
/// begins with what stands before the star.
pub proof fn trailing_star_matches_prefixes(stem: Seq<char>, url: Seq<char>)
    requires
        !stem.contains('*'),
        stem.len() > 0,
    ensures
        glob_matches(stem + "*"@, url) <==> has_prefix(url, stem),
{
    reveal_strlit("*");
    let pattern: Seq<char> = stem + "*"@;
    assert(pattern.len() == stem.len() + 1);
    crate::text::char_index_is_least(pattern, '*', 0);
    let at: int = stem.len() as int;
    assert(pattern[at] == '*');
    assert forall|j: int| 0 <= j < at implies pattern[j] != '*' by {
        if pattern[j] == '*' {
            assert(stem[j] == '*');
        }
    }
    assert(crate::text::char_index(pattern, '*', 0) == Some(at));
    assert(pattern.take(at) =~= stem);
    assert(pattern.skip(at + 1) =~= Seq::<char>::empty());
    assert(split_at_char(Seq::<char>::empty(), '*') == seq![Seq::<char>::empty()]);
    let parts: Seq<Seq<char>> = split_at_char(pattern, '*');
    assert(parts =~= seq![stem, Seq::<char>::empty()]);
    assert(pattern != "*"@);
    assert(!has_prefix(pattern, "*"@)) by {
        if has_prefix(pattern, "*"@) {
            assert(pattern.subrange(0, 1)[0] == '*');
            assert(stem[0] == '*');
        }
    }
    assert(has_suffix(pattern, "*"@)) by {
        assert(pattern.skip(pattern.len() - 1) =~= "*"@);
    }
    reveal_with_fuel(glob_rest, 4);
    first_occurrence_is_least(url, stem, 0);
}

/// The text fits the pattern: a `*` takes any text, every other scalar itself.
pub open spec fn fits(pattern: Seq<char>, text: Seq<char>) -> bool
    decreases pattern.len(),
{
    if pattern.len() == 0 {
        text.len() == 0
    } else if pattern[0] == '*' {
        exists|k: int| 0 <= k <= text.len() && fits(pattern.skip(1), #[trigger] text.skip(k))
    } else {
        text.len() > 0 && text[0] == pattern[0] && fits(pattern.skip(1), text.skip(1))
    }
}

/// The text fits the pattern from some place on.
pub open spec fn fits_from_somewhere(pattern: Seq<char>, text: Seq<char>) -> bool {
    exists|k: int| 0 <= k <= text.len() && fits(pattern, #[trigger] text.skip(k))
}

proof fn star_takes_any(pattern: Seq<char>, text: Seq<char>)
    requires
        pattern.len() > 0,
        pattern[0] == '*',
    ensures
        fits(pattern, text) <==> fits_from_somewhere(pattern.skip(1), text),
{
}

/// The pattern ends in a star, or a star stood right before it.
spec fn open_ended(pattern: Seq<char>) -> bool {
    pattern.len() == 0 || pattern.last() == '*'
}

proof fn fits_further_on(pattern: Seq<char>, text: Seq<char>, at: int)
    requires
        0 <= at <= text.len(),
        fits_from_somewhere(pattern, text.skip(at)),
    ensures
        fits_from_somewhere(pattern, text),
{
    let k: int = choose|k: int|
        0 <= k <= text.skip(at).len() && fits(pattern, #[trigger] text.skip(at).skip(k));
    assert(text.skip(at).skip(k) =~= text.skip(at + k));
    assert(fits(pattern, text.skip(at + k)));
}

proof fn plain_stem_stands_first(pattern: Seq<char>, n: int, text: Seq<char>)
    requires
        0 <= n <= pattern.len(),
        forall|j: int| 0 <= j < n ==> pattern[j] != '*',
    ensures
        fits(pattern, text) <==> occurs_at(text, pattern.take(n), 0) && fits(
            pattern.skip(n),
            text.skip(n),
        ),
    decreases n,
{
    let stem: Seq<char> = pattern.take(n);
    if n == 0 {
        assert(stem =~= text.subrange(0, 0));
        assert(pattern.skip(0) =~= pattern);
        assert(text.skip(0) =~= text);
    } else if text.len() == 0 {
        assert(!occurs_at(text, stem, 0));
    } else {
        let p: Seq<char> = pattern.skip(1);
        let t: Seq<char> = text.skip(1);
        plain_stem_stands_first(p, n - 1, t);
        assert(p.skip(n - 1) =~= pattern.skip(n));
        if n <= text.len() {
            assert(t.skip(n - 1) =~= text.skip(n));
        }
        if occurs_at(text, stem, 0) {
            assert(text.subrange(0, n)[0] == stem[0]);
            assert(t.subrange(0, n - 1) =~= text.subrange(0, n).skip(1));
            assert(stem.skip(1) =~= p.take(n - 1));
        }
        if text[0] == pattern[0] && occurs_at(t, p.take(n - 1), 0) {
            assert forall|j: int| 0 <= j < n implies text.subrange(0, n)[j] == stem[j] by {
                if j > 0 {
                    assert(t.subrange(0, n - 1)[j - 1] == p.take(n - 1)[j - 1]);
                }
            }
            assert(text.subrange(0, n) =~= stem);
        }
    }
}

proof fn glob_rest_of_tail(
    parts: Seq<Seq<char>>,
    tail: Seq<Seq<char>>,
    k: int,
    rest: Seq<char>,
    anchored: bool,
)
    requires
        0 <= k <= tail.len(),
        parts.len() == tail.len() + 1,
        parts.skip(1) == tail,
    ensures
        glob_rest(parts, k + 1, rest, anchored) == glob_rest(tail, k, rest, anchored),
    decreases tail.len() - k,
{
    if k < tail.len() {
        assert(parts.skip(1)[k] == parts[k + 1]);
        glob_rest_of_tail(parts, tail, k + 1, rest, anchored);
        match first_occurrence(rest, tail[k], 0) {
            Some(i) => glob_rest_of_tail(parts, tail, k + 1, rest.skip(i + tail[k].len()), false),
            None => {},
        }
    }
}

/// How a pattern comes apart at its first star, where it has one.
proof fn first_star(pattern: Seq<char>) -> (at: Option<int>)
    ensures
        match at {
            Some(i) => {
                &&& 0 <= i < pattern.len()
                &&& pattern[i] == '*'
                &&& forall|j: int| 0 <= j < i ==> pattern[j] != '*'
                &&& split_at_char(pattern, '*').len() == split_at_char(
                    pattern.skip(i + 1),
                    '*',
                ).len() + 1
                &&& split_at_char(pattern, '*')[0] == pattern.take(i)
                &&& split_at_char(pattern, '*').skip(1) == split_at_char(pattern.skip(i + 1), '*')
                &&& open_ended(pattern) == open_ended(pattern.skip(i + 1))
            },
            None => {
                &&& forall|j: int| 0 <= j < pattern.len() ==> pattern[j] != '*'
                &&& split_at_char(pattern, '*') == seq![pattern]
            },
        },
{
    crate::text::char_index_is_least(pattern, '*', 0);
    let at: Option<int> = crate::text::char_index(pattern, '*', 0);
    if at is Some {
        let i: int = at->0;
        let q: Seq<char> = pattern.skip(i + 1);
        assert(split_at_char(pattern, '*') == seq![pattern.take(i)] + split_at_char(q, '*'));
        assert(split_at_char(pattern, '*').skip(1) =~= split_at_char(q, '*'));
        if q.len() == 0 {
            assert(pattern.last() == pattern[i]);
        } else {
            assert(q.last() == pattern.last());
        }
    }
    at
}

/// What is found part by part fits from some place on, and does so from the
/// very start where the first part is held to it.
proof fn found_parts_fit(pattern: Seq<char>, text: Seq<char>, anchored: bool)
    requires
        glob_rest(split_at_char(pattern, '*'), 0, text, anchored) is Some,
        open_ended(pattern) && !(anchored && pattern.len() == 0) || glob_rest(
            split_at_char(pattern, '*'),
            0,
            text,
            anchored,
        )->0.len() == 0,
        anchored ==> pattern.len() == 0 || pattern[0] != '*',
    ensures
        fits_from_somewhere(pattern, text),
        anchored ==> fits(pattern, text),
    decreases pattern.len(),
{
    let parts: Seq<Seq<char>> = split_at_char(pattern, '*');
    assert(text.skip(0) =~= text);
    match first_star(pattern) {
        Some(i) => {
            let stem: Seq<char> = pattern.take(i);
            let q: Seq<char> = pattern.skip(i + 1);
            assert(parts[0] == stem);
            if i == 0 {
                glob_rest_of_tail(parts, split_at_char(q, '*'), 0, text, false);
                found_parts_fit(q, text, false);
                assert(pattern.skip(1) =~= q);
                star_takes_any(pattern, text);
                assert(fits(pattern, text.skip(0)));
            } else {
                first_occurrence_is_least(text, stem, 0);
                let n: int = first_occurrence(text, stem, 0)->0;
                let rest: Seq<char> = text.skip(n + i);
                glob_rest_of_tail(parts, split_at_char(q, '*'), 0, rest, false);
                found_parts_fit(q, rest, false);
                let tail: Seq<char> = pattern.skip(i);
                assert(tail[0] == '*');
                assert(tail.skip(1) =~= q);
                star_takes_any(tail, rest);
                plain_stem_stands_first(pattern, i, text.skip(n));
                assert(text.skip(n).subrange(0, i) =~= text.subrange(n, n + i));
                assert(text.skip(n).skip(i) =~= rest);
                assert(fits(pattern, text.skip(n)));
            }
        },
        None => {
            reveal_with_fuel(glob_rest, 2);
            assert(parts[0] == pattern);
            if pattern.len() == 0 {
                assert(fits(pattern, text.skip(text.len() as int)));
            } else {
                let len: int = pattern.len() as int;
                assert(pattern[len - 1] != '*');
                first_occurrence_is_least(text, pattern, 0);
                let n: int = first_occurrence(text, pattern, 0)->0;
                plain_stem_stands_first(pattern, len, text.skip(n));
                assert(pattern.take(len) =~= pattern);
                assert(text.skip(n).subrange(0, len) =~= text.subrange(n, n + len));
                assert(text.skip(n).skip(len) =~= text.skip(n + len));
                assert(fits(pattern, text.skip(n)));
            }
        },
    }
}

/// What fits an open-ended pattern is found part by part.
proof fn fitting_parts_are_found(pattern: Seq<char>, text: Seq<char>, anchored: bool)
    requires
        open_ended(pattern),
        if anchored {
            fits(pattern, text)
        } else {
            fits_from_somewhere(pattern, text)
        },
        anchored ==> pattern.len() == 0 || pattern[0] != '*',
    ensures
        glob_rest(split_at_char(pattern, '*'), 0, text, anchored) is Some,
    decreases pattern.len(),
{
    let parts: Seq<Seq<char>> = split_at_char(pattern, '*');
    assert(text.skip(0) =~= text);
    match first_star(pattern) {
        Some(i) => {
            let stem: Seq<char> = pattern.take(i);
            let q: Seq<char> = pattern.skip(i + 1);
            let at: int = if anchored {
                0
            } else {
                choose|k: int| 0 <= k <= text.len() && fits(pattern, #[trigger] text.skip(k))
            };
            assert(fits(pattern, text.skip(at)));
            assert(parts[0] == stem);
            if i == 0 {
                assert(pattern.skip(1) =~= q);
                star_takes_any(pattern, text.skip(at));
                fits_further_on(q, text, at);
                fitting_parts_are_found(q, text, false);
                glob_rest_of_tail(parts, split_at_char(q, '*'), 0, text, false);
            } else {
                plain_stem_stands_first(pattern, i, text.skip(at));
                let tail: Seq<char> = pattern.skip(i);
                assert(tail[0] == '*');
                assert(tail.skip(1) =~= q);
                assert(text.skip(at).subrange(0, i) =~= text.subrange(at, at + i));
                assert(text.skip(at).skip(i) =~= text.skip(at + i));
                assert(occurs_at(text, stem, at));
                star_takes_any(tail, text.skip(at + i));
                first_occurrence_is_least(text, stem, 0);
                let n: int = first_occurrence(text, stem, 0)->0;
                assert(n <= at);
                let rest: Seq<char> = text.skip(n + i);
                assert(rest.skip(at - n) =~= text.skip(at + i));
                fits_further_on(q, rest, at - n);
                fitting_parts_are_found(q, rest, false);
                glob_rest_of_tail(parts, split_at_char(q, '*'), 0, rest, false);
            }
        },
        None => {
            reveal_with_fuel(glob_rest, 2);
            assert(parts[0] == pattern);
            if pattern.len() > 0 {
                assert(pattern[pattern.len() - 1] != '*');
            }
        },
    }
}

/// A URL that matches a pattern fits it. A pattern that ends in a star matches
/// every URL that fits it; any other takes each part where it first stands,
/// and so passes over a URL in which its last part stands again later.
pub proof fn matches_fit_the_pattern(pattern: Seq<char>, url: Seq<char>)
    ensures
        glob_matches(pattern, url) ==> fits(pattern, url),
        has_suffix(pattern, "*"@) ==> (glob_matches(pattern, url) <==> fits(pattern, url)),
{
    reveal_strlit("*");
    let star: Seq<char> = "*"@;
    let anchored: bool = !has_prefix(pattern, star);
    let parts: Seq<Seq<char>> = split_at_char(pattern, '*');
    if pattern.len() > 0 {
        assert(pattern.subrange(0, 1)[0] == pattern[0]);
        if pattern[0] == '*' {
            assert(pattern.subrange(0, 1) =~= star);
        }
        assert(pattern.skip(pattern.len() - 1)[0] == pattern.last());
        if pattern.last() == '*' {
            assert(pattern.skip(pattern.len() - 1) =~= star);
        }
    }
    if pattern == star {
        let end: int = url.len() as int;
        assert(fits(pattern.skip(1), url.skip(end)));
        star_takes_any(pattern, url);
    } else {
        if glob_matches(pattern, url) {
            found_parts_fit(pattern, url, anchored);
            if !anchored {
                let k: int = choose|k: int|
                    0 <= k <= url.len() && fits(pattern, #[trigger] url.skip(k));
                star_takes_any(pattern, url.skip(k));
                fits_further_on(pattern.skip(1), url, k);
                star_takes_any(pattern, url);
            }
        }
        if has_suffix(pattern, star) && fits(pattern, url) {
            assert(url.skip(0) =~= url);
            assert(fits_from_somewhere(pattern, url));
            fitting_parts_are_found(pattern, url, anchored);
        }
    }
}

/// A pattern of the block list covers a URL: it is the wildcard, stands in the
/// URL as it is, or matches it.
pub open spec fn pattern_blocks(pattern: Seq<char>, url: Seq<char>) -> bool {
    pattern == "*"@ || contains_text(url, pattern) || glob_matches(pattern, url)
}

/// One of the patterns covers the URL.
pub open spec fn blocked_by(patterns: Seq<Seq<char>>, url: Seq<char>) -> bool {
    exists|i: int| 0 <= i < patterns.len() && pattern_blocks(#[trigger] patterns[i], url)
}

/// Whether one of the patterns covers the URL.
pub fn is_blocked(patterns: &Vec<String>, url: &str) -> (r: bool)
    ensures
        r == blocked_by(texts(patterns@), url@),
{
    let mut i: usize = 0;
    while i < patterns.len()
        invariant
            i <= patterns@.len(),
            forall|j: int| 0 <= j < i ==> !pattern_blocks(#[trigger] texts(patterns@)[j], url@),
        decreases patterns@.len() - i,
    {
        let p: &str = patterns[i].as_str();
        assert(texts(patterns@)[i as int] == p@);
        if same_text(p, "*") || contains(url, p) || glob_match(p, url) {
            return true;
        }
        i = i + 1;
    }
    false
}

/// What is said of a target that may not be fetched.
pub enum Refusal<S> {
    Scheme(S),
    Ipv4(S),
    Ipv6(S),
    Localhost(S),
}

/// The domain is the local host.
pub open spec fn local_domain(domain: Seq<char>) -> bool {
    let d: Seq<char> = lowered(domain);
    d == "localhost"@ || has_suffix(d, ".localhost"@) || d == "127.0.0.1"@ || d == "::1"@
}

/// Why a target may not be fetched, where it may not: `http`, `https` and
/// `file` are the only schemes, and without leave to use the private network
/// neither a forbidden address nor the local host is a target.
pub open spec fn refusal(
    p: UrlParts<Seq<char>>,
    private_network: bool,
    address_forbidden: bool,
) -> Option<Refusal<Seq<char>>> {
    if p.scheme != "http"@ && p.scheme != "https"@ && p.scheme != "file"@ {
        Some(Refusal::Scheme(p.scheme))
    } else if p.scheme == "file"@ || private_network {
        None
    } else {
        match p.host {
            HostKind::Ipv4(ip) => if address_forbidden {
                Some(Refusal::Ipv4(ip))
            } else {
                None
            },
            HostKind::Ipv6(ip) => if address_forbidden {
                Some(Refusal::Ipv6(ip))
            } else {
                None
            },
            HostKind::Domain(d) => if local_domain(d) {
                Some(Refusal::Localhost(d))
            } else {
                None
            },
            HostKind::Absent => None,
        }
    }
}

/// The message of a refusal.
pub open spec fn refusal_text(r: Refusal<Seq<char>>) -> Seq<char> {
    match r {
        Refusal::Scheme(s) => "Forbidden URL scheme '"@ + s
            + "' - only http, https, and file are allowed"@,
        Refusal::Ipv4(s) => "Access to private/internal IP address "@ + s + " is not allowed"@,
        Refusal::Ipv6(s) => "Access to private/internal IPv6 address "@ + s + " is not allowed"@,
        Refusal::Localhost(s) => "Access to localhost domain '"@ + s + "' is not allowed"@,
    }
}

/// The message of a refusal, where there is one.
pub open spec fn refusal_message(r: Option<Refusal<Seq<char>>>) -> Option<Seq<char>> {
    match r {
        Some(f) => Some(refusal_text(f)),
        None => None,
    }
}

fn sentence(before: &str, what: &str, after: &str) -> (r: String)
    ensures
        r@ == before@ + what@ + after@,
{
    let mut r: String = before.to_owned();
    r.append(what);
    r.append(after);
    r
}

/// The address whose standing decides whether the target may be fetched: the
/// host of a network URL without leave for the private network, where it is an
/// address.
pub open spec fn address_in_question(p: UrlParts<Seq<char>>, private_network: bool) -> Option<
    Seq<char>,
> {
    if (p.scheme == "http"@ || p.scheme == "https"@) && !private_network {
        match p.host {
            HostKind::Ipv4(ip) => Some(ip),
            HostKind::Ipv6(ip) => Some(ip),
            _ => None,
        }
    } else {
        None
    }
}

/// The address whose standing decides whether the target may be fetched.
pub fn address_to_check(p: &UrlParts<String>, private_network: bool) -> (r: Option<String>)
    ensures
        crate::text::opt_text(r) == address_in_question(p@, private_network),
{
    if (same_text(p.scheme.as_str(), "http") || same_text(p.scheme.as_str(), "https"))
        && !private_network {
        match &p.host {
            HostKind::Ipv4(ip) => Some(ip.as_str().to_owned()),
            HostKind::Ipv6(ip) => Some(ip.as_str().to_owned()),
            _ => None,
        }
    } else {
        None
    }
}

/// Checks a target. `private_network` is the leave to use the private network,
/// and `address_forbidden` the standing of the host where it is an address.
pub fn validate_fetch_url(
    p: &UrlParts<String>,
    private_network: bool,
    address_forbidden: bool,
) -> (r: Result<(), String>)
    ensures
        match r {
            Ok(_) => refusal(p@, private_network, address_forbidden) is None,
            Err(e) => refusal_message(refusal(p@, private_network, address_forbidden)) == Some(e@),
        },
{
    let s: &str = p.scheme.as_str();
    if !same_text(s, "http") && !same_text(s, "https") && !same_text(s, "file") {
        return Err(
            sentence(
                "Forbidden URL scheme '",
                s,
                "' - only http, https, and file are allowed",
            ),
        );
    }
    if same_text(s, "file") || private_network {
        return Ok(());
    }
    match &p.host {
        HostKind::Ipv4(ip) => {
            if address_forbidden {
                return Err(
                    sentence(
                        "Access to private/internal IP address ",
                        ip.as_str(),
                        " is not allowed",
                    ),
                );
            }
        },
        HostKind::Ipv6(ip) => {
            if address_forbidden {
                return Err(
                    sentence(
                        "Access to private/internal IPv6 address ",
                        ip.as_str(),
                        " is not allowed",
                    ),
                );
            }
        },
        HostKind::Domain(d) => {
            let lower: String = to_lower(d.as_str());
            let l: &str = lower.as_str();
            if same_text(l, "localhost") || ends_with(l, ".localhost") || same_text(
                l,
                "127.0.0.1",
            ) || same_text(l, "::1") {
                return Err(
                    sentence("Access to localhost domain '", d.as_str(), "' is not allowed"),
                );
            }
        },
        HostKind::Absent => {},
    }
    Ok(())
}

/// Leave to use the private network opens every `http`, `https` and `file`
/// target, and no other scheme.
pub proof fn private_network_leave_opens_network_targets(
    p: UrlParts<Seq<char>>,
    address_forbidden: bool,
)
    ensures
        refusal(p, true, address_forbidden) is None <==> (p.scheme == "http"@ || p.scheme
            == "https"@ || p.scheme == "file"@),
{
}

/// The standing of an address matters only where it is asked for.
pub proof fn standing_matters_only_where_asked(
    p: UrlParts<Seq<char>>,
    private_network: bool,
    x: bool,
    y: bool,
)
    requires
        address_in_question(p, private_network) is None,
    ensures
        refusal(p, private_network, x) == refusal(p, private_network, y),
{
}

} // verus!
