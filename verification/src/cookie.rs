//! Cookies as they are handed out.

use vstd::prelude::*;

use crate::dom::impact::is_empty;
use crate::text::{
    char_index_is_least, contains_text, cut_once, first_occurrence, first_occurrence_is_least,
    joined, joined_from_the_front, occurs_at, opt_text, split_at_text, split_once, split_text, texts,
};
use crate::urls::{outcome_view, parse_components, parse_outcome, parsed_components, try_parse};

verus! {

/// A cookie as it is handed out.
#[derive(Debug, Clone)]
pub struct Cookie {
    pub name: String,
    pub value: String,
    pub domain: String,
    pub path: String,
    pub secure: bool,
    pub http_only: bool,
}

/// A cookie over scalar sequences.
pub struct CookieView {
    pub name: Seq<char>,
    pub value: Seq<char>,
    pub domain: Seq<char>,
    pub path: Seq<char>,
    pub secure: bool,
    pub http_only: bool,
}

/// A cookie with everything but its name, value and domain left as it is by
/// default.
pub open spec fn plain_cookie(name: Seq<char>, value: Seq<char>, domain: Seq<char>) -> CookieView {
    CookieView { name, value, domain, path: "/"@, secure: false, http_only: false }
}

impl Cookie {
    /// The cookie over scalar sequences.
    pub open spec fn view(self) -> CookieView {
        CookieView {
            name: self.name@,
            value: self.value@,
            domain: self.domain@,
            path: self.path@,
            secure: self.secure,
            http_only: self.http_only,
        }
    }

    /// A cookie from its name, value and domain, for all paths and without
    /// flags.
    pub fn new(name: String, value: String, domain: String) -> (r: Self)
        ensures
            r@ == plain_cookie(name@, value@, domain@),
    {
        Cookie { name, value, domain, path: "/".to_owned(), secure: false, http_only: false }
    }
}

/// Cookies over scalar sequences.
pub open spec fn cookies(v: Seq<Cookie>) -> Seq<CookieView> {
    v.map_values(|c: Cookie| c@)
}

/// The cookie that one part of a `Cookie` header stands for: what is before
/// the first `=` names it, and what is behind is its value.
pub open spec fn pair_cookie(pair: Seq<char>, domain: Seq<char>) -> CookieView {
    match cut_once(pair, '=') {
        Some((name, value)) => plain_cookie(name, value, domain),
        None => plain_cookie(pair, Seq::empty(), domain),
    }
}

/// The cookies that the parts of a header stand for; empty parts stand for
/// none.
pub open spec fn pair_cookies(pairs: Seq<Seq<char>>, domain: Seq<char>) -> Seq<CookieView>
    decreases pairs.len(),
{
    if pairs.len() == 0 {
        Seq::empty()
    } else {
        let rest: Seq<CookieView> = pair_cookies(pairs.drop_last(), domain);
        if pairs.last().len() == 0 {
            rest
        } else {
            rest.push(pair_cookie(pairs.last(), domain))
        }
    }
}

/// The cookies of a `Cookie` header that is meant for a host; none for a URL
/// without a host.
pub open spec fn header_cookies(header: Seq<char>, host: Option<Seq<char>>) -> Seq<CookieView> {
    match host {
        Some(domain) => pair_cookies(split_at_text(header, "; "@), domain),
        None => Seq::empty(),
    }
}

fn cookie_of_pair(pair: &str, domain: &str) -> (r: Cookie)
    ensures
        r@ == pair_cookie(pair@, domain@),
{
    match split_once(pair, '=') {
        Some((name, value)) => Cookie::new(name, value, domain.to_owned()),
        None => Cookie::new(pair.to_owned(), String::new(), domain.to_owned()),
    }
}

/// The cookies of a `Cookie` header that is meant for a host.
pub fn cookies_of_header(header: &str, host: &Option<String>) -> (r: Vec<Cookie>)
    ensures
        cookies(r@) == header_cookies(header@, opt_text(*host)),
{
    let mut out: Vec<Cookie> = Vec::new();
    assert(cookies(out@) =~= Seq::<CookieView>::empty());
    match host {
        Some(domain) => {
            proof {
                reveal_strlit("; ");
            }
            let pairs: Vec<String> = split_text(header, "; ");
            let mut i: usize = 0;
            assert(texts(pairs@).take(0) =~= Seq::<Seq<char>>::empty());
            while i < pairs.len()
                invariant
                    i <= pairs@.len(),
                    cookies(out@) == pair_cookies(texts(pairs@).take(i as int), domain@),
                decreases pairs@.len() - i,
            {
                proof {
                    assert(texts(pairs@).take(i + 1).drop_last() =~= texts(pairs@).take(i as int));
                    assert(texts(pairs@).take(i + 1).last() == pairs@[i as int]@);
                }
                if !is_empty(pairs[i].as_str()) {
                    let ghost before = out@;
                    out.push(cookie_of_pair(pairs[i].as_str(), domain.as_str()));
                    assert(cookies(out@) =~= cookies(before).push(out@.last()@));
                }
                i = i + 1;
            }
            assert(texts(pairs@).take(pairs@.len() as int) =~= texts(pairs@));
        },
        None => {},
    }
    out
}

/// The URL that a cookie is set for, in its serialised form, or why the text is
/// no URL.
pub fn cookie_target(url: &str) -> (r: Result<String, String>)
    ensures
        outcome_view(r) == parse_outcome(url@),
{
    try_parse(url)
}

/// The cookies for a URL, given the header that goes out to it, or why the text
/// is no URL.
pub fn get_for_url(url: &str, header: &str) -> (r: Result<Vec<Cookie>, String>)
    ensures
        match (parse_outcome(url@), r) {
            (Ok(_), Ok(found)) => match parsed_components(url@) {
                Some(p) => cookies(found@) == header_cookies(header@, p.hostname),
                None => false,
            },
            (Err(cause), Err(e)) => e@ == cause,
            _ => false,
        },
        r matches Ok(found) ==> forall|i: int|
            0 <= i < found@.len() ==> Some((#[trigger] found@[i]).domain@)
                == parsed_components(url@)->0.hostname,
{
    proof {
        if let Some(p) = parsed_components(url@) {
            cookies_are_for_their_host(header@, p.hostname);
            assert forall|v: Seq<Cookie>, i: int|
                cookies(v) == header_cookies(header@, p.hostname) && 0 <= i
                    < v.len() implies Some((#[trigger] v[i]).domain@) == p.hostname by {
                assert(cookies(v)[i] == v[i]@);
            }
        }
    }
    match try_parse(url) {
        Ok(_) => match parse_components(url) {
            Some(p) => Ok(cookies_of_header(header, &p.hostname)),
            None => Ok(Vec::new()),
        },
        Err(e) => Err(e),
    }
}

/// A name and a value as one part of a header.
pub open spec fn pair_text(pair: (Seq<char>, Seq<char>)) -> Seq<char> {
    pair.0 + seq!['='] + pair.1
}

/// The header that carries the given names and values.
pub open spec fn header_of(pairs: Seq<(Seq<char>, Seq<char>)>) -> Seq<char> {
    joined(pairs.map_values(|p: (Seq<char>, Seq<char>)| pair_text(p)), "; "@)
}

proof fn separator_is_found_behind_a_part(part: Seq<char>, rest: Seq<char>)
    requires
        !contains_text(part, "; "@),
    ensures
        first_occurrence(part + "; "@ + rest, "; "@, 0) == Some(part.len() as int),
{
    reveal_strlit("; ");
    let sep: Seq<char> = "; "@;
    let s: Seq<char> = part + sep + rest;
    let n: int = part.len() as int;
    first_occurrence_is_least(s, sep, 0);
    first_occurrence_is_least(part, sep, 0);
    assert(s.subrange(n, n + 2) =~= sep);
    assert(occurs_at(s, sep, n));
    assert forall|j: int| 0 <= j < n implies !occurs_at(s, sep, j) by {
        if occurs_at(s, sep, j) {
            assert(s.subrange(j, j + 2)[1] == ' ');
            if j + 2 <= n {
                assert(part.subrange(j, j + 2) =~= s.subrange(j, j + 2));
                assert(occurs_at(part, sep, j));
            } else {
                assert(s[j + 1] == sep[0]);
            }
        }
    }
}

proof fn split_undoes_join(parts: Seq<Seq<char>>)
    requires
        parts.len() > 0,
        forall|i: int| 0 <= i < parts.len() ==> !contains_text(#[trigger] parts[i], "; "@),
    ensures
        split_at_text(joined(parts, "; "@), "; "@) == parts,
    decreases parts.len(),
{
    reveal_strlit("; ");
    let sep: Seq<char> = "; "@;
    if parts.len() == 1 {
        assert(joined(parts, sep) == parts[0]);
        assert(parts =~= seq![parts[0]]);
    } else {
        let rest: Seq<char> = joined(parts.drop_first(), sep);
        joined_from_the_front(parts, sep);
        separator_is_found_behind_a_part(parts[0], rest);
        assert forall|i: int| 0 <= i < parts.drop_first().len() implies !contains_text(
            #[trigger] parts.drop_first()[i],
            sep,
        ) by {
            assert(parts.drop_first()[i] == parts[i + 1]);
        }
        split_undoes_join(parts.drop_first());
        let s: Seq<char> = parts[0] + sep + rest;
        assert(s.take(parts[0].len() as int) =~= parts[0]);
        assert(s.skip(parts[0].len() as int + 2) =~= rest);
        assert(seq![parts[0]] + parts.drop_first() =~= parts);
    }
}

proof fn pair_reads_back(pair: (Seq<char>, Seq<char>), domain: Seq<char>)
    requires
        !pair.0.contains('='),
    ensures
        pair_cookie(pair_text(pair), domain) == plain_cookie(pair.0, pair.1, domain),
{
    let s: Seq<char> = pair_text(pair);
    let n: int = pair.0.len() as int;
    char_index_is_least(s, '=', 0);
    assert(s[n] == '=');
    assert forall|j: int| 0 <= j < n implies s[j] != '=' by {
        assert(pair.0.contains(pair.0[j]));
    }
    assert(s.take(n) =~= pair.0);
    assert(s.skip(n + 1) =~= pair.1);
}

proof fn pairs_read_back(pairs: Seq<(Seq<char>, Seq<char>)>, domain: Seq<char>)
    requires
        forall|i: int| 0 <= i < pairs.len() ==> !(#[trigger] pairs[i]).0.contains('='),
    ensures
        pair_cookies(pairs.map_values(|p: (Seq<char>, Seq<char>)| pair_text(p)), domain)
            == pairs.map_values(
            |p: (Seq<char>, Seq<char>)| plain_cookie(p.0, p.1, domain),
        ),
    decreases pairs.len(),
{
    let parts: Seq<Seq<char>> = pairs.map_values(|p: (Seq<char>, Seq<char>)| pair_text(p));
    let out: Seq<CookieView> = pairs.map_values(
        |p: (Seq<char>, Seq<char>)| plain_cookie(p.0, p.1, domain),
    );
    if pairs.len() > 0 {
        pairs_read_back(pairs.drop_last(), domain);
        pair_reads_back(pairs.last(), domain);
        assert(parts.drop_last() =~= pairs.drop_last().map_values(
            |p: (Seq<char>, Seq<char>)| pair_text(p),
        ));
        assert(out.drop_last() =~= pairs.drop_last().map_values(
            |p: (Seq<char>, Seq<char>)| plain_cookie(p.0, p.1, domain),
        ));
        assert(out =~= out.drop_last().push(out.last()));
    } else {
        assert(out =~= Seq::<CookieView>::empty());
    }
}

/// A header gives back the names and values that it carries, in order, where
/// no name holds a `=` and no part holds the separator.
pub proof fn header_gives_back_its_pairs(
    pairs: Seq<(Seq<char>, Seq<char>)>,
    domain: Seq<char>,
)
    requires
        pairs.len() > 0,
        forall|i: int|
            0 <= i < pairs.len() ==> {
                &&& !(#[trigger] pairs[i]).0.contains('=')
                &&& !contains_text(pair_text(pairs[i]), "; "@)
            },
    ensures
        header_cookies(header_of(pairs), Some(domain)) == pairs.map_values(
            |p: (Seq<char>, Seq<char>)| plain_cookie(p.0, p.1, domain),
        ),
{
    let parts: Seq<Seq<char>> = pairs.map_values(|p: (Seq<char>, Seq<char>)| pair_text(p));
    assert forall|i: int| 0 <= i < parts.len() implies !contains_text(
        #[trigger] parts[i],
        "; "@,
    ) by {
        assert(parts[i] == pair_text(pairs[i]));
    }
    split_undoes_join(parts);
    pairs_read_back(pairs, domain);
}

/// The cookie is for a host and all of its paths, and carries no flags.
pub open spec fn is_for(c: CookieView, domain: Seq<char>) -> bool {
    &&& c.domain == domain
    &&& c.path == "/"@
    &&& !c.secure
    &&& !c.http_only
}

proof fn pairs_are_for(pairs: Seq<Seq<char>>, domain: Seq<char>)
    ensures
        forall|i: int|
            0 <= i < pair_cookies(pairs, domain).len() ==> is_for(
                #[trigger] pair_cookies(pairs, domain)[i],
                domain,
            ),
    decreases pairs.len(),
{
    if pairs.len() > 0 {
        let rest: Seq<CookieView> = pair_cookies(pairs.drop_last(), domain);
        pairs_are_for(pairs.drop_last(), domain);
        assert forall|i: int| 0 <= i < pair_cookies(pairs, domain).len() implies is_for(
            #[trigger] pair_cookies(pairs, domain)[i],
            domain,
        ) by {
            if i < rest.len() {
                assert(pair_cookies(pairs, domain)[i] == rest[i]);
            }
        }
    }
}

/// Every cookie of a header is for the host that the header is meant for, for
/// all paths and without flags; without a host there are none.
pub proof fn cookies_are_for_their_host(header: Seq<char>, host: Option<Seq<char>>)
    ensures
        match host {
            Some(domain) => forall|i: int|
                0 <= i < header_cookies(header, host).len() ==> {
                    &&& (#[trigger] header_cookies(header, host)[i]).domain == domain
                    &&& header_cookies(header, host)[i].path == "/"@
                    &&& !header_cookies(header, host)[i].secure
                    &&& !header_cookies(header, host)[i].http_only
                },
            None => header_cookies(header, host).len() == 0,
        },
{
    match host {
        Some(domain) => {
            pairs_are_for(split_at_text(header, "; "@), domain);
            assert forall|i: int| 0 <= i < header_cookies(header, host).len() implies is_for(
                #[trigger] header_cookies(header, host)[i],
                domain,
            ) by {}
        },
        None => {},
    }
}

/// A part of a header is the name and the value of its cookie with `=`
/// between them, and the name holds no `=`; without a `=` all of it is the name.
pub proof fn pairs_are_cut_at_their_first_equals_sign(pair: Seq<char>, domain: Seq<char>)
    ensures
        ({
            let c: CookieView = pair_cookie(pair, domain);
            &&& !c.name.contains('=')
            &&& pair.contains('=') ==> c.name + seq!['='] + c.value == pair
            &&& !pair.contains('=') ==> c.name == pair && c.value.len() == 0
        }),
{
    char_index_is_least(pair, '=', 0);
    match cut_once(pair, '=') {
        Some((name, value)) => {
            assert(name + seq!['='] + value =~= pair);
            assert(pair.contains('=')) by {
                assert(pair[name.len() as int] == '=');
            }
        },
        None => {},
    }
}

} // verus!
