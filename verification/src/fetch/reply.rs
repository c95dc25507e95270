//! What a request comes to: the reply to the page and what is kept of it.

use base64::Engine;
use vstd::prelude::*;

use crate::fetch::headers::{headers_text, opt_pairs, pairs, write_headers, HeaderView};
use crate::json::{
    json_member, json_member_text, json_object, json_object_text, json_quoted, json_string,
    objects_tell_their_members, tells,
};
use crate::number::{decimal, write_decimal};
use crate::state::Headers;
use crate::text::{opt_text, texts};

verus! {

/// The reply to a request. `S` is the type of texts and `H` that of headers.
pub struct FetchReply<S, H> {
    pub status: u16,
    pub body: S,
    pub body_base64: Option<S>,
    pub url: S,
    pub headers: Option<H>,
    pub blocked: bool,
    pub error: Option<S>,
    pub cors_blocked: bool,
    pub cors_error: Option<S>,
    pub request_id: Option<S>,
}

/// A reply over scalar sequences.
pub type ReplyView = FetchReply<Seq<char>, HeaderView>;

impl FetchReply<String, Headers> {
    /// The reply over scalar sequences.
    pub open spec fn view(self) -> ReplyView {
        FetchReply {
            status: self.status,
            body: self.body@,
            body_base64: opt_text(self.body_base64),
            url: self.url@,
            headers: opt_pairs(self.headers),
            blocked: self.blocked,
            error: opt_text(self.error),
            cors_blocked: self.cors_blocked,
            cors_error: opt_text(self.cors_error),
            request_id: opt_text(self.request_id),
        }
    }
}

/// What is kept of a finished request.
pub struct FetchStore<S, H> {
    pub body: S,
    pub body_len: usize,
    pub url: S,
    pub method: S,
    pub status: u16,
    pub response_headers: H,
}

/// What is kept of a finished request, over scalar sequences.
pub type StoreView = FetchStore<Seq<char>, HeaderView>;

impl FetchStore<String, Headers> {
    /// What is kept, over scalar sequences.
    pub open spec fn view(self) -> StoreView {
        FetchStore {
            body: self.body@,
            body_len: self.body_len,
            url: self.url@,
            method: self.method@,
            status: self.status,
            response_headers: pairs(self.response_headers@),
        }
    }
}

/// The reply to a request, and what is to be kept of it.
pub struct FetchOutcome {
    pub reply: FetchReply<String, Headers>,
    pub store: Option<FetchStore<String, Headers>>,
}

/// A reply and what is kept, over scalar sequences.
pub type OutcomeView = (ReplyView, Option<StoreView>);

impl FetchOutcome {
    /// The outcome over scalar sequences.
    pub open spec fn view(self) -> OutcomeView {
        (
            self.reply@,
            match self.store {
                Some(s) => Some(s@),
                None => None,
            },
        )
    }

    /// The outcome of a request that is blocked before it is made.
    pub fn blocked(url: &str, error: Option<String>) -> (r: Self)
        ensures
            r@ == (blocked_reply(url@, opt_text(error)), None::<StoreView>),
    {
        let reply: FetchReply<String, Headers> = empty_reply(url.to_owned(), true);
        let outcome: FetchOutcome = FetchOutcome {
            reply: FetchReply { blocked: true, error, ..reply },
            store: None,
        };
        outcome
    }
}

/// A reply without a status and without a body, with an empty header map where
/// `headers` says so.
pub open spec fn bare_reply(url: Seq<char>, headers: bool) -> ReplyView {
    FetchReply {
        status: 0,
        body: Seq::empty(),
        body_base64: None,
        url,
        headers: if headers {
            Some(Seq::empty())
        } else {
            None
        },
        blocked: false,
        error: None,
        cors_blocked: false,
        cors_error: None,
        request_id: None,
    }
}

/// The reply to a blocked request.
pub open spec fn blocked_reply(url: Seq<char>, error: Option<Seq<char>>) -> ReplyView {
    FetchReply { blocked: true, error, ..bare_reply(url, true) }
}

/// A reply without a status and without a body.
pub fn empty_reply(url: String, headers: bool) -> (r: FetchReply<String, Headers>)
    ensures
        r@ == bare_reply(url@, headers),
{
    let none: Headers = Vec::new();
    assert(pairs(none@) =~= Seq::<(Seq<char>, Seq<char>)>::empty());
    FetchReply {
        status: 0,
        body: String::new(),
        body_base64: None,
        url,
        headers: if headers {
            Some(none)
        } else {
            None
        },
        blocked: false,
        error: None,
        cors_blocked: false,
        cors_error: None,
        request_id: None,
    }
}

/// A member with a string, where there is one.
pub open spec fn opt_member(key: Seq<char>, value: Option<Seq<char>>) -> Seq<Seq<char>> {
    match value {
        Some(v) => seq![json_member_text(key, json_quoted(v))],
        None => Seq::empty(),
    }
}

/// A member that says `true`, where it holds.
pub open spec fn flag_member(key: Seq<char>, flag: bool) -> Seq<Seq<char>> {
    if flag {
        seq![json_member_text(key, "true"@)]
    } else {
        Seq::empty()
    }
}

/// The headers member, where there are headers.
pub open spec fn headers_member(h: Option<HeaderView>) -> Seq<Seq<char>> {
    match h {
        Some(m) => seq![json_member_text("headers"@, headers_text(m))],
        None => Seq::empty(),
    }
}

/// The members of a reply's JSON object, in the order of their names.
pub open spec fn reply_members(r: ReplyView) -> Seq<Seq<char>> {
    flag_member("blocked"@, r.blocked) + opt_member("body"@, Some(r.body)) + opt_member(
        "bodyBase64"@,
        r.body_base64,
    ) + flag_member("corsBlocked"@, r.cors_blocked) + opt_member("corsError"@, r.cors_error)
        + opt_member("error"@, r.error) + headers_member(r.headers) + opt_member(
        "requestId"@,
        r.request_id,
    ) + seq![json_member_text("status"@, decimal(r.status as nat))] + opt_member(
        "url"@,
        Some(r.url),
    )
}

/// A reply as a JSON object.
pub open spec fn reply_text(r: ReplyView) -> Seq<char> {
    json_object_text(reply_members(r))
}

fn push_text(m: &mut Vec<String>, key: &str, value: &str)
    ensures
        texts(final(m)@) == texts(old(m)@) + opt_member(key@, Some(value@)),
{
    let quoted: String = json_string(value);
    m.push(json_member(key, quoted.as_str()));
    assert(texts(m@) =~= texts(old(m)@) + opt_member(key@, Some(value@)));
}

fn push_opt(m: &mut Vec<String>, key: &str, value: &Option<String>)
    ensures
        texts(final(m)@) == texts(old(m)@) + opt_member(key@, opt_text(*value)),
{
    match value {
        Some(v) => push_text(m, key, v.as_str()),
        None => {
            assert(texts(m@) =~= texts(old(m)@) + opt_member(key@, None));
        },
    }
}

fn push_flag(m: &mut Vec<String>, key: &str, flag: bool)
    ensures
        texts(final(m)@) == texts(old(m)@) + flag_member(key@, flag),
{
    if flag {
        m.push(json_member(key, "true"));
    }
    assert(texts(m@) =~= texts(old(m)@) + flag_member(key@, flag));
}

/// Writes a reply as a JSON object.
pub fn write_reply(r: &FetchReply<String, Headers>) -> (s: String)
    ensures
        s@ == reply_text(r@),
{
    let mut m: Vec<String> = Vec::new();
    assert(texts(m@) =~= Seq::<Seq<char>>::empty());
    push_flag(&mut m, "blocked", r.blocked);
    assert(texts(m@) =~= flag_member("blocked"@, r.blocked));
    push_text(&mut m, "body", r.body.as_str());
    push_opt(&mut m, "bodyBase64", &r.body_base64);
    push_flag(&mut m, "corsBlocked", r.cors_blocked);
    push_opt(&mut m, "corsError", &r.cors_error);
    push_opt(&mut m, "error", &r.error);
    let ghost before: Seq<Seq<char>> = texts(m@);
    match &r.headers {
        Some(h) => {
            let text: String = write_headers(h);
            m.push(json_member("headers", text.as_str()));
        },
        None => {},
    }
    assert(texts(m@) =~= before + headers_member(r@.headers));
    push_opt(&mut m, "requestId", &r.request_id);
    let ghost later: Seq<Seq<char>> = texts(m@);
    let status: String = write_decimal(r.status as u64);
    m.push(json_member("status", status.as_str()));
    assert(texts(m@) =~= later + seq![json_member_text("status"@, decimal(r.status as nat))]);
    push_text(&mut m, "url", r.url.as_str());
    assert(texts(m@) =~= reply_members(r@));
    json_object(&m)
}

/// The scalar of a six-bit value in standard Base64.
pub open spec fn base64_scalar(v: int) -> char {
    if v < 26 {
        (65 + v) as u32 as char
    } else if v < 52 {
        (71 + v) as u32 as char
    } else if v < 62 {
        (v - 4) as u32 as char
    } else if v == 62 {
        '+'
    } else {
        '/'
    }
}

/// Standard Base64, padded: four scalars for every three bytes.
pub open spec fn base64_text(b: Seq<u8>) -> Seq<char>
    decreases b.len(),
{
    if b.len() == 0 {
        Seq::empty()
    } else if b.len() == 1 {
        seq![
            base64_scalar(b[0] as int / 4),
            base64_scalar(b[0] as int % 4 * 16),
            '=',
            '=',
        ]
    } else if b.len() == 2 {
        seq![
            base64_scalar(b[0] as int / 4),
            base64_scalar(b[0] as int % 4 * 16 + b[1] as int / 16),
            base64_scalar(b[1] as int % 16 * 4),
            '=',
        ]
    } else {
        seq![
            base64_scalar(b[0] as int / 4),
            base64_scalar(b[0] as int % 4 * 16 + b[1] as int / 16),
            base64_scalar(b[1] as int % 16 * 4 + b[2] as int / 64),
            base64_scalar(b[2] as int % 64),
        ] + base64_text(b.skip(3))
    }
}

proof fn base64_scalars_differ(a: int, b: int)
    requires
        0 <= a < 64,
        0 <= b < 64,
        base64_scalar(a) == base64_scalar(b),
    ensures
        a == b,
{
}

/// The four scalars for the first bytes of a body.
spec fn first_group(b: Seq<u8>) -> Seq<char> {
    base64_text(b.take(if b.len() < 3 {
        b.len() as int
    } else {
        3
    }))
}

proof fn base64_from_the_front(b: Seq<u8>)
    requires
        b.len() > 0,
    ensures
        first_group(b).len() == 4,
        first_group(b)[0] == base64_scalar(b[0] as int / 4),
        first_group(b)[1] == base64_scalar(
            b[0] as int % 4 * 16 + (if b.len() > 1 {
                b[1] as int / 16
            } else {
                0
            }),
        ),
        first_group(b)[2] == (if b.len() > 1 {
            base64_scalar(
                b[1] as int % 16 * 4 + (if b.len() > 2 {
                    b[2] as int / 64
                } else {
                    0
                }),
            )
        } else {
            '='
        }),
        first_group(b)[3] == (if b.len() > 2 {
            base64_scalar(b[2] as int % 64)
        } else {
            '='
        }),
        b.len() >= 3 ==> base64_text(b) == first_group(b) + base64_text(b.skip(3)),
        b.len() < 3 ==> base64_text(b) == first_group(b),
{
    if b.len() < 3 {
        assert(b.take(b.len() as int) =~= b);
    } else {
        let head: Seq<u8> = b.take(3);
        assert(head.skip(3) =~= Seq::<u8>::empty());
        assert(base64_text(head.skip(3)) =~= Seq::<char>::empty());
        let four: Seq<char> = seq![
            base64_scalar(b[0] as int / 4),
            base64_scalar(b[0] as int % 4 * 16 + b[1] as int / 16),
            base64_scalar(b[1] as int % 16 * 4 + b[2] as int / 64),
            base64_scalar(b[2] as int % 64),
        ];
        assert(base64_text(head) =~= four);
        assert(base64_text(b) =~= four + base64_text(b.skip(3)));
    }
}

/// The Base64 form keeps every byte: two bodies with one form are the same.
pub proof fn base64_keeps_the_bytes(a: Seq<u8>, b: Seq<u8>)
    requires
        base64_text(a) == base64_text(b),
    ensures
        a == b,
    decreases a.len(),
{
    if a.len() > 0 {
        base64_from_the_front(a);
    }
    if b.len() > 0 {
        base64_from_the_front(b);
    }
    if a.len() == 0 || b.len() == 0 {
        assert(base64_text(a).len() == 0);
        assert(a =~= b);
    } else {
        let t: Seq<char> = base64_text(a);
        let u: Seq<char> = base64_text(b);
        let g: Seq<char> = first_group(a);
        let h: Seq<char> = first_group(b);
        assert(t[0] == g[0] && t[1] == g[1] && t[2] == g[2] && t[3] == g[3]);
        assert(u[0] == h[0] && u[1] == h[1] && u[2] == h[2] && u[3] == h[3]);
        base64_scalars_differ(a[0] as int / 4, b[0] as int / 4);
        same_group_same_bytes(a, b);
        if a.len() >= 3 {
            assert(t.skip(4) =~= base64_text(a.skip(3)));
            assert(u.skip(4) =~= base64_text(b.skip(3)));
            base64_keeps_the_bytes(a.skip(3), b.skip(3));
            assert(a =~= a.take(3) + a.skip(3));
            assert(b =~= b.take(3) + b.skip(3));
            assert(a.take(3) =~= b.take(3));
        } else {
            assert(a =~= b);
        }
    }
}

proof fn same_group_same_bytes(a: Seq<u8>, b: Seq<u8>)
    requires
        a.len() > 0,
        b.len() > 0,
        first_group(a)[0] == first_group(b)[0],
        first_group(a)[1] == first_group(b)[1],
        first_group(a)[2] == first_group(b)[2],
        first_group(a)[3] == first_group(b)[3],
    ensures
        a.len() >= 3 <==> b.len() >= 3,
        a.len() < 3 ==> a.len() == b.len(),
        a[0] == b[0],
        a.len() > 1 ==> a[1] == b[1],
        a.len() > 2 ==> a[2] == b[2],
{
    base64_from_the_front(a);
    base64_from_the_front(b);
    base64_scalars_differ(a[0] as int / 4, b[0] as int / 4);
    base64_scalars_differ(
        a[0] as int % 4 * 16 + (if a.len() > 1 {
            a[1] as int / 16
        } else {
            0
        }),
        b[0] as int % 4 * 16 + (if b.len() > 1 {
            b[1] as int / 16
        } else {
            0
        }),
    );
    if a.len() > 1 && b.len() > 1 {
        base64_scalars_differ(
            a[1] as int % 16 * 4 + (if a.len() > 2 {
                a[2] as int / 64
            } else {
                0
            }),
            b[1] as int % 16 * 4 + (if b.len() > 2 {
                b[2] as int / 64
            } else {
                0
            }),
        );
        if a.len() > 2 && b.len() > 2 {
            base64_scalars_differ(a[2] as int % 64, b[2] as int % 64);
        }
    }
}

/// The most bytes that are encoded at once: the encoding of twice as many
/// would not fit in memory.
pub open spec fn encodable(b: Seq<u8>) -> bool {
    b.len() <= isize::MAX / 2
}

/// `base64`'s standard engine: the bytes in standard Base64 with padding.
#[verifier::external_body]
pub(crate) fn encode_base64(b: &Vec<u8>) -> (r: String)
    requires
        encodable(b@),
    ensures
        r@ == base64_text(b@),
{
    base64::engine::general_purpose::STANDARD.encode(b)
}

/// What `String::from_utf8_lossy` makes of bytes.
pub uninterp spec fn lossy_text(b: Seq<u8>) -> Seq<char>;

/// `String::from_utf8_lossy`: the text of valid UTF-8; where the bytes are not
/// valid, replacement scalars stand for the invalid parts.
#[verifier::external_body]
pub(crate) fn decode_lossy(b: &Vec<u8>) -> (r: String)
    ensures
        r@ == lossy_text(b@),
        vstd::utf8::valid_utf8(b@) ==> r@ == vstd::utf8::decode_utf8(b@),
{
    String::from_utf8_lossy(b).into_owned()
}

proof fn in_one_or_the_other(a: Seq<Seq<char>>, b: Seq<Seq<char>>, x: Seq<char>)
    requires
        a.contains(x) || b.contains(x),
    ensures
        (a + b).contains(x),
{
    if a.contains(x) {
        let i: int = choose|i: int| 0 <= i < a.len() && a[i] == x;
        assert((a + b)[i] == x);
    } else {
        let i: int = choose|i: int| 0 <= i < b.len() && b[i] == x;
        assert((a + b)[a.len() + i] == x);
    }
}

#[verifier::spinoff_prover]
#[verifier::rlimit(60)]
proof fn listed_members_are_told(r: ReplyView, key: Seq<char>, value: Seq<char>)
    requires
        ({
            let x: Seq<char> = json_member_text(key, value);
            ||| flag_member("blocked"@, r.blocked).contains(x)
            ||| opt_member("body"@, Some(r.body)).contains(x)
            ||| opt_member("bodyBase64"@, r.body_base64).contains(x)
            ||| flag_member("corsBlocked"@, r.cors_blocked).contains(x)
            ||| opt_member("corsError"@, r.cors_error).contains(x)
            ||| opt_member("error"@, r.error).contains(x)
            ||| headers_member(r.headers).contains(x)
            ||| opt_member("requestId"@, r.request_id).contains(x)
            ||| seq![json_member_text("status"@, decimal(r.status as nat))].contains(x)
            ||| opt_member("url"@, Some(r.url)).contains(x)
        }),
    ensures
        tells(reply_text(r), key, value),
{
    let x: Seq<char> = json_member_text(key, value);
    let a: Seq<Seq<char>> = flag_member("blocked"@, r.blocked);
    let b: Seq<Seq<char>> = opt_member("body"@, Some(r.body));
    let c: Seq<Seq<char>> = opt_member("bodyBase64"@, r.body_base64);
    let d: Seq<Seq<char>> = flag_member("corsBlocked"@, r.cors_blocked);
    let e: Seq<Seq<char>> = opt_member("corsError"@, r.cors_error);
    let f: Seq<Seq<char>> = opt_member("error"@, r.error);
    let g: Seq<Seq<char>> = headers_member(r.headers);
    let h: Seq<Seq<char>> = opt_member("requestId"@, r.request_id);
    let i: Seq<Seq<char>> = seq![json_member_text("status"@, decimal(r.status as nat))];
    let j: Seq<Seq<char>> = opt_member("url"@, Some(r.url));
    if a.contains(x) || b.contains(x) {
        in_one_or_the_other(a, b, x);
    }
    let m: Seq<Seq<char>> = a + b;
    if m.contains(x) || c.contains(x) {
        in_one_or_the_other(m, c, x);
    }
    let m: Seq<Seq<char>> = m + c;
    if m.contains(x) || d.contains(x) {
        in_one_or_the_other(m, d, x);
    }
    let m: Seq<Seq<char>> = m + d;
    if m.contains(x) || e.contains(x) {
        in_one_or_the_other(m, e, x);
    }
    let m: Seq<Seq<char>> = m + e;
    if m.contains(x) || f.contains(x) {
        in_one_or_the_other(m, f, x);
    }
    let m: Seq<Seq<char>> = m + f;
    if m.contains(x) || g.contains(x) {
        in_one_or_the_other(m, g, x);
    }
    let m: Seq<Seq<char>> = m + g;
    if m.contains(x) || h.contains(x) {
        in_one_or_the_other(m, h, x);
    }
    let m: Seq<Seq<char>> = m + h;
    if m.contains(x) || i.contains(x) {
        in_one_or_the_other(m, i, x);
    }
    let m: Seq<Seq<char>> = m + i;
    in_one_or_the_other(m, j, x);
    let all: Seq<Seq<char>> = reply_members(r);
    let k: int = choose|k: int| 0 <= k < all.len() && all[k] == x;
    objects_tell_their_members(all, k, key, value);
}

/// A reply tells the status, the URL and the body of its response under their
/// names.
pub proof fn replies_tell_their_response(r: ReplyView)
    ensures
        tells(reply_text(r), "status"@, decimal(r.status as nat)),
        tells(reply_text(r), "url"@, json_quoted(r.url)),
        tells(reply_text(r), "body"@, json_quoted(r.body)),
{
    let status: Seq<Seq<char>> = seq![json_member_text("status"@, decimal(r.status as nat))];
    assert(status[0] == json_member_text("status"@, decimal(r.status as nat)));
    listed_members_are_told(r, "status"@, decimal(r.status as nat));
    assert(opt_member("url"@, Some(r.url))[0] == json_member_text("url"@, json_quoted(r.url)));
    listed_members_are_told(r, "url"@, json_quoted(r.url));
    assert(opt_member("body"@, Some(r.body))[0] == json_member_text("body"@, json_quoted(r.body)));
    listed_members_are_told(r, "body"@, json_quoted(r.body));
}

/// A reply tells what was kept from the page and why, each where it is so.
pub proof fn replies_tell_refusals(r: ReplyView)
    ensures
        r.blocked ==> tells(reply_text(r), "blocked"@, "true"@),
        r.cors_blocked ==> tells(reply_text(r), "corsBlocked"@, "true"@),
        r.cors_error is Some ==> tells(reply_text(r), "corsError"@, json_quoted(r.cors_error->0)),
        r.error is Some ==> tells(reply_text(r), "error"@, json_quoted(r.error->0)),
{
    if r.blocked {
        assert(flag_member("blocked"@, true)[0] == json_member_text("blocked"@, "true"@));
        listed_members_are_told(r, "blocked"@, "true"@);
    }
    if r.cors_blocked {
        assert(flag_member("corsBlocked"@, true)[0] == json_member_text("corsBlocked"@, "true"@));
        listed_members_are_told(r, "corsBlocked"@, "true"@);
    }
    if r.cors_error is Some {
        let value: Seq<char> = json_quoted(r.cors_error->0);
        assert(opt_member("corsError"@, r.cors_error)[0] == json_member_text("corsError"@, value));
        listed_members_are_told(r, "corsError"@, value);
    }
    if r.error is Some {
        let value: Seq<char> = json_quoted(r.error->0);
        assert(opt_member("error"@, r.error)[0] == json_member_text("error"@, value));
        listed_members_are_told(r, "error"@, value);
    }
}

/// A reply tells the headers, the bytes of the body and the id under which it
/// is kept, each where there is one.
pub proof fn replies_tell_what_came_with_them(r: ReplyView)
    ensures
        r.body_base64 is Some ==> tells(
            reply_text(r),
            "bodyBase64"@,
            json_quoted(r.body_base64->0),
        ),
        r.headers is Some ==> tells(reply_text(r), "headers"@, headers_text(r.headers->0)),
        r.request_id is Some ==> tells(reply_text(r), "requestId"@, json_quoted(r.request_id->0)),
{
    if r.body_base64 is Some {
        let value: Seq<char> = json_quoted(r.body_base64->0);
        assert(opt_member("bodyBase64"@, r.body_base64)[0] == json_member_text(
            "bodyBase64"@,
            value,
        ));
        listed_members_are_told(r, "bodyBase64"@, value);
    }
    if r.headers is Some {
        let value: Seq<char> = headers_text(r.headers->0);
        assert(headers_member(r.headers)[0] == json_member_text("headers"@, value));
        listed_members_are_told(r, "headers"@, value);
    }
    if r.request_id is Some {
        let value: Seq<char> = json_quoted(r.request_id->0);
        assert(opt_member("requestId"@, r.request_id)[0] == json_member_text("requestId"@, value));
        listed_members_are_told(r, "requestId"@, value);
    }
}

/// A reply has no member but the body, the status and the URL, and one for each
/// thing that it has to tell besides.
pub proof fn replies_tell_nothing_else(r: ReplyView)
    ensures
        reply_members(r).len() == 3 + (if r.blocked {
            1int
        } else {
            0
        }) + (if r.body_base64 is Some {
            1int
        } else {
            0
        }) + (if r.cors_blocked {
            1int
        } else {
            0
        }) + (if r.cors_error is Some {
            1int
        } else {
            0
        }) + (if r.error is Some {
            1int
        } else {
            0
        }) + (if r.headers is Some {
            1int
        } else {
            0
        }) + (if r.request_id is Some {
            1int
        } else {
            0
        }),
{
}

/// A blocked request is answered without a status, a body or headers: the reply
/// says that it is blocked, names its URL, and gives the reason where there is
/// one.
pub proof fn blocked_requests_are_answered_empty(url: Seq<char>, error: Option<Seq<char>>)
    ensures
        ({
            let r: ReplyView = blocked_reply(url, error);
            &&& r.blocked
            &&& r.url == url
            &&& r.error == error
            &&& r.status == 0
            &&& r.body.len() == 0
            &&& r.body_base64 is None
            &&& r.headers matches Some(h) && h.len() == 0
            &&& !r.cors_blocked
            &&& r.cors_error is None
            &&& r.request_id is None
        }),
{
}

/// A reply that says nothing yet has no status, no body and no error, and
/// nothing was kept from the page; its header map is empty where it has one.
pub proof fn bare_replies_say_nothing(url: Seq<char>, headers: bool)
    ensures
        ({
            let r: ReplyView = bare_reply(url, headers);
            &&& r.url == url
            &&& r.status == 0
            &&& r.body.len() == 0
            &&& r.body_base64 is None
            &&& !r.blocked && !r.cors_blocked
            &&& r.error is None && r.cors_error is None && r.request_id is None
            &&& headers ==> (r.headers matches Some(h) && h.len() == 0)
            &&& !headers ==> r.headers is None
        }),
{
}

} // verus!
