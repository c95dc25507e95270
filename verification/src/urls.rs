//! URLs: their components, their setters, resolving one against another, and
//! the effective domain of a document.

use vstd::prelude::*;

use crate::dom::impact::is_empty;
use crate::json::{
    bool_text, json_member, json_member_text, json_object, json_object_text, json_quoted,
    json_string, objects_tell_their_members, tells, write_bool,
};
use crate::number::{all_digits, decimal, parse_decimal, parsed_decimal, write_decimal};
use crate::text::{
    byte_len, byte_length, char_index, ends_with, find_char, has_prefix, has_suffix, lowered,
    opt_str, opt_text, same_text, slice_text, starts_with, strip_prefix, texts, to_chars, to_lower,
    without_prefix,
};

verus! {

/// The host of a URL, by its kind. An address is in the standard text form of
/// its family, without brackets.
pub enum HostKind<S> {
    Absent,
    Domain(S),
    Ipv4(S),
    Ipv6(S),
}

impl HostKind<String> {
    /// The host over scalar sequences.
    pub open spec fn view(self) -> HostKind<Seq<char>> {
        match self {
            HostKind::Absent => HostKind::Absent,
            HostKind::Domain(s) => HostKind::Domain(s@),
            HostKind::Ipv4(s) => HostKind::Ipv4(s@),
            HostKind::Ipv6(s) => HostKind::Ipv6(s@),
        }
    }
}

/// A parsed URL, as far as fetching it depends on it: its serialisation, its
/// scheme, its host, and the ASCII serialisation of its origin.
pub struct UrlParts<S> {
    pub href: S,
    pub scheme: S,
    pub host: HostKind<S>,
    pub origin: S,
}

impl UrlParts<String> {
    /// The URL over scalar sequences.
    pub open spec fn view(self) -> UrlParts<Seq<char>> {
        UrlParts {
            href: self.href@,
            scheme: self.scheme@,
            host: self.host@,
            origin: self.origin@,
        }
    }
}

/// The URL over scalar sequences, where there is one.
pub open spec fn opt_parts(o: Option<UrlParts<String>>) -> Option<UrlParts<Seq<char>>> {
    match o {
        Some(p) => Some(p@),
        None => None,
    }
}

/// The components of a URL that its page reads, as the getters of `url::Url`
/// give them. `hostname` is the host as it is serialised.
pub struct Components<S> {
    pub href: S,
    pub scheme: S,
    pub username: S,
    pub password: Option<S>,
    pub hostname: Option<S>,
    pub port: Option<u16>,
    pub path: S,
    pub query: Option<S>,
    pub fragment: Option<S>,
}

/// Components over scalar sequences.
pub type ComponentsView = Components<Seq<char>>;

impl Components<String> {
    /// The components over scalar sequences.
    pub open spec fn view(self) -> ComponentsView {
        Components {
            href: self.href@,
            scheme: self.scheme@,
            username: self.username@,
            password: opt_text(self.password),
            hostname: opt_text(self.hostname),
            port: self.port,
            path: self.path@,
            query: opt_text(self.query),
            fragment: opt_text(self.fragment),
        }
    }
}

/// The components over scalar sequences, where there are any.
pub open spec fn opt_components(o: Option<Components<String>>) -> Option<ComponentsView> {
    match o {
        Some(c) => Some(c@),
        None => None,
    }
}

/// A host over scalar sequences, where there is a URL.
pub open spec fn opt_host(o: Option<HostKind<String>>) -> Option<HostKind<Seq<char>>> {
    match o {
        Some(h) => Some(h@),
        None => None,
    }
}

/// The bytes that a serialisation may take. `url::Url` counts them in 32 bits,
/// and steps past the marks in front of its parts.
pub const LONGEST_URL: u64 = 0xFFFF_FF00;

/// The scalar stands for itself in every part of a URL.
pub open spec fn is_plain(c: char) -> bool {
    ||| 'a' <= c <= 'z'
    ||| 'A' <= c <= 'Z'
    ||| '0' <= c <= '9'
    ||| c == '-' || c == '.' || c == '_' || c == '~' || c == '!' || c == '$' || c == '&'
    ||| c == '(' || c == ')' || c == '*' || c == '+' || c == ','
}

/// The bytes of a scalar in UTF-8.
pub open spec fn scalar_bytes(c: char) -> nat {
    if c <= '\u{7F}' {
        1
    } else if c <= '\u{7FF}' {
        2
    } else if c <= '\u{FFFF}' {
        3
    } else {
        4
    }
}

/// The bytes that a scalar takes at most in a serialisation, where a byte that
/// is not ASCII, or the percent sign that stands for one, takes at most `most`.
/// Other ASCII is escaped at worst.
pub open spec fn scalar_room(c: char, most: nat) -> nat {
    if is_plain(c) {
        1
    } else if c <= '\u{7F}' && c != '%' {
        3
    } else {
        most * scalar_bytes(c)
    }
}

/// The bytes that a text takes at most in a serialisation.
pub open spec fn text_room(s: Seq<char>, most: nat) -> nat
    decreases s.len(),
{
    if s.len() == 0 {
        0
    } else {
        text_room(s.drop_last(), most) + scalar_room(s.last(), most)
    }
}

fn count_scalar(c: char, most: u32) -> (r: u128)
    ensures
        r == scalar_room(c, most as nat),
        r <= 4 * (most as u128) + 3,
{
    let plain: bool = (c >= 'a' && c <= 'z') || (c >= 'A' && c <= 'Z') || (c >= '0' && c <= '9')
        || c == '-' || c == '.' || c == '_' || c == '~' || c == '!' || c == '$' || c == '&'
        || c == '(' || c == ')' || c == '*' || c == '+' || c == ',';
    if plain {
        1
    } else if c <= '\u{7F}' && c != '%' {
        3
    } else if c <= '\u{7F}' {
        most as u128
    } else if c <= '\u{7FF}' {
        2 * most as u128
    } else if c <= '\u{FFFF}' {
        3 * most as u128
    } else {
        4 * most as u128
    }
}

fn count_room(s: &str, most: u32) -> (r: u128)
    requires
        most <= 100,
    ensures
        r == text_room(s@, most as nat),
        r <= 403 * usize::MAX,
{
    let sc: Vec<char> = to_chars(s);
    let mut n: u128 = 0;
    let mut i: usize = 0;
    while i < sc.len()
        invariant
            i <= sc@.len(),
            sc@ == s@,
            most <= 100,
            n == text_room(s@.take(i as int), most as nat),
            n <= 403 * i,
        decreases sc@.len() - i,
    {
        assert(s@.take(i + 1).drop_last() =~= s@.take(i as int));
        n = n + count_scalar(sc[i], most);
        i = i + 1;
    }
    assert(s@.take(i as int) =~= s@);
    n
}

/// The bytes that a text takes at most where its bytes may be escaped.
pub open spec fn escaped_bytes(s: Seq<char>) -> int {
    text_room(s, 3) as int
}

fn count_escaped(s: &str) -> (r: u128)
    ensures
        r == escaped_bytes(s@),
        r <= 403 * usize::MAX,
{
    count_room(s, 3)
}

/// The bytes that a text takes at most as a host, or with a host in it: none
/// of its bytes takes more than a hundred in the ASCII form of a name, and no
/// address takes more than sixty.
pub open spec fn host_bytes(s: Seq<char>) -> int {
    text_room(s, 100) as int + 64
}

fn count_host(s: &str) -> (r: u128)
    ensures
        r == host_bytes(s@),
        r <= 403 * usize::MAX + 64,
{
    count_room(s, 100) + 64
}

/// The URL that a text is cannot be too long.
pub open spec fn url_fits(href: Seq<char>) -> bool {
    host_bytes(href) <= LONGEST_URL
}

fn fits_url(href: &str) -> (r: bool)
    ensures
        r == url_fits(href@),
{
    count_host(href) <= LONGEST_URL as u128
}

/// The URL that `href` is against `base` cannot be too long.
pub open spec fn join_fits(base: Seq<char>, href: Seq<char>) -> bool {
    host_bytes(base) + host_bytes(href) <= LONGEST_URL
}

fn fits_join(base: &str, href: &str) -> (r: bool)
    ensures
        r == join_fits(base@, href@),
{
    count_host(base) + count_host(href) <= LONGEST_URL as u128
}

/// What the getters of `url::Url` give of the URL that `url::Url::parse` makes
/// of a text, or nothing where the text is no absolute URL.
pub uninterp spec fn components_read(href: Seq<char>) -> Option<Components<Seq<char>>>;

/// `url::Url::parse`, and what the getters give of its result.
#[verifier::external_body]
fn read_components(href: &str) -> (r: Option<Components<String>>)
    requires
        url_fits(href@),
    ensures
        opt_components(r) == components_read(href@),
{
    let u = url::Url::parse(href).ok()?;
    Some(Components {
        href: u.to_string(),
        scheme: u.scheme().to_string(),
        username: u.username().to_string(),
        password: u.password().map(str::to_string),
        hostname: u.host_str().map(str::to_string),
        port: u.port(),
        path: u.path().to_string(),
        query: u.query().map(str::to_string),
        fragment: u.fragment().map(str::to_string),
    })
}

/// The components of the URL that a text is, or nothing where it is no
/// absolute URL or may be too long for one.
pub open spec fn parsed_components(href: Seq<char>) -> Option<ComponentsView> {
    if url_fits(href) {
        components_read(href)
    } else {
        None
    }
}

/// Parses a URL into its components.
pub(crate) fn parse_components(href: &str) -> (r: Option<Components<String>>)
    ensures
        opt_components(r) == parsed_components(href@),
{
    if fits_url(href) {
        read_components(href)
    } else {
        None
    }
}

/// What `url::Url::host` gives of the URL that `url::Url::parse` makes of a
/// text, or nothing where the text is no absolute URL.
pub uninterp spec fn host_kind_read(href: Seq<char>) -> Option<HostKind<Seq<char>>>;

/// `url::Url::parse`, and what `url::Url::host` gives of its result, an
/// address in the standard text form of its family.
#[verifier::external_body]
fn read_host_kind(href: &str) -> (r: Option<HostKind<String>>)
    requires
        url_fits(href@),
    ensures
        opt_host(r) == host_kind_read(href@),
{
    let u = url::Url::parse(href).ok()?;
    Some(match u.host() {
        Some(url::Host::Domain(d)) => HostKind::Domain(d.to_string()),
        Some(url::Host::Ipv4(a)) => HostKind::Ipv4(a.to_string()),
        Some(url::Host::Ipv6(a)) => HostKind::Ipv6(a.to_string()),
        None => HostKind::Absent,
    })
}

/// The host of the URL that a text is, or nothing where it is no absolute URL
/// or may be too long for one.
pub open spec fn parsed_host_kind(href: Seq<char>) -> Option<HostKind<Seq<char>>> {
    if url_fits(href) {
        host_kind_read(href)
    } else {
        None
    }
}

fn parse_host_kind(href: &str) -> (r: Option<HostKind<String>>)
    ensures
        opt_host(r) == parsed_host_kind(href@),
{
    if fits_url(href) {
        read_host_kind(href)
    } else {
        None
    }
}

/// What `url::Url::parse` says of a text: the serialisation of the URL, or the
/// text of its error.
pub uninterp spec fn outcome_read(url: Seq<char>) -> Result<Seq<char>, Seq<char>>;

/// A text or an error's text over scalar sequences.
pub open spec fn outcome_view(r: Result<String, String>) -> Result<Seq<char>, Seq<char>> {
    match r {
        Ok(s) => Ok(s@),
        Err(e) => Err(e@),
    }
}

/// `url::Url::parse`, with its result or its error as text. It succeeds where
/// the getters have something to give, and then on the same serialisation.
#[verifier::external_body]
fn read_outcome(url: &str) -> (r: Result<String, String>)
    requires
        url_fits(url@),
    ensures
        outcome_view(r) == outcome_read(url@),
        match (r, components_read(url@)) {
            (Ok(href), Some(c)) => href@ == c.href,
            (Err(_), None) => true,
            _ => false,
        },
{
    url::Url::parse(url).map(|u| u.to_string()).map_err(|e| e.to_string())
}

/// The serialisation of the URL that a text is, or why it is none.
pub open spec fn parse_outcome(url: Seq<char>) -> Result<Seq<char>, Seq<char>> {
    if url_fits(url) {
        outcome_read(url)
    } else {
        Err("URLs more than 4 GB are not supported"@)
    }
}

/// Parses a URL; its serialisation, or why it is none.
pub(crate) fn try_parse(url: &str) -> (r: Result<String, String>)
    ensures
        outcome_view(r) == parse_outcome(url@),
        match (r, parsed_components(url@)) {
            (Ok(href), Some(c)) => href@ == c.href,
            (Err(_), None) => true,
            _ => false,
        },
{
    if fits_url(url) {
        read_outcome(url)
    } else {
        Err("URLs more than 4 GB are not supported".to_owned())
    }
}

/// The scheme is one whose URLs have an origin of their own.
pub open spec fn has_tuple_origin(scheme: Seq<char>) -> bool {
    scheme == "ftp"@ || scheme == "http"@ || scheme == "https"@ || scheme == "ws"@ || scheme
        == "wss"@
}

/// The origin of a URL that holds no other: scheme, host and port, a port of
/// the scheme's own being absent from the components; else the opaque one.
pub open spec fn plain_origin(c: ComponentsView) -> Seq<char> {
    if has_tuple_origin(c.scheme) {
        c.scheme + "://"@ + host_with_port(text_or(c.hostname), port_text(c.port))
    } else {
        "null"@
    }
}

/// `url::Url::origin` of the URL that `url::Url::parse` makes of a text, in its
/// ASCII serialisation. A `blob` URL is left out: of one that holds others,
/// layer on layer, the origin is found by as many nested calls.
#[verifier::external_body]
fn read_origin(href: &str) -> (r: Option<String>)
    requires
        url_fits(href@),
        match components_read(href@) {
            Some(c) => c.scheme != "blob"@,
            None => true,
        },
    ensures
        opt_text(r) == (match components_read(href@) {
            Some(c) => Some(plain_origin(c)),
            None => None,
        }),
{
    url::Url::parse(href).ok().map(|u| u.origin().ascii_serialization())
}

/// The origin of the URL that a text is, seen through at most `n` layers of
/// `blob` URLs that hold it in their paths.
pub open spec fn held_origin(href: Seq<char>, n: nat) -> Seq<char>
    decreases n,
{
    match parsed_components(href) {
        Some(c) => if c.scheme != "blob"@ {
            plain_origin(c)
        } else if n == 0 {
            "null"@
        } else {
            held_origin(c.path, (n - 1) as nat)
        },
        None => "null"@,
    }
}

/// The origin of a URL in its ASCII serialisation. Every layer of a `blob` URL
/// takes its own `blob:` out of the text, so it has fewer layers than scalars.
pub open spec fn origin_text(c: ComponentsView) -> Seq<char> {
    if c.scheme == "blob"@ {
        held_origin(c.path, c.path.len())
    } else {
        held_origin(c.href, 0)
    }
}

fn write_held_origin(href: &str, layers: usize) -> (r: String)
    ensures
        r@ == held_origin(href@, layers as nat),
{
    let mut text: String = href.to_owned();
    let mut n: usize = layers;
    loop
        invariant
            held_origin(text@, n as nat) == held_origin(href@, layers as nat),
        decreases n,
    {
        let c: Components<String> = match parse_components(text.as_str()) {
            Some(c) => c,
            None => {
                return "null".to_owned();
            },
        };
        if !same_text(c.scheme.as_str(), "blob") {
            return match read_origin(text.as_str()) {
                Some(origin) => origin,
                None => "null".to_owned(),
            };
        }
        if n == 0 {
            return "null".to_owned();
        }
        text = c.path;
        n = n - 1;
    }
}

/// The origin of a URL in its ASCII serialisation.
pub fn write_origin(c: &Components<String>) -> (r: String)
    ensures
        r@ == origin_text(c@),
{
    if same_text(c.scheme.as_str(), "blob") {
        write_held_origin(c.path.as_str(), c.path.as_str().unicode_len())
    } else {
        write_held_origin(c.href.as_str(), 0)
    }
}

/// A URL from its components and its host, where there are both.
pub open spec fn parts_of(
    components: Option<ComponentsView>,
    host: Option<HostKind<Seq<char>>>,
) -> Option<UrlParts<Seq<char>>> {
    match (components, host) {
        (Some(c), Some(host)) => Some(
            UrlParts { href: c.href, scheme: c.scheme, host, origin: origin_text(c) },
        ),
        _ => None,
    }
}

fn make_parts(components: Option<Components<String>>, host: Option<HostKind<String>>) -> (r: Option<
    UrlParts<String>,
>)
    ensures
        opt_parts(r) == parts_of(opt_components(components), opt_host(host)),
{
    match (components, host) {
        (Some(c), Some(host)) => {
            let origin: String = write_origin(&c);
            Some(UrlParts { href: c.href, scheme: c.scheme, host, origin })
        },
        _ => None,
    }
}

/// The URL that a text is, or nothing where it is no absolute URL.
pub open spec fn parsed_url(href: Seq<char>) -> Option<UrlParts<Seq<char>>> {
    parts_of(parsed_components(href), parsed_host_kind(href))
}

/// Parses a URL.
pub fn parse_parts(href: &str) -> (r: Option<UrlParts<String>>)
    ensures
        opt_parts(r) == parsed_url(href@),
{
    make_parts(parse_components(href), parse_host_kind(href))
}

/// What the getters of `url::Url` give of `href` resolved against `base` by
/// `url::Url::join`, or nothing where either of them does not parse.
pub uninterp spec fn components_joined(base: Seq<char>, href: Seq<char>) -> Option<
    Components<Seq<char>>,
>;

/// `url::Url::join` on the parsed base, and what the getters give of its
/// result.
#[verifier::external_body]
fn read_joined(base: &str, href: &str) -> (r: Option<Components<String>>)
    requires
        join_fits(base@, href@),
    ensures
        opt_components(r) == components_joined(base@, href@),
{
    let u = url::Url::parse(base).ok()?.join(href).ok()?;
    Some(Components {
        href: u.to_string(),
        scheme: u.scheme().to_string(),
        username: u.username().to_string(),
        password: u.password().map(str::to_string),
        hostname: u.host_str().map(str::to_string),
        port: u.port(),
        path: u.path().to_string(),
        query: u.query().map(str::to_string),
        fragment: u.fragment().map(str::to_string),
    })
}

/// The components of `href` resolved against `base`, or nothing where either
/// of them does not parse or the result may be too long.
pub open spec fn joined_components(base: Seq<char>, href: Seq<char>) -> Option<ComponentsView> {
    if join_fits(base, href) {
        components_joined(base, href)
    } else {
        None
    }
}

fn join_components(base: &str, href: &str) -> (r: Option<Components<String>>)
    ensures
        opt_components(r) == joined_components(base@, href@),
{
    if fits_join(base, href) {
        read_joined(base, href)
    } else {
        None
    }
}

/// What `url::Url::host` gives of `href` resolved against `base` by
/// `url::Url::join`, or nothing where either of them does not parse.
pub uninterp spec fn host_kind_joined(base: Seq<char>, href: Seq<char>) -> Option<
    HostKind<Seq<char>>,
>;

/// `url::Url::join` on the parsed base, and what `url::Url::host` gives of its
/// result, an address in the standard text form of its family.
#[verifier::external_body]
fn read_joined_host(base: &str, href: &str) -> (r: Option<HostKind<String>>)
    requires
        join_fits(base@, href@),
    ensures
        opt_host(r) == host_kind_joined(base@, href@),
{
    let u = url::Url::parse(base).ok()?.join(href).ok()?;
    Some(match u.host() {
        Some(url::Host::Domain(d)) => HostKind::Domain(d.to_string()),
        Some(url::Host::Ipv4(a)) => HostKind::Ipv4(a.to_string()),
        Some(url::Host::Ipv6(a)) => HostKind::Ipv6(a.to_string()),
        None => HostKind::Absent,
    })
}

/// The host of `href` resolved against `base`, or nothing where either of them
/// does not parse or the result may be too long.
pub open spec fn joined_host_kind(base: Seq<char>, href: Seq<char>) -> Option<
    HostKind<Seq<char>>,
> {
    if join_fits(base, href) {
        host_kind_joined(base, href)
    } else {
        None
    }
}

fn join_host_kind(base: &str, href: &str) -> (r: Option<HostKind<String>>)
    ensures
        opt_host(r) == joined_host_kind(base@, href@),
{
    if fits_join(base, href) {
        read_joined_host(base, href)
    } else {
        None
    }
}

/// The URL that `href` is against `base`, or nothing where either of them does
/// not parse.
pub open spec fn joined_url(base: Seq<char>, href: Seq<char>) -> Option<UrlParts<Seq<char>>> {
    parts_of(joined_components(base, href), joined_host_kind(base, href))
}

/// Resolves a URL against another.
pub fn join_parts(base: &str, href: &str) -> (r: Option<UrlParts<String>>)
    ensures
        opt_parts(r) == joined_url(base@, href@),
{
    make_parts(join_components(base, href), join_host_kind(base, href))
}

/// The text can be parsed, and the URL that it is can grow by so many bytes.
pub open spec fn has_room(href: Seq<char>, bytes: int) -> bool {
    url_fits(href) && match components_read(href) {
        Some(c) => byte_length(c.href) + bytes <= LONGEST_URL,
        None => true,
    }
}

/// The host would be empty in front of a port, with no user information before
/// it. The getters of `url::Url` would take the colon of such a port for that
/// of a password.
pub open spec fn bares_port(href: Seq<char>, host: Seq<char>) -> bool {
    host.len() == 0 && match parsed_components(href) {
        Some(c) => c.port is Some && c.username.len() == 0 && c.password is None,
        None => false,
    }
}

/// The components after `url::Url::set_scheme`, where the URL parses and
/// the setter accepts the scheme.
pub uninterp spec fn url_with_scheme(href: Seq<char>, scheme: Seq<char>) -> Option<
    Components<Seq<char>>,
>;

/// `url::Url::set_scheme`.
#[verifier::external_body]
fn set_scheme(href: &str, scheme: &str) -> (r: Option<Components<String>>)
    requires
        has_room(href@, byte_length(scheme@) as int),
    ensures
        opt_components(r) == url_with_scheme(href@, scheme@),
{
    let mut u = url::Url::parse(href).ok()?;
    u.set_scheme(scheme).ok()?;
    Some(Components {
        href: u.to_string(),
        scheme: u.scheme().to_string(),
        username: u.username().to_string(),
        password: u.password().map(str::to_string),
        hostname: u.host_str().map(str::to_string),
        port: u.port(),
        path: u.path().to_string(),
        query: u.query().map(str::to_string),
        fragment: u.fragment().map(str::to_string),
    })
}

/// The components after `url::Url::set_username`, where the URL parses and
/// can have one.
pub uninterp spec fn url_with_username(href: Seq<char>, name: Seq<char>) -> Option<
    Components<Seq<char>>,
>;

/// `url::Url::set_username`.
#[verifier::external_body]
fn set_username(href: &str, name: &str) -> (r: Option<Components<String>>)
    requires
        has_room(href@, escaped_bytes(name@) + 1),
    ensures
        opt_components(r) == url_with_username(href@, name@),
{
    let mut u = url::Url::parse(href).ok()?;
    u.set_username(name).ok()?;
    Some(Components {
        href: u.to_string(),
        scheme: u.scheme().to_string(),
        username: u.username().to_string(),
        password: u.password().map(str::to_string),
        hostname: u.host_str().map(str::to_string),
        port: u.port(),
        path: u.path().to_string(),
        query: u.query().map(str::to_string),
        fragment: u.fragment().map(str::to_string),
    })
}

/// The components after `url::Url::set_password`, where the URL parses and
/// can have one.
pub uninterp spec fn url_with_password(href: Seq<char>, word: Option<Seq<char>>) -> Option<
    Components<Seq<char>>,
>;

/// `url::Url::set_password`.
#[verifier::external_body]
fn set_password(href: &str, word: Option<&str>) -> (r: Option<Components<String>>)
    requires
        match word {
            Some(w) => has_room(href@, escaped_bytes(w@) + 2),
            None => has_room(href@, 0),
        },
    ensures
        opt_components(r) == url_with_password(href@, opt_str(word)),
{
    let mut u = url::Url::parse(href).ok()?;
    u.set_password(word).ok()?;
    Some(Components {
        href: u.to_string(),
        scheme: u.scheme().to_string(),
        username: u.username().to_string(),
        password: u.password().map(str::to_string),
        hostname: u.host_str().map(str::to_string),
        port: u.port(),
        path: u.path().to_string(),
        query: u.query().map(str::to_string),
        fragment: u.fragment().map(str::to_string),
    })
}

/// The components after `url::Url::set_host`, where the URL parses and the
/// setter accepts the host.
pub uninterp spec fn url_with_host(href: Seq<char>, host: Seq<char>) -> Option<
    Components<Seq<char>>,
>;

/// `url::Url::set_host` with a host.
#[verifier::external_body]
fn set_host(href: &str, host: &str) -> (r: Option<Components<String>>)
    requires
        has_room(href@, host_bytes(host@)),
        !bares_port(href@, host@),
    ensures
        opt_components(r) == url_with_host(href@, host@),
{
    let mut u = url::Url::parse(href).ok()?;
    u.set_host(Some(host)).ok()?;
    Some(Components {
        href: u.to_string(),
        scheme: u.scheme().to_string(),
        username: u.username().to_string(),
        password: u.password().map(str::to_string),
        hostname: u.host_str().map(str::to_string),
        port: u.port(),
        path: u.path().to_string(),
        query: u.query().map(str::to_string),
        fragment: u.fragment().map(str::to_string),
    })
}

/// The components after `url::Url::set_port`, where the URL parses and can
/// have one.
pub uninterp spec fn url_with_port(href: Seq<char>, port: Option<u16>) -> Option<
    Components<Seq<char>>,
>;

/// `url::Url::set_port`.
#[verifier::external_body]
fn set_port(href: &str, port: Option<u16>) -> (r: Option<Components<String>>)
    requires
        has_room(href@, 6),
    ensures
        opt_components(r) == url_with_port(href@, port),
{
    let mut u = url::Url::parse(href).ok()?;
    u.set_port(port).ok()?;
    Some(Components {
        href: u.to_string(),
        scheme: u.scheme().to_string(),
        username: u.username().to_string(),
        password: u.password().map(str::to_string),
        hostname: u.host_str().map(str::to_string),
        port: u.port(),
        path: u.path().to_string(),
        query: u.query().map(str::to_string),
        fragment: u.fragment().map(str::to_string),
    })
}

/// The components after `url::Url::set_path`, where the URL parses.
pub uninterp spec fn url_with_path(href: Seq<char>, path: Seq<char>) -> Option<
    Components<Seq<char>>,
>;

/// `url::Url::set_path`.
#[verifier::external_body]
fn set_path(href: &str, path: &str) -> (r: Option<Components<String>>)
    requires
        has_room(href@, escaped_bytes(path@) + 4),
    ensures
        opt_components(r) == url_with_path(href@, path@),
{
    let mut u = url::Url::parse(href).ok()?;
    u.set_path(path);
    Some(Components {
        href: u.to_string(),
        scheme: u.scheme().to_string(),
        username: u.username().to_string(),
        password: u.password().map(str::to_string),
        hostname: u.host_str().map(str::to_string),
        port: u.port(),
        path: u.path().to_string(),
        query: u.query().map(str::to_string),
        fragment: u.fragment().map(str::to_string),
    })
}

/// The components after `url::Url::set_query`, where the URL parses.
pub uninterp spec fn url_with_query(href: Seq<char>, query: Option<Seq<char>>) -> Option<
    Components<Seq<char>>,
>;

/// `url::Url::set_query`.
#[verifier::external_body]
fn set_query(href: &str, query: Option<&str>) -> (r: Option<Components<String>>)
    requires
        match query {
            Some(q) => has_room(href@, escaped_bytes(q@) + 1),
            None => has_room(href@, 0),
        },
    ensures
        opt_components(r) == url_with_query(href@, opt_str(query)),
{
    let mut u = url::Url::parse(href).ok()?;
    u.set_query(query);
    Some(Components {
        href: u.to_string(),
        scheme: u.scheme().to_string(),
        username: u.username().to_string(),
        password: u.password().map(str::to_string),
        hostname: u.host_str().map(str::to_string),
        port: u.port(),
        path: u.path().to_string(),
        query: u.query().map(str::to_string),
        fragment: u.fragment().map(str::to_string),
    })
}

/// The components after `url::Url::set_fragment`, where the URL parses.
pub uninterp spec fn url_with_fragment(href: Seq<char>, fragment: Option<Seq<char>>) -> Option<
    Components<Seq<char>>,
>;

/// `url::Url::set_fragment`.
#[verifier::external_body]
fn set_fragment(href: &str, fragment: Option<&str>) -> (r: Option<Components<String>>)
    requires
        has_room(href@, 0),
    ensures
        opt_components(r) == url_with_fragment(href@, opt_str(fragment)),
{
    let mut u = url::Url::parse(href).ok()?;
    u.set_fragment(fragment);
    Some(Components {
        href: u.to_string(),
        scheme: u.scheme().to_string(),
        username: u.username().to_string(),
        password: u.password().map(str::to_string),
        hostname: u.host_str().map(str::to_string),
        port: u.port(),
        path: u.path().to_string(),
        query: u.query().map(str::to_string),
        fragment: u.fragment().map(str::to_string),
    })
}

/// The origin of a URL, where it parses.
pub open spec fn origin_of(request_url: Seq<char>) -> Option<Seq<char>> {
    match parsed_components(request_url) {
        Some(c) => Some(origin_text(c)),
        None => None,
    }
}

/// The origin of a request's URL.
pub fn request_origin(request_url: &str) -> (r: Option<String>)
    ensures
        opt_text(r) == origin_of(request_url@),
{
    match parse_components(request_url) {
        Some(c) => Some(write_origin(&c)),
        None => None,
    }
}

/// The port as text, empty where it is the scheme's own.
pub open spec fn port_text(port: Option<u16>) -> Seq<char> {
    match port {
        Some(p) => decimal(p as nat),
        None => Seq::empty(),
    }
}

/// The text, or the empty text.
pub open spec fn text_or(s: Option<Seq<char>>) -> Seq<char> {
    match s {
        Some(t) => t,
        None => Seq::empty(),
    }
}

/// A component behind its mark; the empty text where it is absent or empty.
pub open spec fn marked(mark: Seq<char>, s: Option<Seq<char>>) -> Seq<char> {
    match s {
        Some(t) => if t.len() > 0 {
            mark + t
        } else {
            Seq::empty()
        },
        None => Seq::empty(),
    }
}

/// The host with its port behind a colon, where it has either.
pub open spec fn host_with_port(hostname: Seq<char>, port: Seq<char>) -> Seq<char> {
    if hostname.len() == 0 {
        Seq::empty()
    } else if port.len() == 0 {
        hostname
    } else {
        hostname + ":"@ + port
    }
}

/// The JSON object of a URL's components, as the page's `URL` object reads
/// them.
pub open spec fn components_text(p: ComponentsView) -> Seq<char> {
    let hostname: Seq<char> = text_or(p.hostname);
    let port: Seq<char> = port_text(p.port);
    json_object_text(
        seq![
            json_member_text("hash"@, json_quoted(marked("#"@, p.fragment))),
            json_member_text("host"@, json_quoted(host_with_port(hostname, port))),
            json_member_text("hostname"@, json_quoted(hostname)),
            json_member_text("href"@, json_quoted(p.href)),
            json_member_text("ok"@, bool_text(true)),
            json_member_text("origin"@, json_quoted(origin_text(p))),
            json_member_text("password"@, json_quoted(text_or(p.password))),
            json_member_text("pathname"@, json_quoted(p.path)),
            json_member_text("port"@, json_quoted(port)),
            json_member_text("protocol"@, json_quoted(p.scheme + ":"@)),
            json_member_text("search"@, json_quoted(marked("?"@, p.query))),
            json_member_text("username"@, json_quoted(p.username)),
        ],
    )
}

fn write_port(port: Option<u16>) -> (r: String)
    ensures
        r@ == port_text(port),
{
    match port {
        Some(p) => write_decimal(p as u64),
        None => String::new(),
    }
}

fn write_host(hostname: &str, port: &str) -> (r: String)
    ensures
        r@ == host_with_port(hostname@, port@),
{
    if is_empty(hostname) {
        String::new()
    } else if is_empty(port) {
        hostname.to_owned()
    } else {
        let mut h: String = hostname.to_owned();
        h.append(":");
        h.append(port);
        h
    }
}

fn text_of(s: &Option<String>) -> (r: String)
    ensures
        r@ == text_or(opt_text(*s)),
{
    match s {
        Some(t) => t.as_str().to_owned(),
        None => String::new(),
    }
}

fn mark_text(mark: &str, s: &Option<String>) -> (r: String)
    ensures
        r@ == marked(mark@, opt_text(*s)),
{
    match s {
        Some(t) => {
            if is_empty(t.as_str()) {
                String::new()
            } else {
                let mut r: String = mark.to_owned();
                r.append(t.as_str());
                r
            }
        },
        None => String::new(),
    }
}

fn member(key: &str, value: &str) -> (r: String)
    ensures
        r@ == json_member_text(key@, json_quoted(value@)),
{
    let quoted: String = json_string(value);
    json_member(key, quoted.as_str())
}

/// The JSON object of a URL's components.
pub fn url_components(p: &Components<String>) -> (r: String)
    ensures
        r@ == components_text(p@),
{
    let hostname: String = text_of(&p.hostname);
    let port: String = write_port(p.port);
    let host: String = write_host(hostname.as_str(), port.as_str());
    let origin: String = write_origin(p);
    let mut protocol: String = p.scheme.as_str().to_owned();
    protocol.append(":");
    let hash: String = mark_text("#", &p.fragment);
    let search: String = mark_text("?", &p.query);
    let password: String = text_of(&p.password);
    let yes: String = write_bool(true);
    let mut m: Vec<String> = Vec::new();
    m.push(member("hash", hash.as_str()));
    m.push(member("host", host.as_str()));
    m.push(member("hostname", hostname.as_str()));
    m.push(member("href", p.href.as_str()));
    m.push(json_member("ok", yes.as_str()));
    m.push(member("origin", origin.as_str()));
    m.push(member("password", password.as_str()));
    m.push(member("pathname", p.path.as_str()));
    m.push(member("port", port.as_str()));
    m.push(member("protocol", protocol.as_str()));
    m.push(member("search", search.as_str()));
    m.push(member("username", p.username.as_str()));
    proof {
        let v: ComponentsView = p@;
        assert(host@ == host_with_port(text_or(v.hostname), port_text(v.port)));
        assert(texts(m@) =~= seq![
            json_member_text("hash"@, json_quoted(marked("#"@, v.fragment))),
            json_member_text("host"@, json_quoted(host@)),
            json_member_text("hostname"@, json_quoted(text_or(v.hostname))),
            json_member_text("href"@, json_quoted(v.href)),
            json_member_text("ok"@, bool_text(true)),
            json_member_text("origin"@, json_quoted(origin_text(v))),
            json_member_text("password"@, json_quoted(text_or(v.password))),
            json_member_text("pathname"@, json_quoted(v.path)),
            json_member_text("port"@, json_quoted(port_text(v.port))),
            json_member_text("protocol"@, json_quoted(v.scheme + ":"@)),
            json_member_text("search"@, json_quoted(marked("?"@, v.query))),
            json_member_text("username"@, json_quoted(v.username)),
        ]);
    }
    json_object(&m)
}

/// The reply for an invalid URL.
pub open spec fn invalid_url() -> Seq<char> {
    "{\"ok\":false}"@
}

/// The reply that describes a parsed URL, or says that it is invalid.
pub open spec fn url_reply(parts: Option<ComponentsView>) -> Seq<char> {
    match parts {
        Some(p) => components_text(p),
        None => invalid_url(),
    }
}

fn write_reply(parts: &Option<Components<String>>) -> (r: String)
    ensures
        r@ == url_reply(opt_components(*parts)),
{
    match parts {
        Some(p) => url_components(p),
        None => "{\"ok\":false}".to_owned(),
    }
}

/// The components of `href`, resolved against `base` where that is not empty.
pub open spec fn resolved_components(href: Seq<char>, base: Seq<char>) -> Option<
    ComponentsView,
> {
    if base.len() == 0 {
        parsed_components(href)
    } else {
        joined_components(base, href)
    }
}

fn resolve_components(href: &str, base: &str) -> (r: Option<Components<String>>)
    ensures
        opt_components(r) == resolved_components(href@, base@),
{
    if is_empty(base) {
        parse_components(href)
    } else {
        join_components(base, href)
    }
}

/// Parses `href`, against `base` where that is not empty, and describes the
/// result.
pub fn url_parse(href: &str, base: &str) -> (r: String)
    ensures
        r@ == url_reply(resolved_components(href@, base@)),
{
    let parts: Option<Components<String>> = resolve_components(href, base);
    write_reply(&parts)
}

/// The serialisation of `href`, resolved against `base` where that is not
/// empty; the empty text for an invalid URL.
pub open spec fn resolved(href: Seq<char>, base: Seq<char>) -> Seq<char> {
    match resolved_components(href, base) {
        Some(c) => c.href,
        None => Seq::empty(),
    }
}

/// Resolves `href` against `base` where that is not empty; the empty text for
/// an invalid URL.
pub fn url_resolve(href: &str, base: &str) -> (r: String)
    ensures
        r@ == resolved(href@, base@),
{
    match resolve_components(href, base) {
        Some(c) => c.href,
        None => String::new(),
    }
}

/// The last index of `c` before `to`.
pub open spec fn last_char_index(s: Seq<char>, c: char, to: int) -> Option<int>
    decreases to,
{
    if to <= 0 || to > s.len() {
        None
    } else if s[to - 1] == c {
        Some(to - 1)
    } else {
        last_char_index(s, c, to - 1)
    }
}

fn find_last_char(s: &Vec<char>, c: char) -> (r: Option<usize>)
    ensures
        match r {
            Some(i) => i < s@.len() && last_char_index(s@, c, s@.len() as int) == Some(i as int),
            None => last_char_index(s@, c, s@.len() as int) is None,
        },
{
    let n: usize = s.len();
    let mut i: usize = n;
    while i > 0
        invariant
            i <= n,
            n == s@.len(),
            last_char_index(s@, c, n as int) == last_char_index(s@, c, i as int),
        decreases i,
    {
        if s[i - 1] == c {
            return Some(i - 1);
        }
        i = i - 1;
    }
    None
}

/// How a host setter changes a URL: the host to set, and the port to set when
/// the host was accepted (`None` for no change, `Some(None)` to clear it).
pub struct HostChange<S> {
    pub host: S,
    pub port: Option<Option<u16>>,
}

/// The port that a text of digits names, where it is one.
pub open spec fn port_named(s: Seq<char>) -> Option<u16> {
    match parsed_decimal(s, u16::MAX as nat) {
        Some(v) => Some(v as u16),
        None => None,
    }
}

fn parse_port(s: &str) -> (r: Option<u16>)
    ensures
        r == port_named(s@),
{
    match parse_decimal(s, 65535) {
        Some(v) => Some(v as u16),
        None => None,
    }
}

/// The change to a port from a text behind a colon: nothing where it names no
/// port.
pub open spec fn port_change(s: Seq<char>) -> Option<Option<u16>> {
    match port_named(s) {
        Some(p) => Some(Some(p)),
        None => None,
    }
}

/// A `host[:port]` value taken apart. Brackets are never split; a colon splits
/// off what follows the last one only where that is empty or all digits.
pub open spec fn host_change(value: Seq<char>) -> HostChange<Seq<char>> {
    let close: Option<int> = char_index(value, ']', 0);
    let colon: Option<int> = last_char_index(value, ':', value.len() as int);
    if has_prefix(value, "["@) && close is Some {
        HostChange {
            host: value.take(close->0 + 1),
            port: match without_prefix(value.skip(close->0 + 1), ":"@) {
                Some(p) => port_change(p),
                None => None,
            },
        }
    } else if colon is Some && (value.skip(colon->0 + 1).len() == 0 || all_digits(
        value.skip(colon->0 + 1),
    )) {
        HostChange {
            host: value.take(colon->0),
            port: if value.skip(colon->0 + 1).len() == 0 {
                Some(None)
            } else {
                port_change(value.skip(colon->0 + 1))
            },
        }
    } else {
        HostChange { host: value, port: None }
    }
}

fn only_digits(s: &Vec<char>, from: usize) -> (r: bool)
    requires
        from <= s@.len(),
    ensures
        r == (s@.skip(from as int).len() == 0 || all_digits(s@.skip(from as int))),
{
    let mut i: usize = from;
    while i < s.len()
        invariant
            from <= i <= s@.len(),
            forall|j: int| from <= j < i ==> crate::number::is_digit(#[trigger] s@[j]),
        decreases s@.len() - i,
    {
        if s[i] < '0' || s[i] > '9' {
            assert(!crate::number::is_digit(s@.skip(from as int)[i - from]));
            return false;
        }
        i = i + 1;
    }
    assert forall|j: int| 0 <= j < s@.skip(from as int).len() implies crate::number::is_digit(
        #[trigger] s@.skip(from as int)[j],
    ) by {
        assert(s@[from + j] == s@.skip(from as int)[j]);
    }
    true
}

/// Takes a `host[:port]` value apart.
pub fn split_host_port(value: &str) -> (r: HostChange<String>)
    ensures
        r.host@ == host_change(value@).host,
        r.port == host_change(value@).port,
{
    let vc: Vec<char> = to_chars(value);
    let n: usize = vc.len();
    if starts_with(value, "[") {
        match find_char(&vc, ']', 0) {
            Some(close) => {
                let host: String = slice_text(&vc, 0, close + 1);
                let rest: String = slice_text(&vc, close + 1, n);
                assert(host@ =~= value@.take(close + 1));
                assert(rest@ =~= value@.skip(close + 1));
                let port: Option<Option<u16>> = match strip_prefix(rest.as_str(), ":") {
                    Some(p) => match parse_port(p.as_str()) {
                        Some(v) => Some(Some(v)),
                        None => None,
                    },
                    None => None,
                };
                return HostChange { host, port };
            },
            None => {},
        }
    }
    match find_last_char(&vc, ':') {
        Some(colon) => {
            if only_digits(&vc, colon + 1) {
                let host: String = slice_text(&vc, 0, colon);
                let rest: String = slice_text(&vc, colon + 1, n);
                assert(host@ =~= value@.take(colon as int));
                assert(rest@ =~= value@.skip(colon + 1));
                let port: Option<Option<u16>> = if is_empty(rest.as_str()) {
                    Some(None)
                } else {
                    match parse_port(rest.as_str()) {
                        Some(v) => Some(Some(v)),
                        None => None,
                    }
                };
                return HostChange { host, port };
            }
        },
        None => {},
    }
    HostChange { host: value.to_owned(), port: None }
}

/// The components after a port is set on a URL that was given a host. A port
/// that is there already, and one that the URL cannot have, change nothing.
pub open spec fn with_port(c: ComponentsView, port: Option<u16>) -> ComponentsView {
    if c.port == port || !has_room(c.href, 6) {
        c
    } else {
        match url_with_port(c.href, port) {
            Some(d) => d,
            None => c,
        }
    }
}

/// The components after a host is set, where the setter accepts it. None is
/// taken away from in front of a bare port.
pub open spec fn with_host(href: Seq<char>, host: Seq<char>) -> Option<ComponentsView> {
    if bares_port(href, host) {
        None
    } else {
        url_with_host(href, host)
    }
}

fn apply_host(href: &str, host: &str) -> (r: Option<Components<String>>)
    requires
        has_room(href@, host_bytes(host@)),
    ensures
        opt_components(r) == with_host(href@, host@),
{
    if is_empty(host) {
        match parse_components(href) {
            Some(c) => {
                if c.port.is_some() && is_empty(c.username.as_str()) && c.password.is_none() {
                    return None;
                }
            },
            None => {},
        }
    }
    set_host(href, host)
}

/// The components after the host setter, where it accepts the host: the host
/// is set first, and then the port where the value names one.
pub open spec fn with_host_port(href: Seq<char>, value: Seq<char>) -> Option<ComponentsView> {
    let change: HostChange<Seq<char>> = host_change(value);
    match with_host(href, change.host) {
        Some(c) => Some(
            match change.port {
                Some(port) => with_port(c, port),
                None => c,
            },
        ),
        None => None,
    }
}

fn room_for(href: &str, bytes: u128) -> (r: bool)
    ensures
        r == has_room(href@, bytes as int),
{
    fits_url(href) && match read_components(href) {
        Some(c) => byte_len(c.href.as_str()) as u128 <= LONGEST_URL as u128 && bytes
            <= LONGEST_URL as u128 - byte_len(c.href.as_str()) as u128,
        None => true,
    }
}

fn apply_port(c: Components<String>, port: Option<u16>) -> (r: Components<String>)
    ensures
        r@ == with_port(c@, port),
{
    let same: bool = match (c.port, port) {
        (Some(a), Some(b)) => a == b,
        (None, None) => true,
        _ => false,
    };
    if same || !room_for(c.href.as_str(), 6) {
        return c;
    }
    match set_port(c.href.as_str(), port) {
        Some(d) => d,
        None => c,
    }
}

/// The components after the host setter.
pub fn set_host_port(href: &str, value: &str) -> (r: Option<Components<String>>)
    requires
        has_room(href@, host_bytes(host_change(value@).host)),
    ensures
        opt_components(r) == with_host_port(href@, value@),
{
    let change: HostChange<String> = split_host_port(value);
    match apply_host(href, change.host.as_str()) {
        Some(c) => match change.port {
            Some(port) => Some(apply_port(c, port)),
            None => Some(c),
        },
        None => None,
    }
}

/// `s` without its trailing colons.
pub open spec fn without_colons(s: Seq<char>) -> Seq<char>
    decreases s.len(),
{
    if s.len() > 0 && s.last() == ':' {
        without_colons(s.drop_last())
    } else {
        s
    }
}

fn strip_colons(s: &str) -> (r: String)
    ensures
        r@ == without_colons(s@),
        r@.len() <= s@.len(),
{
    let sc: Vec<char> = to_chars(s);
    let mut i: usize = sc.len();
    assert(s@.take(i as int) =~= s@);
    while i > 0 && sc[i - 1] == ':'
        invariant
            i <= sc@.len(),
            sc@ == s@,
            without_colons(s@) == without_colons(s@.take(i as int)),
        decreases i,
    {
        assert(s@.take(i as int).drop_last() =~= s@.take(i - 1));
        i = i - 1;
    }
    let r: String = slice_text(&sc, 0, i);
    assert(r@ =~= s@.take(i as int));
    r
}

/// `value` without a leading mark; none where nothing is left.
pub open spec fn unmarked(value: Seq<char>, mark: Seq<char>) -> Option<Seq<char>> {
    let rest: Seq<char> = match without_prefix(value, mark) {
        Some(t) => t,
        None => value,
    };
    if rest.len() == 0 {
        None
    } else {
        Some(rest)
    }
}

fn unmark(value: &str, mark: &str) -> (r: Option<String>)
    ensures
        opt_text(r) == unmarked(value@, mark@),
        r is Some ==> (r->0)@.len() <= value@.len(),
{
    let rest: String = match strip_prefix(value, mark) {
        Some(t) => t,
        None => value.to_owned(),
    };
    if is_empty(rest.as_str()) {
        None
    } else {
        Some(rest)
    }
}

/// The components after the setter `part` with `value`. There are none for a
/// part that is no setter and for a value that the setter refuses.
pub open spec fn after_setter(href: Seq<char>, part: Seq<char>, value: Seq<char>) -> Option<
    ComponentsView,
> {
    if part == "protocol"@ {
        url_with_scheme(href, without_colons(value))
    } else if part == "username"@ {
        url_with_username(href, value)
    } else if part == "password"@ {
        url_with_password(
            href,
            if value.len() == 0 {
                None
            } else {
                Some(value)
            },
        )
    } else if part == "host"@ {
        with_host_port(href, value)
    } else if part == "hostname"@ {
        if value.len() == 0 {
            None
        } else {
            with_host(href, value)
        }
    } else if part == "port"@ {
        if value.len() == 0 {
            url_with_port(href, None)
        } else {
            match port_named(value) {
                Some(p) => url_with_port(href, Some(p)),
                None => None,
            }
        }
    } else if part == "pathname"@ {
        url_with_path(href, value)
    } else if part == "search"@ {
        url_with_query(href, unmarked(value, "?"@))
    } else if part == "hash"@ {
        url_with_fragment(href, unmarked(value, "#"@))
    } else {
        None
    }
}

/// The bytes that the setter `part` may add to a serialisation for `value`.
pub open spec fn setter_bytes(part: Seq<char>, value: Seq<char>) -> int {
    if part == "protocol"@ {
        byte_length(without_colons(value)) as int
    } else if part == "username"@ {
        escaped_bytes(value) + 1
    } else if part == "password"@ {
        escaped_bytes(value) + 2
    } else if part == "host"@ {
        host_bytes(host_change(value).host)
    } else if part == "hostname"@ {
        host_bytes(value)
    } else if part == "port"@ {
        6
    } else if part == "pathname"@ {
        escaped_bytes(value) + 4
    } else if part == "search"@ {
        match unmarked(value, "?"@) {
            Some(q) => escaped_bytes(q) + 1,
            None => 0,
        }
    } else {
        0
    }
}

/// The serialisation can hold what the setter `part` makes of `value`.
pub open spec fn setter_fits(href: Seq<char>, part: Seq<char>, value: Seq<char>) -> bool {
    has_room(href, setter_bytes(part, value))
}

fn count_setter(part: &str, value: &str) -> (r: u128)
    ensures
        r == setter_bytes(part@, value@),
{
    if same_text(part, "protocol") {
        let scheme: String = strip_colons(value);
        byte_len(scheme.as_str()) as u128
    } else if same_text(part, "username") {
        count_escaped(value) + 1
    } else if same_text(part, "password") {
        count_escaped(value) + 2
    } else if same_text(part, "host") {
        let change: HostChange<String> = split_host_port(value);
        count_host(change.host.as_str())
    } else if same_text(part, "hostname") {
        count_host(value)
    } else if same_text(part, "port") {
        6
    } else if same_text(part, "pathname") {
        count_escaped(value) + 4
    } else if same_text(part, "search") {
        match unmark(value, "?") {
            Some(q) => count_escaped(q.as_str()) + 1,
            None => 0,
        }
    } else {
        0
    }
}

fn fits_setter(href: &str, part: &str, value: &str) -> (r: bool)
    ensures
        r == setter_fits(href@, part@, value@),
{
    room_for(href, count_setter(part, value))
}

fn apply_setter(href: &str, part: &str, value: &str) -> (r: Option<Components<String>>)
    requires
        setter_fits(href@, part@, value@),
    ensures
        opt_components(r) == after_setter(href@, part@, value@),
{
    if same_text(part, "protocol") {
        let scheme: String = strip_colons(value);
        set_scheme(href, scheme.as_str())
    } else if same_text(part, "username") {
        set_username(href, value)
    } else if same_text(part, "password") {
        if is_empty(value) {
            set_password(href, None)
        } else {
            set_password(href, Some(value))
        }
    } else if same_text(part, "host") {
        set_host_port(href, value)
    } else if same_text(part, "hostname") {
        if is_empty(value) {
            None
        } else {
            apply_host(href, value)
        }
    } else if same_text(part, "port") {
        if is_empty(value) {
            set_port(href, None)
        } else {
            match parse_port(value) {
                Some(p) => set_port(href, Some(p)),
                None => None,
            }
        }
    } else if same_text(part, "pathname") {
        set_path(href, value)
    } else if same_text(part, "search") {
        match unmark(value, "?") {
            Some(q) => set_query(href, Some(q.as_str())),
            None => set_query(href, None),
        }
    } else if same_text(part, "hash") {
        match unmark(value, "#") {
            Some(f) => set_fragment(href, Some(f.as_str())),
            None => set_fragment(href, None),
        }
    } else {
        None
    }
}

/// The components after the setter `part` with `value`, those of the URL as it
/// was where the setter changes nothing, and nothing where `href` is invalid or
/// is replaced by an invalid one.
pub open spec fn set_components(href: Seq<char>, part: Seq<char>, value: Seq<char>) -> Option<
    ComponentsView,
> {
    match parsed_components(href) {
        Some(old) => if part == "href"@ {
            parsed_components(value)
        } else {
            match after_setter(href, part, value) {
                Some(new) => Some(new),
                None => Some(old),
            }
        },
        None => None,
    }
}

/// Applies a setter to a URL and gives the components of the result.
pub fn url_set_inner(href: &str, part: &str, value: &str) -> (r: Option<Components<String>>)
    requires
        setter_fits(href@, part@, value@),
    ensures
        opt_components(r) == set_components(href@, part@, value@),
{
    match parse_components(href) {
        Some(unchanged) => {
            if same_text(part, "href") {
                parse_components(value)
            } else {
                match apply_setter(href, part, value) {
                    Some(changed) => Some(changed),
                    None => Some(unchanged),
                }
            }
        },
        None => None,
    }
}

/// What a setter replies: the components after it, or those of the unchanged
/// URL where it has none, or that the URL is invalid.
pub open spec fn set_reply(href: Seq<char>, part: Seq<char>, value: Seq<char>) -> Seq<char> {
    if setter_fits(href, part, value) && set_components(href, part, value) is Some {
        components_text(set_components(href, part, value)->0)
    } else {
        url_reply(parsed_components(href))
    }
}

/// Applies a setter to a URL and describes the result. A setter that cannot be
/// carried out leaves the URL as it is, and so does one for whose value the
/// serialisation may have no room.
pub fn url_set(href: &str, part: &str, value: &str) -> (r: String)
    ensures
        r@ == set_reply(href@, part@, value@),
{
    if fits_setter(href, part, value) {
        match url_set_inner(href, part, value) {
            Some(p) => {
                return url_components(&p);
            },
            None => {},
        }
    }
    let unchanged: Option<Components<String>> = parse_components(href);
    write_reply(&unchanged)
}

/// A part that is no setter leaves a valid URL's components as they are.
pub proof fn unknown_setter_changes_nothing(href: Seq<char>, part: Seq<char>, value: Seq<char>)
    requires
        part != "href"@,
        part != "protocol"@,
        part != "username"@,
        part != "password"@,
        part != "host"@,
        part != "hostname"@,
        part != "port"@,
        part != "pathname"@,
        part != "search"@,
        part != "hash"@,
    ensures
        set_reply(href, part, value) == url_reply(parsed_components(href)),
{
}

/// What `url::Host::parse` makes of a text: whether the host is an IPv4
/// address, and its serialisation.
pub uninterp spec fn parsed_host(input: Seq<char>) -> Option<(bool, Seq<char>)>;

/// `url::Host::parse`, and its result as text.
#[verifier::external_body]
fn parse_host(input: &str) -> (r: Option<(bool, String)>)
    ensures
        match r {
            Some(h) => parsed_host(input@) == Some((h.0, h.1@)),
            None => parsed_host(input@) is None,
        },
{
    let host = url::Host::parse(input).ok()?;
    let ipv4 = matches!(host, url::Host::Ipv4(_));
    Some((ipv4, host.to_string()))
}

/// The registrable domain that `psl::domain_str` finds in a host name.
pub uninterp spec fn registrable_domain(host: Seq<char>) -> Option<Seq<char>>;

/// `psl::domain_str`.
#[verifier::external_body]
fn find_registrable(host: &str) -> (r: Option<String>)
    ensures
        opt_text(r) == registrable_domain(host@),
{
    psl::domain_str(host).map(|d| d.to_string())
}

/// The effective domain that an assignment settles on, given what the input
/// and the registrable domain are: the current host itself, or a parent of it
/// no shorter than the registrable domain. Addresses have no parents. The
/// empty text stands for a refusal.
pub open spec fn domain_choice(
    current: Seq<char>,
    current_is_ip: bool,
    input: Option<(bool, Seq<char>)>,
    registrable: Option<Seq<char>>,
) -> Seq<char> {
    match input {
        Some((ipv4, text)) => {
            let canonical: Seq<char> = lowered(text);
            let host: Seq<char> = lowered(current);
            if canonical == host {
                canonical
            } else if current_is_ip || ipv4 || !has_suffix(host, "."@ + canonical) {
                Seq::empty()
            } else {
                match registrable {
                    Some(d) => if byte_length(canonical) >= byte_length(d) {
                        canonical
                    } else {
                        Seq::empty()
                    },
                    None => Seq::empty(),
                }
            }
        },
        None => Seq::empty(),
    }
}

/// Chooses the effective domain, given what the input and the registrable
/// domain of the current host are.
pub fn choose_domain(
    current: &str,
    current_is_ip: bool,
    input: &Option<(bool, String)>,
    registrable: &Option<String>,
) -> (r: String)
    ensures
        r@ == domain_choice(
            current@,
            current_is_ip,
            match *input {
                Some(h) => Some((h.0, h.1@)),
                None => None,
            },
            opt_text(*registrable),
        ),
{
    match input {
        Some((ipv4, text)) => {
            let canonical: String = to_lower(text.as_str());
            let host: String = to_lower(current);
            if same_text(canonical.as_str(), host.as_str()) {
                return canonical;
            }
            let mut suffix: String = ".".to_owned();
            suffix.append(canonical.as_str());
            if current_is_ip || *ipv4 || !ends_with(host.as_str(), suffix.as_str()) {
                return String::new();
            }
            match registrable {
                Some(d) => {
                    if byte_len(canonical.as_str()) >= byte_len(d.as_str()) {
                        canonical
                    } else {
                        String::new()
                    }
                },
                None => String::new(),
            }
        },
        None => String::new(),
    }
}

/// Canonicalises and validates an assignment of the document's domain. The
/// empty text stands for a refusal. `current_is_ip` says whether the current
/// host is an address.
pub fn document_domain_candidate(current: &str, input: &str, current_is_ip: bool) -> (r: String)
    ensures
        r@ == domain_choice(
            current@,
            current_is_ip,
            parsed_host(input@),
            registrable_domain(lowered(current@)),
        ),
{
    let canonical: Option<(bool, String)> = parse_host(input);
    let host: String = to_lower(current);
    let registrable: Option<String> = find_registrable(host.as_str());
    choose_domain(current, current_is_ip, &canonical, &registrable)
}

/// An accepted domain is the current host or a parent of it, and where it is a
/// parent it is no shorter than the registrable domain: nothing relaxes to a
/// public suffix.
pub proof fn domain_never_relaxes_past_registrable(
    current: Seq<char>,
    current_is_ip: bool,
    input: Option<(bool, Seq<char>)>,
    registrable: Option<Seq<char>>,
)
    ensures
        ({
            let d: Seq<char> = domain_choice(current, current_is_ip, input, registrable);
            ||| d.len() == 0
            ||| d == lowered(current)
            ||| {
                &&& has_suffix(lowered(current), "."@ + d)
                &&& !current_is_ip
                &&& registrable is Some
                &&& byte_length(d) >= byte_length(registrable->0)
            }
        }),
{
}

proof fn setters_have_their_own_names()
    ensures
        "protocol"@ != "username"@,
        "protocol"@ != "password"@,
        "protocol"@ != "host"@,
        "protocol"@ != "hostname"@,
        "protocol"@ != "port"@,
        "protocol"@ != "pathname"@,
        "protocol"@ != "search"@,
        "protocol"@ != "hash"@,
        "protocol"@ != "href"@,
        "username"@ != "password"@,
        "username"@ != "host"@,
        "username"@ != "hostname"@,
        "username"@ != "port"@,
        "username"@ != "pathname"@,
        "username"@ != "search"@,
        "username"@ != "hash"@,
        "username"@ != "href"@,
        "password"@ != "host"@,
        "password"@ != "hostname"@,
        "password"@ != "port"@,
        "password"@ != "pathname"@,
        "password"@ != "search"@,
        "password"@ != "hash"@,
        "password"@ != "href"@,
        "host"@ != "hostname"@,
        "host"@ != "port"@,
        "host"@ != "pathname"@,
        "host"@ != "search"@,
        "host"@ != "hash"@,
        "host"@ != "href"@,
        "hostname"@ != "port"@,
        "hostname"@ != "pathname"@,
        "hostname"@ != "search"@,
        "hostname"@ != "hash"@,
        "hostname"@ != "href"@,
        "port"@ != "pathname"@,
        "port"@ != "search"@,
        "port"@ != "hash"@,
        "port"@ != "href"@,
        "pathname"@ != "search"@,
        "pathname"@ != "hash"@,
        "pathname"@ != "href"@,
        "search"@ != "hash"@,
        "search"@ != "href"@,
        "hash"@ != "href"@,
{
    reveal_strlit("protocol");
    reveal_strlit("username");
    reveal_strlit("password");
    reveal_strlit("host");
    reveal_strlit("hostname");
    reveal_strlit("port");
    reveal_strlit("pathname");
    reveal_strlit("search");
    reveal_strlit("hash");
    reveal_strlit("href");
    assert("protocol"@.len() == 8);
    assert("username"@.len() == 8);
    assert("password"@.len() == 8);
    assert("host"@.len() == 4);
    assert("hostname"@.len() == 8);
    assert("port"@.len() == 4);
    assert("pathname"@.len() == 8);
    assert("search"@.len() == 6);
    assert("hash"@.len() == 4);
    assert("href"@.len() == 4);
    assert("protocol"@[0] == 'p');
    assert("username"@[0] == 'u');
    assert("protocol"@[1] == 'r');
    assert("password"@[1] == 'a');
    assert("hostname"@[0] == 'h');
    assert("pathname"@[1] == 'a');
    assert("password"@[0] == 'p');
    assert("pathname"@[0] == 'p');
    assert("password"@[2] == 's');
    assert("pathname"@[2] == 't');
    assert("host"@[0] == 'h');
    assert("port"@[0] == 'p');
    assert("host"@[1] == 'o');
    assert("hash"@[1] == 'a');
    assert("href"@[1] == 'r');
    assert("hash"@[0] == 'h');
    assert("href"@[0] == 'h');
}

/// Each setter changes the part that it is named after: the scheme without its
/// colons, a port that the text names, a query and a fragment without their
/// marks. An empty password, port, query or fragment is taken away. An unknown
/// name changes nothing.
pub proof fn setters_change_what_they_name(href: Seq<char>, value: Seq<char>)
    ensures
        (value.len() == 0 || value.last() != ':') ==> after_setter(href, "protocol"@, value)
            == url_with_scheme(href, value) && after_setter(href, "protocol"@, value + ":"@)
            == url_with_scheme(href, value),
        after_setter(href, "username"@, value) == url_with_username(href, value),
        value.len() > 0 ==> after_setter(href, "password"@, value) == url_with_password(
            href,
            Some(value),
        ),
        value.len() == 0 ==> after_setter(href, "password"@, value) == url_with_password(
            href,
            None,
        ),
        value.len() > 0 && !bares_port(href, value) ==> after_setter(href, "hostname"@, value)
            == url_with_host(href, value),
        value.len() == 0 ==> after_setter(href, "hostname"@, value) is None,
        after_setter(href, "pathname"@, value) == url_with_path(href, value),
{
    setters_have_their_own_names();
    reveal_strlit(":");
    assert((value + ":"@).drop_last() =~= value);
    assert(without_colons(value + ":"@) == without_colons(value));
}

/// A number up to 65535 sets the port, the empty text takes it away, and any
/// other text changes nothing.
pub proof fn port_setters_take_numbers(href: Seq<char>, value: Seq<char>, port: u16)
    ensures
        after_setter(href, "port"@, Seq::empty()) == url_with_port(href, None),
        value.len() > 0 && parsed_decimal(value, 65535) == Some(port as nat) ==> after_setter(
            href,
            "port"@,
            value,
        ) == url_with_port(href, Some(port)),
        value.len() > 0 && parsed_decimal(value, 65535) is None ==> after_setter(
            href,
            "port"@,
            value,
        ) is None,
{
    setters_have_their_own_names();
}

/// Queries and fragments are set with or without their marks, and taken away
/// by the empty text and by the mark alone.
pub proof fn marks_are_taken_off(href: Seq<char>, value: Seq<char>)
    requires
        value.len() > 0,
    ensures
        after_setter(href, "search"@, "?"@ + value) == url_with_query(href, Some(value)),
        value[0] != '?' ==> after_setter(href, "search"@, value) == url_with_query(
            href,
            Some(value),
        ),
        after_setter(href, "search"@, Seq::empty()) == url_with_query(href, None),
        after_setter(href, "search"@, "?"@) == url_with_query(href, None),
        after_setter(href, "hash"@, "#"@ + value) == url_with_fragment(href, Some(value)),
        value[0] != '#' ==> after_setter(href, "hash"@, value) == url_with_fragment(
            href,
            Some(value),
        ),
        after_setter(href, "hash"@, Seq::empty()) == url_with_fragment(href, None),
        after_setter(href, "hash"@, "#"@) == url_with_fragment(href, None),
{
    setters_have_their_own_names();
    reveal_strlit("?");
    reveal_strlit("#");
    assert(("?"@ + value).subrange(0, 1) =~= "?"@);
    assert(("?"@ + value).skip(1) =~= value);
    assert(("#"@ + value).subrange(0, 1) =~= "#"@);
    assert(("#"@ + value).skip(1) =~= value);
    assert("?"@.subrange(0, 1) =~= "?"@);
    assert("?"@.skip(1) =~= Seq::<char>::empty());
    assert("#"@.subrange(0, 1) =~= "#"@);
    assert("#"@.skip(1) =~= Seq::<char>::empty());
    assert(value.subrange(0, 1)[0] == value[0]);
    assert("?"@[0] == '?' && "#"@[0] == '#');
}

/// The host setter takes a host alone and a host with a port behind a colon:
/// the port is set where the host is, a bare colon takes it away, and a host
/// without a colon leaves it as it is.
#[verifier::spinoff_prover]
#[verifier::rlimit(60)]
pub proof fn host_setters_take_a_port(host: Seq<char>, port: Seq<char>, n: u16)
    requires
        host.len() > 0,
        host[0] != '[',
        !host.contains(':'),
        !port.contains(':'),
    ensures
        host_change(host).host == host && host_change(host).port is None,
        host_change(host + ":"@).host == host && host_change(host + ":"@).port == Some(
            None::<u16>,
        ),
        port.len() > 0 && all_digits(port) ==> host_change(host + ":"@ + port).host == host,
        port.len() > 0 && all_digits(port) && parsed_decimal(port, 65535) == Some(n as nat)
            ==> host_change(host + ":"@ + port).port == Some(Some(n)),
        port.len() > 0 && all_digits(port) && parsed_decimal(port, 65535) is None
            ==> host_change(host + ":"@ + port).port is None,
        port.len() > 0 && !all_digits(port) ==> host_change(host + ":"@ + port).host == host + ":"@
            + port && host_change(host + ":"@ + port).port is None,
{
    reveal_strlit("[");
    reveal_strlit(":");
    assert("["@[0] == '[');
    let bare: Seq<char> = host + ":"@;
    let full: Seq<char> = host + ":"@ + port;
    last_char_is_last(host, ':', host.len() as int);
    assert forall|i: int| 0 <= i < host.len() implies host[i] != ':' by {
        assert(host.contains(host[i]));
    }
    assert forall|i: int| 0 <= i < port.len() implies port[i] != ':' by {
        assert(port.contains(port[i]));
    }
    last_char_is_last(bare, ':', bare.len() as int);
    last_char_is_last(full, ':', full.len() as int);
    assert(bare[host.len() as int] == ':');
    assert(full[host.len() as int] == ':');
    assert(host.subrange(0, 1)[0] == host[0]);
    assert(bare.subrange(0, 1)[0] == host[0]);
    assert(full.subrange(0, 1)[0] == host[0]);
    assert forall|i: int| host.len() < i < full.len() implies full[i] != ':' by {
        assert(full[i] == port[i - host.len() - 1]);
    }
    assert(bare.take(host.len() as int) =~= host);
    assert(bare.skip(host.len() as int + 1) =~= Seq::<char>::empty());
    assert(full.take(host.len() as int) =~= host);
    assert(full.skip(host.len() as int + 1) =~= port);
}

proof fn last_char_is_last(s: Seq<char>, c: char, to: int)
    requires
        0 <= to <= s.len(),
    ensures
        match last_char_index(s, c, to) {
            Some(i) => 0 <= i < to && s[i] == c && forall|j: int| i < j < to ==> s[j] != c,
            None => forall|j: int| 0 <= j < to ==> s[j] != c,
        },
    decreases to,
{
    if to > 0 && s[to - 1] != c {
        last_char_is_last(s, c, to - 1);
    }
}

/// A setter whose host was accepted has the URL with that host, with the port
/// set behind it where the value has one; a host that is refused changes
/// nothing.
pub proof fn hosts_are_set_before_ports(
    href: Seq<char>,
    value: Seq<char>,
    c: ComponentsView,
    port: Option<u16>,
)
    ensures
        !bares_port(href, host_change(value).host) && url_with_host(href, host_change(value).host)
            == Some(c) && host_change(value).port is None ==> after_setter(href, "host"@, value)
            == Some(c),
        (url_with_host(href, host_change(value).host) is None || bares_port(
            href,
            host_change(value).host,
        )) ==> after_setter(href, "host"@, value) is None,
        !bares_port(href, host_change(value).host) && url_with_host(href, host_change(value).host)
            == Some(c) && host_change(value).port == Some(port) && c.port != port && has_room(
            c.href,
            6,
        ) && url_with_port(c.href, port) is Some ==> after_setter(href, "host"@, value)
            == url_with_port(c.href, port),
        !bares_port(href, host_change(value).host) && url_with_host(href, host_change(value).host)
            == Some(c) && host_change(value).port == Some(port) && url_with_port(c.href, port)
            is None ==> after_setter(href, "host"@, value) == Some(c),
{
    setters_have_their_own_names();
}

/// A setter that is carried out gives the URL that it made, one that is refused
/// the URL as it was; the setter of the whole URL gives the one that was put in,
/// and an invalid URL has none.
pub proof fn setters_give_the_new_url(
    href: Seq<char>,
    part: Seq<char>,
    value: Seq<char>,
    was: ComponentsView,
)
    ensures
        parsed_components(href) is None ==> set_components(href, part, value) is None,
        parsed_components(href) == Some(was) ==> {
            &&& set_components(href, "href"@, value) == parsed_components(value)
            &&& part != "href"@ && after_setter(href, part, value) is None ==> set_components(
                href,
                part,
                value,
            ) == Some(was)
            &&& part != "href"@ && after_setter(href, part, value) is Some ==> set_components(
                href,
                part,
                value,
            ) == after_setter(href, part, value)
        },
        part != "protocol"@ && part != "username"@ && part != "password"@ && part != "host"@ && part
            != "hostname"@ && part != "port"@ && part != "pathname"@ && part != "search"@ && part
            != "hash"@ ==> after_setter(href, part, value) is None,
{
}

/// The reply to a setter tells the components that it gives, and those of the
/// URL as it was where there are none.
pub proof fn setter_replies_tell_the_new_url(href: Seq<char>, part: Seq<char>, value: Seq<char>)
    ensures
        setter_fits(href, part, value) && set_components(href, part, value) is Some ==> set_reply(
            href,
            part,
            value,
        ) == components_text(set_components(href, part, value)->0),
        !(setter_fits(href, part, value) && set_components(href, part, value) is Some)
            && parsed_components(href) is Some ==> set_reply(href, part, value)
            == components_text(parsed_components(href)->0),
        parsed_components(href) is None ==> set_reply(href, part, value) == "{\"ok\":false}"@,
{
}

/// A text is resolved against its base where there is one, and stands alone
/// where the base is empty; an invalid URL resolves to nothing.
pub proof fn bases_are_used_where_given(href: Seq<char>, base: Seq<char>)
    ensures
        resolved_components(href, Seq::empty()) == parsed_components(href),
        base.len() > 0 ==> resolved_components(href, base) == joined_components(base, href),
        resolved_components(href, base) matches Some(c) ==> resolved(href, base) == c.href
            && url_reply(Some(c)) == components_text(c),
        resolved_components(href, base) is None ==> resolved(href, base).len() == 0,
        url_reply(None) == "{\"ok\":false}"@,
{
}

/// The object that describes a URL tells each component under the name that a
/// page knows it by. The fragment and the query stand behind their marks, the
/// scheme before its colon, and the host before its port; a part that is absent
/// is empty.
#[verifier::spinoff_prover]
#[verifier::rlimit(60)]
pub proof fn components_are_told_under_their_names(p: ComponentsView)
    ensures
        p.fragment is None || p.fragment->0.len() == 0 ==> tells(
            components_text(p),
            "hash"@,
            json_quoted(Seq::empty()),
        ),
        p.fragment is Some && p.fragment->0.len() > 0 ==> tells(
            components_text(p),
            "hash"@,
            json_quoted("#"@ + p.fragment->0),
        ),
        p.query is None || p.query->0.len() == 0 ==> tells(
            components_text(p),
            "search"@,
            json_quoted(Seq::empty()),
        ),
        p.query is Some && p.query->0.len() > 0 ==> tells(
            components_text(p),
            "search"@,
            json_quoted("?"@ + p.query->0),
        ),
        p.hostname is Some ==> tells(components_text(p), "hostname"@, json_quoted(p.hostname->0)),
        p.hostname is None ==> tells(components_text(p), "hostname"@, json_quoted(Seq::empty())),
        p.hostname is Some && p.port is None ==> tells(
            components_text(p),
            "host"@,
            json_quoted(p.hostname->0),
        ),
        p.hostname is Some && p.hostname->0.len() > 0 && p.port is Some ==> tells(
            components_text(p),
            "host"@,
            json_quoted(p.hostname->0 + ":"@ + decimal(p.port->0 as nat)),
        ),
        p.port is Some ==> tells(
            components_text(p),
            "port"@,
            json_quoted(decimal(p.port->0 as nat)),
        ),
        p.port is None ==> tells(components_text(p), "port"@, json_quoted(Seq::empty())),
        tells(components_text(p), "href"@, json_quoted(p.href)),
        tells(components_text(p), "ok"@, "true"@),
        tells(components_text(p), "origin"@, json_quoted(origin_text(p))),
        p.password is Some ==> tells(components_text(p), "password"@, json_quoted(p.password->0)),
        p.password is None ==> tells(components_text(p), "password"@, json_quoted(Seq::empty())),
        tells(components_text(p), "pathname"@, json_quoted(p.path)),
        tells(components_text(p), "protocol"@, json_quoted(p.scheme + ":"@)),
        tells(components_text(p), "username"@, json_quoted(p.username)),
{
    let hostname: Seq<char> = text_or(p.hostname);
    let port: Seq<char> = port_text(p.port);
    let items: Seq<Seq<char>> = seq![
        json_member_text("hash"@, json_quoted(marked("#"@, p.fragment))),
        json_member_text("host"@, json_quoted(host_with_port(hostname, port))),
        json_member_text("hostname"@, json_quoted(hostname)),
        json_member_text("href"@, json_quoted(p.href)),
        json_member_text("ok"@, bool_text(true)),
        json_member_text("origin"@, json_quoted(origin_text(p))),
        json_member_text("password"@, json_quoted(text_or(p.password))),
        json_member_text("pathname"@, json_quoted(p.path)),
        json_member_text("port"@, json_quoted(port)),
        json_member_text("protocol"@, json_quoted(p.scheme + ":"@)),
        json_member_text("search"@, json_quoted(marked("?"@, p.query))),
        json_member_text("username"@, json_quoted(p.username)),
    ];
    assert(components_text(p) == json_object_text(items));
    objects_tell_their_members(items, 0, "hash"@, json_quoted(marked("#"@, p.fragment)));
    objects_tell_their_members(items, 1, "host"@, json_quoted(host_with_port(hostname, port)));
    objects_tell_their_members(items, 2, "hostname"@, json_quoted(hostname));
    objects_tell_their_members(items, 3, "href"@, json_quoted(p.href));
    objects_tell_their_members(items, 4, "ok"@, bool_text(true));
    objects_tell_their_members(items, 5, "origin"@, json_quoted(origin_text(p)));
    objects_tell_their_members(items, 6, "password"@, json_quoted(text_or(p.password)));
    objects_tell_their_members(items, 7, "pathname"@, json_quoted(p.path));
    objects_tell_their_members(items, 8, "port"@, json_quoted(port));
    objects_tell_their_members(items, 9, "protocol"@, json_quoted(p.scheme + ":"@));
    objects_tell_their_members(items, 10, "search"@, json_quoted(marked("?"@, p.query)));
    objects_tell_their_members(items, 11, "username"@, json_quoted(p.username));
    if p.hostname is Some && p.hostname->0.len() == 0 {
        assert(p.hostname->0 =~= Seq::<char>::empty());
    }
}

/// An origin is the scheme, the host and the port where it is not the scheme's
/// own. Only URLs of the web have one; the origin of any other is opaque, and
/// a `blob` URL has that of the URL in its path.
pub proof fn origins_are_scheme_host_and_port(c: ComponentsView, host: Seq<char>, n: nat)
    requires
        host.len() > 0,
        c.hostname == Some(host),
        parsed_components(c.href) == Some(c),
    ensures
        (c.scheme == "http"@ || c.scheme == "https"@ || c.scheme == "ws"@ || c.scheme == "wss"@
            || c.scheme == "ftp"@) && c.port is None ==> origin_text(c) == c.scheme + "://"@ + host,
        (c.scheme == "http"@ || c.scheme == "https"@ || c.scheme == "ws"@ || c.scheme == "wss"@
            || c.scheme == "ftp"@) && c.port is Some
            ==> origin_text(c) == c.scheme + "://"@ + (host + ":"@ + decimal(c.port->0 as nat)),
        c.scheme != "http"@ && c.scheme != "https"@ && c.scheme != "ws"@ && c.scheme != "wss"@
            && c.scheme != "ftp"@ && c.scheme != "blob"@ ==> origin_text(c) == "null"@,
        c.scheme == "blob"@ && n > 0 ==> held_origin(c.href, n) == held_origin(
            c.path,
            (n - 1) as nat,
        ),
        c.scheme == "blob"@ ==> origin_text(c) == held_origin(c.path, c.path.len()),
        origin_of(c.href) == Some(origin_text(c)),
{
    reveal_strlit("blob");
    reveal_strlit("http");
    reveal_strlit("https");
    reveal_strlit("ws");
    reveal_strlit("wss");
    reveal_strlit("ftp");
    assert("blob"@.len() == 4 && "http"@.len() == 4 && "https"@.len() == 5 && "ws"@.len() == 2
        && "wss"@.len() == 3 && "ftp"@.len() == 3);
    assert("blob"@[0] == 'b' && "http"@[0] == 'h');
}

/// A parsed URL has the serialisation, the scheme and the origin of its
/// components, and the host that was read; a text that is no URL has none.
pub proof fn parsed_urls_have_their_parts(
    c: ComponentsView,
    host: HostKind<Seq<char>>,
)
    ensures
        parts_of(Some(c), Some(host)) matches Some(p) && p.href == c.href && p.scheme == c.scheme
            && p.host == host && p.origin == origin_text(c),
        parts_of(None, Some(host)) is None,
        parts_of(Some(c), None) is None,
{
}

/// The current host is accepted as the domain in any case of its letters, and
/// so is a parent of it that is no shorter than the registrable domain. An
/// address has no parent, and what is no parent is refused.
pub proof fn parents_are_accepted_as_domains(
    current: Seq<char>,
    current_is_ip: bool,
    ipv4: bool,
    text: Seq<char>,
    registrable: Option<Seq<char>>,
)
    ensures
        lowered(text) == lowered(current) ==> domain_choice(
            current,
            current_is_ip,
            Some((ipv4, text)),
            registrable,
        ) == lowered(current),
        (exists|a: Seq<char>| #[trigger] (a + ("."@ + lowered(text))) == lowered(current))
            && !current_is_ip && !ipv4 && registrable is Some && byte_length(registrable->0)
            <= byte_length(lowered(text)) ==> domain_choice(
            current,
            current_is_ip,
            Some((ipv4, text)),
            registrable,
        ) == lowered(text),
        lowered(text) != lowered(current) && (current_is_ip || ipv4 || registrable is None
            || byte_length(lowered(text)) < byte_length(registrable->0) || !exists|a: Seq<char>|
            #[trigger] (a + ("."@ + lowered(text))) == lowered(current)) ==> domain_choice(
            current,
            current_is_ip,
            Some((ipv4, text)),
            registrable,
        ).len() == 0,
        domain_choice(current, current_is_ip, None, registrable).len() == 0,
{
    let host: Seq<char> = lowered(current);
    let suffix: Seq<char> = "."@ + lowered(text);
    if has_suffix(host, suffix) {
        let a: Seq<char> = host.take(host.len() - suffix.len());
        assert(a + suffix =~= host);
    }
    if exists|a: Seq<char>| #[trigger] (a + suffix) == host {
        let a: Seq<char> = choose|a: Seq<char>| #[trigger] (a + suffix) == host;
        assert((a + suffix).skip(host.len() - suffix.len()) =~= suffix);
        assert(has_suffix(host, suffix));
    }
}

/// A URL that is parsed or joined has the serialisation, the scheme and the
/// origin of the components that were read from the same texts, and their host;
/// a text that has no components is no URL.
pub proof fn urls_have_the_parts_that_were_read(base: Seq<char>, href: Seq<char>)
    ensures
        parsed_url(href) matches Some(p) ==> (parsed_components(href) matches Some(c) && p.href
            == c.href && p.scheme == c.scheme && p.origin == origin_text(c)) && parsed_host_kind(
            href,
        ) == Some(p.host),
        parsed_components(href) is None ==> parsed_url(href) is None,
        joined_url(base, href) matches Some(p) ==> (joined_components(base, href) matches Some(c)
            && p.href == c.href && p.scheme == c.scheme && p.origin == origin_text(c))
            && joined_host_kind(base, href) == Some(p.host),
        joined_components(base, href) is None ==> joined_url(base, href) is None,
{
}

/// A text is read as a URL where its serialisation has room, and joined where
/// that of the result has; a text that is too long is none.
pub proof fn urls_are_read_where_they_fit(base: Seq<char>, href: Seq<char>)
    ensures
        url_fits(href) ==> parsed_components(href) == components_read(href) && parsed_host_kind(
            href,
        ) == host_kind_read(href) && parse_outcome(href) == outcome_read(href),
        !url_fits(href) ==> parsed_components(href) is None && parsed_host_kind(href) is None
            && parse_outcome(href) == Err::<Seq<char>, Seq<char>>(
            "URLs more than 4 GB are not supported"@,
        ),
        join_fits(base, href) ==> joined_components(base, href) == components_joined(base, href)
            && joined_host_kind(base, href) == host_kind_joined(base, href),
        !join_fits(base, href) ==> joined_components(base, href) is None && joined_host_kind(
            base,
            href,
        ) is None,
{
}

} // verus!
