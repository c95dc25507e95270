//! Module scripts: what is fetched, how it is named, and what loading and
//! evaluating it comes to.

use vstd::prelude::*;

use crate::fetch::headers::{get_header, lookup, pairs, put, put_header, HeaderView};
use crate::number::{decimal, decimal_round_trip, write_decimal};
use crate::remote::run_result;
use crate::state::Headers;
use crate::text::{
    has_prefix, same_text, starts_with, strip_prefix, trim, trimmed, without_prefix,
};
use crate::urls::{
    opt_parts, outcome_view, parse_outcome, parse_parts, parsed_url, try_parse, UrlParts,
};

verus! {

/// A module that is fetched and not evaluated yet.
pub struct PreparedModule {
    pub specifier: String,
    pub source: String,
    pub description: String,
}

/// A module over scalar sequences.
pub struct PreparedView {
    pub specifier: Seq<char>,
    pub source: Seq<char>,
    pub description: Seq<char>,
}

impl PreparedModule {
    /// The module over scalar sequences.
    pub open spec fn view(self) -> PreparedView {
        PreparedView {
            specifier: self.specifier@,
            source: self.source@,
            description: self.description@,
        }
    }

    /// A module that was fetched from a URL.
    pub fn prepare_module(url: &str, source: String) -> (r: Self)
        ensures
            r@ == (PreparedView {
                specifier: url@,
                source: source@,
                description: "Module "@ + url@,
            }),
            r.specifier@ == url@ && r.source@ == source@,
    {
        let mut description: String = "Module ".to_owned();
        description.append(url);
        PreparedModule { specifier: url.to_owned(), source, description }
    }

    /// A module that stands in the page.
    pub fn prepare_inline_module(code: &str, base_url: &str) -> (r: Self)
        ensures
            r@ == (PreparedView {
                specifier: base_url@,
                source: code@,
                description: "Inline module"@,
            }),
            r.specifier@ == base_url@ && r.source@ == code@,
    {
        PreparedModule {
            specifier: base_url.to_owned(),
            source: code.to_owned(),
            description: "Inline module".to_owned(),
        }
    }

    /// Whether the module stands in the page.
    pub fn is_inline(&self) -> (r: bool)
        ensures
            r == (self@.description == "Inline module"@),
    {
        same_text(self.description.as_str(), "Inline module")
    }
}

/// The name under which a module is declared: one in the page gets a number of
/// its own.
pub open spec fn declared_name(name: Seq<char>, inline: bool, id: u64) -> Seq<char> {
    if inline {
        name + "#inline-"@ + decimal(id as nat)
    } else {
        name
    }
}

/// The number after `n`.
pub open spec fn following(n: u64) -> u64 {
    if n == u64::MAX {
        0
    } else {
        (n + 1) as u64
    }
}

/// Names a module; `sequence` numbers those that stand in the page.
pub fn name_module(sequence: &mut u64, name: &str, inline: bool) -> (r: String)
    ensures
        r@ == declared_name(name@, inline, following(*old(sequence))),
        *final(sequence) == (if inline {
            following(*old(sequence))
        } else {
            *old(sequence)
        }),
        !inline ==> r@ == name@ && *final(sequence) == *old(sequence),
        inline && *old(sequence) < u64::MAX ==> *final(sequence) == *old(sequence) + 1,
{
    if inline {
        let id: u64 = if *sequence == u64::MAX {
            0
        } else {
            *sequence + 1
        };
        *sequence = id;
        let digits: String = write_decimal(id);
        let mut s: String = name.to_owned();
        s.append("#inline-");
        s.append(digits.as_str());
        s
    } else {
        name.to_owned()
    }
}

/// Modules that stand in the page never share a name: different numbers make
/// different names.
pub proof fn inline_modules_have_their_own_names(name: Seq<char>, a: u64, b: u64)
    requires
        declared_name(name, true, a) == declared_name(name, true, b),
    ensures
        a == b,
{
    let head: Seq<char> = name + "#inline-"@;
    let n: int = head.len() as int;
    let x: Seq<char> = decimal(a as nat);
    let y: Seq<char> = decimal(b as nat);
    assert(declared_name(name, true, a).skip(n) =~= x);
    assert(declared_name(name, true, b).skip(n) =~= y);
    decimal_round_trip(a as nat, u64::MAX as nat);
    decimal_round_trip(b as nat, u64::MAX as nat);
}

/// `s` without the `p` that it begins with, as often as it does.
pub open spec fn without_prefixes(s: Seq<char>, p: Seq<char>) -> Seq<char>
    decreases s.len(),
{
    match without_prefix(s, p) {
        Some(rest) => if rest.len() < s.len() {
            without_prefixes(rest, p)
        } else {
            s
        },
        None => s,
    }
}

fn strip_prefixes(s: &str, p: &str) -> (r: String)
    requires
        p@.len() > 0,
    ensures
        r@ == without_prefixes(s@, p@),
{
    let mut rest: String = s.to_owned();
    loop
        invariant
            p@.len() > 0,
            without_prefixes(rest@, p@) == without_prefixes(s@, p@),
        decreases rest@.len(),
    {
        match strip_prefix(rest.as_str(), p) {
            Some(t) => {
                rest = t;
            },
            None => {
                return rest;
            },
        }
    }
}

/// What the evaluation of a module comes to: `fired` tells whether the
/// watchdog ended it.
pub open spec fn module_outcome(
    description: Seq<char>,
    budget_ms: u64,
    fired: bool,
    result: Result<(), Seq<char>>,
) -> Result<(), Seq<char>> {
    let timed_out: Result<(), Seq<char>> = Err(
        description + " evaluation timed out after "@ + decimal(budget_ms as nat) + "ms"@,
    );
    if fired {
        timed_out
    } else {
        match result {
            Ok(u) => Ok(u),
            Err(e) => if e == "timeout"@ {
                timed_out
            } else if has_prefix(e, "load:"@) {
                Err(description + " load error: "@ + trimmed(without_prefixes(e, "load:"@)))
            } else if has_prefix(e, "eval:"@) {
                Err(description + " eval error: "@ + trimmed(without_prefixes(e, "eval:"@)))
            } else {
                Err(description + ": "@ + e)
            },
        }
    }
}

fn report(description: String, middle: &str, e: &str) -> (r: Result<(), String>)
    ensures
        run_result(r) == Err::<(), Seq<char>>(description@ + middle@ + e@),
{
    let mut message: String = description;
    message.append(middle);
    message.append(e);
    Err(message)
}

/// What the evaluation of a module comes to.
pub fn evaluate_prepared_module(
    prepared: PreparedModule,
    budget_ms: u64,
    fired: bool,
    result: Result<(), String>,
) -> (r: Result<(), String>)
    ensures
        run_result(r) == module_outcome(
            prepared@.description,
            budget_ms,
            fired,
            run_result(result),
        ),
{
    let timeout: bool = match &result {
        Ok(_) => false,
        Err(e) => same_text(e.as_str(), "timeout"),
    };
    if fired || timeout {
        let digits: String = write_decimal(budget_ms);
        let mut message: String = prepared.description;
        message.append(" evaluation timed out after ");
        message.append(digits.as_str());
        message.append("ms");
        return Err(message);
    }
    proof {
        reveal_strlit("load:");
        reveal_strlit("eval:");
    }
    match result {
        Ok(_) => Ok(()),
        Err(e) => {
            if starts_with(e.as_str(), "load:") {
                let rest: String = strip_prefixes(e.as_str(), "load:");
                let cause: String = trim(rest.as_str());
                report(prepared.description, " load error: ", cause.as_str())
            } else if starts_with(e.as_str(), "eval:") {
                let rest: String = strip_prefixes(e.as_str(), "eval:");
                let cause: String = trim(rest.as_str());
                report(prepared.description, " eval error: ", cause.as_str())
            } else {
                report(prepared.description, ": ", e.as_str())
            }
        },
    }
}

/// The message for a module whose budget is used up before it is evaluated.
pub fn budget_exhausted(url: Option<&str>, budget_ms: u64) -> (r: String)
    ensures
        r@ == (match url {
            Some(u) => "Module "@ + u@,
            None => "Inline module"@,
        }) + " exhausted its "@ + decimal(budget_ms as nat) + "ms load+evaluation budget"@,
{
    let digits: String = write_decimal(budget_ms);
    let mut message: String = match url {
        Some(u) => {
            let mut m: String = "Module ".to_owned();
            m.append(u);
            m
        },
        None => "Inline module".to_owned(),
    };
    message.append(" exhausted its ");
    message.append(digits.as_str());
    message.append("ms load+evaluation budget");
    message
}

/// What the network said of a module.
pub enum ModuleReply {
    /// The final URL and the source, or an error.
    Answered(Result<(String, String), String>),
    /// Nothing in time.
    TimedOut,
    /// Nothing, and nothing will come.
    Closed,
}

/// The source of a module over scalar sequences.
pub open spec fn source_result(r: Result<String, String>) -> Result<Seq<char>, Seq<char>> {
    match r {
        Ok(s) => Ok(s@),
        Err(e) => Err(e@),
    }
}

/// The source that a reply brings.
pub open spec fn reply_source(url: Seq<char>, budget_ms: u64, reply: ModuleReply) -> Result<
    Seq<char>,
    Seq<char>,
> {
    match reply {
        ModuleReply::Answered(Ok(found)) => Ok(found.1@),
        ModuleReply::Answered(Err(e)) => Err(e@),
        ModuleReply::TimedOut => Err(
            "Module graph load timed out after "@ + decimal(budget_ms as nat) + "ms: "@ + url,
        ),
        ModuleReply::Closed => Err("module fetch reply closed"@),
    }
}

/// The source that a reply of the network brings.
pub fn request_module_source(url: &str, budget_ms: u64, reply: ModuleReply) -> (r: Result<
    String,
    String,
>)
    ensures
        source_result(r) == reply_source(url@, budget_ms, reply),
{
    match reply {
        ModuleReply::Answered(Ok((_, source))) => Ok(source),
        ModuleReply::Answered(Err(e)) => Err(e),
        ModuleReply::TimedOut => {
            let digits: String = write_decimal(budget_ms);
            let mut message: String = "Module graph load timed out after ".to_owned();
            message.append(digits.as_str());
            message.append("ms: ");
            message.append(url);
            Err(message)
        },
        ModuleReply::Closed => Err("module fetch reply closed".to_owned()),
    }
}

/// A module that is to be fetched: where it is, and for whom.
pub struct ModuleRequest<S> {
    pub url: S,
    pub document_url: S,
    pub referrer: S,
}

impl ModuleRequest<String> {
    /// The request over scalar sequences.
    pub open spec fn view(self) -> ModuleRequest<Seq<char>> {
        ModuleRequest {
            url: self.url@,
            document_url: self.document_url@,
            referrer: self.referrer@,
        }
    }
}

/// The result of checking a request over scalar sequences.
pub open spec fn request_result(r: Result<ModuleRequest<String>, String>) -> Result<
    ModuleRequest<Seq<char>>,
    Seq<char>,
> {
    match r {
        Ok(q) => Ok(q@),
        Err(e) => Err(e@),
    }
}

/// The request that goes out, given what its URLs parse to: all three have to
/// be URLs.
pub open spec fn checked_request(
    url: Seq<char>,
    parsed: Option<UrlParts<Seq<char>>>,
    document: Option<UrlParts<Seq<char>>>,
    referrer: Option<UrlParts<Seq<char>>>,
) -> Result<ModuleRequest<Seq<char>>, Seq<char>> {
    match (parsed, document, referrer) {
        (Some(u), Some(d), Some(r)) => Ok(
            ModuleRequest { url: u.href, document_url: d.href, referrer: r.href },
        ),
        _ => Err("Invalid module URL "@ + url),
    }
}

/// The request that goes out, given what its URLs parse to.
pub fn check_request(
    url: &str,
    parsed: Option<UrlParts<String>>,
    document: Option<UrlParts<String>>,
    referrer: Option<UrlParts<String>>,
) -> (r: Result<ModuleRequest<String>, String>)
    ensures
        request_result(r) == checked_request(
            url@,
            opt_parts(parsed),
            opt_parts(document),
            opt_parts(referrer),
        ),
{
    match (parsed, document, referrer) {
        (Some(u), Some(d), Some(f)) => Ok(
            ModuleRequest { url: u.href, document_url: d.href, referrer: f.href },
        ),
        _ => {
            let mut message: String = "Invalid module URL ".to_owned();
            message.append(url);
            Err(message)
        },
    }
}

/// The request that goes out for a module.
pub fn module_request(url: &str, document_url: &str, referrer: &str) -> (r: Result<
    ModuleRequest<String>,
    String,
>)
    ensures
        request_result(r) == checked_request(
            url@,
            parsed_url(url@),
            parsed_url(document_url@),
            parsed_url(referrer@),
        ),
{
    check_request(url, parse_parts(url), parse_parts(document_url), parse_parts(referrer))
}

/// The URL of a module in its serialised form, or the message for a text that
/// is no URL.
pub fn module_target(url: &str) -> (r: Result<String, String>)
    ensures
        match parse_outcome(url@) {
            Ok(href) => outcome_view(r) == Ok::<Seq<char>, Seq<char>>(href),
            Err(cause) => outcome_view(r) == Err::<Seq<char>, Seq<char>>(
                "Invalid module URL "@ + url@ + ": "@ + cause,
            ),
        },
{
    match try_parse(url) {
        Ok(href) => Ok(href),
        Err(cause) => {
            let mut message: String = "Invalid module URL ".to_owned();
            message.append(url);
            message.append(": ");
            message.append(cause.as_str());
            Err(message)
        },
    }
}

/// Where modules are loaded from: the document that relative names go by, and
/// the proxy that requests go through.
pub struct ModuleLoader {
    pub base_url: String,
    pub proxy_url: Option<String>,
}

impl ModuleLoader {
    /// A loader that goes to the network directly.
    pub fn new(base_url: &str) -> (r: Self)
        ensures
            r.base_url@ == base_url@,
            r.proxy_url is None,
    {
        Self::with_proxy(base_url, None)
    }

    /// A loader that goes through a proxy, where one is given.
    pub fn with_proxy(base_url: &str, proxy_url: Option<String>) -> (r: Self)
        ensures
            r.base_url@ == base_url@,
            r.proxy_url == proxy_url,
    {
        ModuleLoader { base_url: base_url.to_owned(), proxy_url }
    }
}

/// Who asked for which module.
pub struct Referrers {
    pub entries: Headers,
}

impl Referrers {
    /// Nobody yet.
    pub fn new() -> (r: Self)
        ensures
            pairs(r.entries@) == Seq::<(Seq<char>, Seq<char>)>::empty(),
    {
        let entries: Headers = Vec::new();
        assert(pairs(entries@) =~= Seq::<(Seq<char>, Seq<char>)>::empty());
        Referrers { entries }
    }

    /// Notes that `base` asked for a module.
    pub fn note(&mut self, resolved: &str, base: &str)
        ensures
            pairs(final(self).entries@) == put(pairs(old(self).entries@), resolved@, base@),
    {
        put_header(&mut self.entries, resolved, base);
    }

    /// Who asked for a module: the document where nobody is known.
    pub fn load_source(&self, name: &str, document_url: &str) -> (r: String)
        ensures
            r@ == (match lookup(pairs(self.entries@), name@) {
                Some(base) => base,
                None => document_url@,
            }),
    {
        match get_header(&self.entries, name) {
            Some(base) => base,
            None => document_url.to_owned(),
        }
    }
}

/// A module that was asked for last by `base` has it as its referrer.
pub proof fn last_asker_is_the_referrer(entries: HeaderView, resolved: Seq<char>, base: Seq<char>)
    ensures
        lookup(put(entries, resolved, base), resolved) == Some(base),
{
    crate::fetch::headers::put_then_lookup(entries, resolved, base, resolved);
}

/// A text begins with what was stripped from it, as often as it was, and what
/// is left does not begin with it.
pub proof fn prefixes_are_stripped_off(s: Seq<char>, p: Seq<char>)
    requires
        p.len() > 0,
    ensures
        !has_prefix(without_prefixes(s, p), p),
        without_prefixes(p + s, p) == without_prefixes(s, p),
        !has_prefix(s, p) ==> without_prefixes(s, p) == s,
    decreases s.len(),
{
    assert((p + s).subrange(0, p.len() as int) =~= p);
    assert((p + s).skip(p.len() as int) =~= s);
    match without_prefix(s, p) {
        Some(rest) => {
            prefixes_are_stripped_off(rest, p);
        },
        None => {},
    }
}

proof fn phases_differ(cause: Seq<char>)
    ensures
        "load:"@ != "eval:"@,
        "load:"@.len() == 5 && "eval:"@.len() == 5,
        !has_prefix("eval:"@ + cause, "load:"@),
        "load:"@ + cause != "timeout"@ && "eval:"@ + cause != "timeout"@,
        !has_prefix("timeout"@, "load:"@) && !has_prefix("timeout"@, "eval:"@),
{
    reveal_strlit("load:");
    reveal_strlit("eval:");
    reveal_strlit("timeout");
    assert("load:"@[0] == 'l' && "eval:"@[0] == 'e' && "timeout"@[0] == 't');
    assert(("eval:"@ + cause).subrange(0, 5)[0] == 'e');
    assert(("load:"@ + cause)[0] == 'l');
    assert(("eval:"@ + cause)[0] == 'e');
    assert("timeout"@.subrange(0, 5)[0] == 't');
}

/// A module is evaluated exactly where its run succeeded and the watchdog did
/// not end it. Every error is told behind what the module is; a timeout tells
/// the budget, whether the watchdog ended the run or the run says so.
pub proof fn module_errors_name_the_module(
    description: Seq<char>,
    budget_ms: u64,
    fired: bool,
    result: Result<(), Seq<char>>,
)
    ensures
        module_outcome(description, budget_ms, fired, result) is Ok <==> !fired && result is Ok,
        module_outcome(description, budget_ms, fired, result) matches Err(e) ==> exists|
            rest: Seq<char>,
        | #[trigger] (description + rest) == e,
        module_outcome(description, budget_ms, true, result) == Err::<(), Seq<char>>(
            description + " evaluation timed out after "@ + decimal(budget_ms as nat) + "ms"@,
        ),
        module_outcome(description, budget_ms, fired, Err("timeout"@)) == module_outcome(
            description,
            budget_ms,
            true,
            result,
        ),
{
    match module_outcome(description, budget_ms, fired, result) {
        Ok(_) => {},
        Err(e) => {
            assert(description + e.skip(description.len() as int) =~= e);
        },
    }
}

/// The error of a run tells the phase that it comes from, behind what the
/// module is and before its cause; an error of no phase is told as it is.
pub proof fn module_errors_tell_their_phase(
    description: Seq<char>,
    budget_ms: u64,
    cause: Seq<char>,
)
    ensures
        !has_prefix(cause, "load:"@) ==> module_outcome(
            description,
            budget_ms,
            false,
            Err("load:"@ + cause),
        ) == Err::<(), Seq<char>>(description + " load error: "@ + trimmed(cause)),
        !has_prefix(cause, "eval:"@) ==> module_outcome(
            description,
            budget_ms,
            false,
            Err("eval:"@ + cause),
        ) == Err::<(), Seq<char>>(description + " eval error: "@ + trimmed(cause)),
        cause != "timeout"@ && !has_prefix(cause, "load:"@) && !has_prefix(cause, "eval:"@)
            ==> module_outcome(description, budget_ms, false, Err(cause)) == Err::<(), Seq<char>>(
            description + ": "@ + cause,
        ),
{
    phases_differ(cause);
    assert(("load:"@ + cause).subrange(0, 5) =~= "load:"@);
    assert(("eval:"@ + cause).subrange(0, 5) =~= "eval:"@);
    prefixes_are_stripped_off(cause, "load:"@);
    prefixes_are_stripped_off(cause, "eval:"@);
}

/// A module that was fetched is declared under its own name; one in the page
/// under that of its document and its number. The numbers count up.
pub proof fn modules_are_declared_under_their_names(name: Seq<char>, n: u64)
    ensures
        declared_name(name, false, n) == name,
        declared_name(name, true, n) == name + "#inline-"@ + decimal(n as nat),
        n < u64::MAX ==> following(n) == n + 1,
        following(u64::MAX) == 0,
{
}

/// The source of a module is the one that the network answered with, wherever
/// it came from; an error is told as it is, and so is a reply that is missing.
pub proof fn module_sources_are_those_that_came(
    url: Seq<char>,
    budget_ms: u64,
    from: String,
    source: String,
    error: String,
)
    ensures
        reply_source(url, budget_ms, ModuleReply::Answered(Ok((from, source)))) == Ok::<
            Seq<char>,
            Seq<char>,
        >(source@),
        reply_source(url, budget_ms, ModuleReply::Answered(Err(error))) == Err::<
            Seq<char>,
            Seq<char>,
        >(error@),
        reply_source(url, budget_ms, ModuleReply::TimedOut) == Err::<Seq<char>, Seq<char>>(
            "Module graph load timed out after "@ + decimal(budget_ms as nat) + "ms: "@ + url,
        ),
        reply_source(url, budget_ms, ModuleReply::Closed) == Err::<Seq<char>, Seq<char>>(
            "module fetch reply closed"@,
        ),
{
}

/// A request for a module goes to the module's URL, for the document and with
/// the referrer that were given, each as it is serialised; where one of them is
/// no URL the error names the module.
pub proof fn module_requests_go_to_their_urls(
    url: Seq<char>,
    u: UrlParts<Seq<char>>,
    d: UrlParts<Seq<char>>,
    f: UrlParts<Seq<char>>,
)
    ensures
        checked_request(url, Some(u), Some(d), Some(f)) matches Ok(q) && q.url == u.href
            && q.document_url == d.href && q.referrer == f.href,
        checked_request(url, None, Some(d), Some(f)) == Err::<ModuleRequest<Seq<char>>, Seq<char>>(
            "Invalid module URL "@ + url,
        ),
        checked_request(url, Some(u), None, Some(f)) is Err,
        checked_request(url, Some(u), Some(d), None) is Err,
{
}

} // verus!
