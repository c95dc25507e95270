//! The scripts that the page's engine runs for the automation side.

use vstd::prelude::*;

use crate::dom::impact::is_empty;
use crate::json::{bool_text, json_quoted, json_string, write_bool};
use crate::text::{
    has_prefix, replace_char, replaced, starts_with, trim, trim_statement, trimmed,
    trimmed_statement,
};

verus! {

/// The expression that reads a kept object.
pub open spec fn object_expression_text(oid: Seq<char>) -> Seq<char> {
    "globalThis.__tinybrowser_objects['"@
        + oid
        + "']"@
}

/// The expression that reads a kept object.
pub fn object_expression(oid: &str) -> (r: String)
    ensures
        r@ == object_expression_text(oid@),
{
    let mut s: String = "globalThis.__tinybrowser_objects['".to_owned();
    s.append(oid);
    s.append("']");
    s
}

/// The expression that describes a variable as JSON.
pub open spec fn meta_extract_js_text(var_name: Seq<char>) -> Seq<char> {
    "(function(v) {\n                var t = typeof v;\n                var st = null, cn = '', desc = '';\n                if (v === null) { t = 'object'; st = 'null'; }\n                else if (v === undefined) { t = 'undefined'; }\n                else if (Array.isArray(v)) {\n                    st = 'array'; cn = 'Array';\n                    desc = 'Array(' + v.length + ')';\n                }\n                else if (t === 'object' && typeof v._nid === 'number') {\n                    st = 'node';\n                    cn = v.constructor ? v.constructor.name : 'Node';\n                    if (v.nodeType === 9) cn = 'HTMLDocument';\n                    else if (v.nodeType === 1) cn = 'HTML' + (v.tagName || 'Element').charAt(0) + (v.tagName || 'Element').slice(1).toLowerCase() + 'Element';\n                    desc = v.tagName ? v.tagName.toLowerCase() : (v.nodeName || 'node');\n                }\n                else if (t === 'function') {\n                    cn = 'Function';\n                    desc = v.name ? 'function ' + v.name + '()' : 'function()';\n                }\n                else if (t === 'object') {\n                    cn = (v.constructor && v.constructor.name) || 'Object';\n                    desc = cn;\n                }\n                else { desc = String(v); }\n                return JSON.stringify({type:t,subtype:st,className:cn,description:desc});\n            })("@
        + var_name
        + ")"@
}

/// The expression that describes a variable as JSON.
pub fn meta_extract_js(var_name: &str) -> (r: String)
    ensures
        r@ == meta_extract_js_text(var_name@),
{
    let mut s: String = "(function(v) {\n                var t = typeof v;\n                var st = null, cn = '', desc = '';\n                if (v === null) { t = 'object'; st = 'null'; }\n                else if (v === undefined) { t = 'undefined'; }\n                else if (Array.isArray(v)) {\n                    st = 'array'; cn = 'Array';\n                    desc = 'Array(' + v.length + ')';\n                }\n                else if (t === 'object' && typeof v._nid === 'number') {\n                    st = 'node';\n                    cn = v.constructor ? v.constructor.name : 'Node';\n                    if (v.nodeType === 9) cn = 'HTMLDocument';\n                    else if (v.nodeType === 1) cn = 'HTML' + (v.tagName || 'Element').charAt(0) + (v.tagName || 'Element').slice(1).toLowerCase() + 'Element';\n                    desc = v.tagName ? v.tagName.toLowerCase() : (v.nodeName || 'node');\n                }\n                else if (t === 'function') {\n                    cn = 'Function';\n                    desc = v.name ? 'function ' + v.name + '()' : 'function()';\n                }\n                else if (t === 'object') {\n                    cn = (v.constructor && v.constructor.name) || 'Object';\n                    desc = cn;\n                }\n                else { desc = String(v); }\n                return JSON.stringify({type:t,subtype:st,className:cn,description:desc});\n            })(".to_owned();
    s.append(var_name);
    s.append(")");
    s
}

/// The expression that tells whether an awaited script is done.
pub open spec fn done_expression_text(counter: Seq<char>) -> Seq<char> {
    "globalThis.__tinybrowser_done_"@
        + counter
        + " === true"@
}

/// The expression that tells whether an awaited script is done.
pub fn done_expression(counter: &str) -> (r: String)
    ensures
        r@ == done_expression_text(counter@),
{
    let mut s: String = "globalThis.__tinybrowser_done_".to_owned();
    s.append(counter);
    s.append(" === true");
    s
}

/// The expression that reads why a promise was rejected.
pub open spec fn reason_expression_text(oid: Seq<char>) -> Seq<char> {
    "String(globalThis.__tinybrowser_objects['"@
        + oid
        + "'] && (globalThis.__tinybrowser_objects['"@
        + oid
        + "'].message || globalThis.__tinybrowser_objects['"@
        + oid
        + "']))"@
}

/// The expression that reads why a promise was rejected.
pub fn reason_expression(oid: &str) -> (r: String)
    ensures
        r@ == reason_expression_text(oid@),
{
    let mut s: String = "String(globalThis.__tinybrowser_objects['".to_owned();
    s.append(oid);
    s.append("'] && (globalThis.__tinybrowser_objects['");
    s.append(oid);
    s.append("'].message || globalThis.__tinybrowser_objects['");
    s.append(oid);
    s.append("']))");
    s
}

/// The script that awaits an expression, keeps what it gives, and describes it.
pub open spec fn await_script_text(
    expr: Seq<char>,
    oid: Seq<char>,
    meta: Seq<char>,
    error_meta: Seq<char>,
    counter: Seq<char>,
) -> Seq<char> {
    "(async function() {\ntry {\nvar __result = await (\n"@
        + expr
        + "\n);\nglobalThis.__tinybrowser_objects['"@
        + oid
        + "'] = __result;\nglobalThis.__tinybrowser_await_meta = "@
        + meta
        + ";\nglobalThis.__tinybrowser_await_rejected = false;\n} catch(e) {\nglobalThis.__tinybrowser_objects['"@
        + oid
        + "'] = e;\nglobalThis.__tinybrowser_await_meta = "@
        + error_meta
        + ";\nglobalThis.__tinybrowser_await_rejected = true;\n}\nglobalThis.__tinybrowser_done_"@
        + counter
        + " = true;\n})()"@
}

/// The script that awaits an expression.
pub fn await_script(
    expr: &str,
    oid: &str,
    meta: &str,
    error_meta: &str,
    counter: &str,
) -> (r: String)
    ensures
        r@ == await_script_text(expr@, oid@, meta@, error_meta@, counter@),
{
    let mut s: String = "(async function() {\ntry {\nvar __result = await (\n".to_owned();
    s.append(expr);
    s.append("\n);\nglobalThis.__tinybrowser_objects['");
    s.append(oid);
    s.append("'] = __result;\nglobalThis.__tinybrowser_await_meta = ");
    s.append(meta);
    s.append(";\nglobalThis.__tinybrowser_await_rejected = false;\n} catch(e) {\nglobalThis.__tinybrowser_objects['");
    s.append(oid);
    s.append("'] = e;\nglobalThis.__tinybrowser_await_meta = ");
    s.append(error_meta);
    s.append(";\nglobalThis.__tinybrowser_await_rejected = true;\n}\nglobalThis.__tinybrowser_done_");
    s.append(counter);
    s.append(" = true;\n})()");
    s
}

/// The script that evaluates an expression, keeps what it gives, and describes
/// it.
pub open spec fn remote_script_text(expr: Seq<char>, oid: Seq<char>, meta: Seq<char>) -> Seq<char> {
    "(function() {\nvar __result;\ntry { __result = (\n"@
        + expr
        + "\n); } catch(e) { __result = undefined; }\nglobalThis.__tinybrowser_objects['"@
        + oid
        + "'] = __result;\nreturn "@
        + meta
        + ";\n})()"@
}

/// The script that evaluates an expression for a remote object.
pub fn remote_script(expr: &str, oid: &str, meta: &str) -> (r: String)
    ensures
        r@ == remote_script_text(expr@, oid@, meta@),
{
    let mut s: String = "(function() {\nvar __result;\ntry { __result = (\n".to_owned();
    s.append(expr);
    s.append("\n); } catch(e) { __result = undefined; }\nglobalThis.__tinybrowser_objects['");
    s.append(oid);
    s.append("'] = __result;\nreturn ");
    s.append(meta);
    s.append(";\n})()");
    s
}

/// The script that calls a function, awaits and keeps what it gives, and
/// describes it.
pub open spec fn call_await_script_text(
    setup: Seq<char>,
    function: Seq<char>,
    this: Seq<char>,
    args: Seq<char>,
    oid: Seq<char>,
    meta: Seq<char>,
    counter: Seq<char>,
) -> Seq<char> {
    "(async function() {\n"@
        + setup
        + "\nvar __fn = ("@
        + function
        + ");\nvar __this = ("@
        + this
        + ");\nvar __result;\ntry {\n__result = await __fn.call(__this, "@
        + args
        + ");\nglobalThis.__tinybrowser_objects['"@
        + oid
        + "'] = __result;\nglobalThis.__tinybrowser_await_meta = "@
        + meta
        + ";\n} catch(e) {\n__result = e;\nglobalThis.__tinybrowser_objects['"@
        + oid
        + "'] = e;\nglobalThis.__tinybrowser_await_meta = "@
        + meta
        + ";\n} finally {\nglobalThis.__tinybrowser_done_"@
        + counter
        + " = true;\n}\n})()"@
}

/// The script that calls a function and awaits what it gives.
pub fn call_await_script(
    setup: &str,
    function: &str,
    this: &str,
    args: &str,
    oid: &str,
    meta: &str,
    counter: &str,
) -> (r: String)
    ensures
        r@ == call_await_script_text(setup@, function@, this@, args@, oid@, meta@, counter@),
{
    let mut s: String = "(async function() {\n".to_owned();
    s.append(setup);
    s.append("\nvar __fn = (");
    s.append(function);
    s.append(");\nvar __this = (");
    s.append(this);
    s.append(");\nvar __result;\ntry {\n__result = await __fn.call(__this, ");
    s.append(args);
    s.append(");\nglobalThis.__tinybrowser_objects['");
    s.append(oid);
    s.append("'] = __result;\nglobalThis.__tinybrowser_await_meta = ");
    s.append(meta);
    s.append(";\n} catch(e) {\n__result = e;\nglobalThis.__tinybrowser_objects['");
    s.append(oid);
    s.append("'] = e;\nglobalThis.__tinybrowser_await_meta = ");
    s.append(meta);
    s.append(";\n} finally {\nglobalThis.__tinybrowser_done_");
    s.append(counter);
    s.append(" = true;\n}\n})()");
    s
}

/// The script that calls a function and gives its value.
pub open spec fn call_value_script_text(
    setup: Seq<char>,
    function: Seq<char>,
    this: Seq<char>,
    args: Seq<char>,
) -> Seq<char> {
    "(function() {\n"@
        + setup
        + "\nvar __fn = ("@
        + function
        + ");\nvar __this = ("@
        + this
        + ");\nreturn __fn.call(__this, "@
        + args
        + ");\n})()"@
}

/// The script that calls a function and gives its value.
pub fn call_value_script(setup: &str, function: &str, this: &str, args: &str) -> (r: String)
    ensures
        r@ == call_value_script_text(setup@, function@, this@, args@),
{
    let mut s: String = "(function() {\n".to_owned();
    s.append(setup);
    s.append("\nvar __fn = (");
    s.append(function);
    s.append(");\nvar __this = (");
    s.append(this);
    s.append(");\nreturn __fn.call(__this, ");
    s.append(args);
    s.append(");\n})()");
    s
}

/// The script that calls a function, keeps what it gives, and describes it.
pub open spec fn call_remote_script_text(
    setup: Seq<char>,
    function: Seq<char>,
    this: Seq<char>,
    args: Seq<char>,
    oid: Seq<char>,
    meta: Seq<char>,
) -> Seq<char> {
    "(function() {\n"@
        + setup
        + "\nvar __fn = ("@
        + function
        + ");\nvar __this = ("@
        + this
        + ");\nvar __result = __fn.call(__this, "@
        + args
        + ");\nglobalThis.__tinybrowser_objects['"@
        + oid
        + "'] = __result;\nreturn "@
        + meta
        + ";\n})()"@
}

/// The script that calls a function for a remote object.
pub fn call_remote_script(
    setup: &str,
    function: &str,
    this: &str,
    args: &str,
    oid: &str,
    meta: &str,
) -> (r: String)
    ensures
        r@ == call_remote_script_text(setup@, function@, this@, args@, oid@, meta@),
{
    let mut s: String = "(function() {\n".to_owned();
    s.append(setup);
    s.append("\nvar __fn = (");
    s.append(function);
    s.append(");\nvar __this = (");
    s.append(this);
    s.append(");\nvar __result = __fn.call(__this, ");
    s.append(args);
    s.append(");\nglobalThis.__tinybrowser_objects['");
    s.append(oid);
    s.append("'] = __result;\nreturn ");
    s.append(meta);
    s.append(";\n})()");
    s
}

/// The script that keeps what an expression gives.
pub open spec fn store_script_text(oid: Seq<char>, expr: Seq<char>) -> Seq<char> {
    "globalThis.__tinybrowser_objects['"@
        + oid
        + "'] = ("@
        + expr
        + ");"@
}

/// The script that keeps what an expression gives.
pub fn store_script(oid: &str, expr: &str) -> (r: String)
    ensures
        r@ == store_script_text(oid@, expr@),
{
    let mut s: String = "globalThis.__tinybrowser_objects['".to_owned();
    s.append(oid);
    s.append("'] = (");
    s.append(expr);
    s.append(");");
    s
}

/// The script that keeps what an expression gives, and describes it.
pub open spec fn store_meta_script_text(
    expr: Seq<char>,
    oid: Seq<char>,
    meta: Seq<char>,
) -> Seq<char> {
    "(function() {\nvar __result = (\n"@
        + expr
        + "\n);\nglobalThis.__tinybrowser_objects['"@
        + oid
        + "'] = __result;\nreturn "@
        + meta
        + ";\n})()"@
}

/// The script that keeps what an expression gives, and describes it.
pub fn store_meta_script(expr: &str, oid: &str, meta: &str) -> (r: String)
    ensures
        r@ == store_meta_script_text(expr@, oid@, meta@),
{
    let mut s: String = "(function() {\nvar __result = (\n".to_owned();
    s.append(expr);
    s.append("\n);\nglobalThis.__tinybrowser_objects['");
    s.append(oid);
    s.append("'] = __result;\nreturn ");
    s.append(meta);
    s.append(";\n})()");
    s
}

/// The script that lets go of a kept object.
pub open spec fn release_script_text(oid: Seq<char>) -> Seq<char> {
    "delete globalThis.__tinybrowser_objects['"@
        + oid
        + "'];"@
}

/// The script that lets go of a kept object.
pub fn release_script(oid: &str) -> (r: String)
    ensures
        r@ == release_script_text(oid@),
{
    let mut s: String = "delete globalThis.__tinybrowser_objects['".to_owned();
    s.append(oid);
    s.append("'];");
    s
}

/// The expression that reads a node of the page by its number.
pub open spec fn node_expression_text(nid: Seq<char>) -> Seq<char> {
    "(function() { var nid = "@
        + nid
        + "; var cache = globalThis._cache || new Map(); if (cache.has(nid)) return cache.get(nid); return null; })()"@
}

/// The expression that reads a node of the page by its number.
pub fn node_expression(nid: &str) -> (r: String)
    ensures
        r@ == node_expression_text(nid@),
{
    let mut s: String = "(function() { var nid = ".to_owned();
    s.append(nid);
    s.append("; var cache = globalThis._cache || new Map(); if (cache.has(nid)) return cache.get(nid); return null; })()");
    s
}

/// The script that runs statements as a function, `null` where they throw.
pub open spec fn statements_script_text(code: Seq<char>) -> Seq<char> {
    "(function() { try {\n"@
        + code
        + "\n} catch(e) { return null; } })()"@
}

/// The script that runs statements as a function.
pub fn statements_script(code: &str) -> (r: String)
    ensures
        r@ == statements_script_text(code@),
{
    let mut s: String = "(function() { try {\n".to_owned();
    s.append(code);
    s.append("\n} catch(e) { return null; } })()");
    s
}

/// The script that gives the value of an expression, `null` where it throws.
pub open spec fn expression_script_text(code: Seq<char>) -> Seq<char> {
    "(function() { try { return (\n"@
        + code
        + "\n); } catch(e) { return null; } })()"@
}

/// The script that gives the value of an expression.
pub fn expression_script(code: &str) -> (r: String)
    ensures
        r@ == expression_script_text(code@),
{
    let mut s: String = "(function() { try { return (\n".to_owned();
    s.append(code);
    s.append("\n); } catch(e) { return null; } })()");
    s
}

/// The script that gives the JSON form of an expression.
pub open spec fn json_script_text(wrapped: Seq<char>) -> Seq<char> {
    "(function(){ var __v = ("@
        + wrapped
        + "); if (__v === undefined) return \"null\"; var __s = JSON.stringify(__v); return (__s === undefined) ? \"null\" : __s; })()"@
}

/// The script that gives the JSON form of an expression.
pub fn json_script(wrapped: &str) -> (r: String)
    ensures
        r@ == json_script_text(wrapped@),
{
    let mut s: String = "(function(){ var __v = (".to_owned();
    s.append(wrapped);
    s.append("); if (__v === undefined) return \"null\"; var __s = JSON.stringify(__v); return (__s === undefined) ? \"null\" : __s; })()");
    s
}

/// The script that sets the user agent, already escaped.
pub open spec fn user_agent_script_text(ua: Seq<char>) -> Seq<char> {
    "globalThis.__tinybrowser_ua = '"@
        + ua
        + "';"@
}

/// The script that sets the user agent, already escaped.
fn user_agent_script(ua: &str) -> (r: String)
    ensures
        r@ == user_agent_script_text(ua@),
{
    let mut s: String = "globalThis.__tinybrowser_ua = '".to_owned();
    s.append(ua);
    s.append("';");
    s
}

/// The script that sets the platform, already escaped.
pub open spec fn platform_script_text(
    platform: Seq<char>,
    ua_platform: Seq<char>,
    ua_platform_version: Seq<char>,
) -> Seq<char> {
    "globalThis.__tinybrowser_platform='"@
        + platform
        + "';globalThis.__tinybrowser_ua_platform='"@
        + ua_platform
        + "';globalThis.__tinybrowser_ua_platform_version='"@
        + ua_platform_version
        + "';"@
}

/// The script that sets the platform, already escaped.
fn platform_script(platform: &str, ua_platform: &str, ua_platform_version: &str) -> (r: String)
    ensures
        r@ == platform_script_text(platform@, ua_platform@, ua_platform_version@),
{
    let mut s: String = "globalThis.__tinybrowser_platform='".to_owned();
    s.append(platform);
    s.append("';globalThis.__tinybrowser_ua_platform='");
    s.append(ua_platform);
    s.append("';globalThis.__tinybrowser_ua_platform_version='");
    s.append(ua_platform_version);
    s.append("';");
    s
}

/// The script that sets the stealth flag.
pub open spec fn stealth_script_text(flag: Seq<char>) -> Seq<char> {
    "globalThis.__tinybrowser_stealth = "@
        + flag
        + ";"@
}

/// The script that sets the stealth flag.
fn stealth_script(flag: &str) -> (r: String)
    ensures
        r@ == stealth_script_text(flag@),
{
    let mut s: String = "globalThis.__tinybrowser_stealth = ".to_owned();
    s.append(flag);
    s.append(";");
    s
}

/// The expression of a `RangeError`, given its message as JSON.
pub open spec fn range_error_script_text(message: Seq<char>) -> Seq<char> {
    "new RangeError("@
        + message
        + ")"@
}

/// The expression of a `RangeError`, given its message as JSON.
fn range_error_script(message: &str) -> (r: String)
    ensures
        r@ == range_error_script_text(message@),
{
    let mut s: String = "new RangeError(".to_owned();
    s.append(message);
    s.append(")");
    s
}

/// The expression of a `TypeError`, given its message as JSON.
pub open spec fn type_error_script_text(message: Seq<char>) -> Seq<char> {
    "new TypeError("@
        + message
        + ")"@
}

/// The expression of a `TypeError`, given its message as JSON.
fn type_error_script(message: &str) -> (r: String)
    ensures
        r@ == type_error_script_text(message@),
{
    let mut s: String = "new TypeError(".to_owned();
    s.append(message);
    s.append(")");
    s
}

/// The script that stands in for a missing `Intl`, given the time zone as JSON.
pub open spec fn intl_stub_text(tz: Seq<char>) -> Seq<char> {
    "\n                if (typeof Intl === 'undefined' || typeof Intl.DateTimeFormat === 'undefined') {\n                  function DateTimeFormat() {\n                    if (!(this instanceof DateTimeFormat)) return new DateTimeFormat();\n                  }\n                  DateTimeFormat.prototype.resolvedOptions = function() {\n                    return { timeZone: "@
        + tz
        + " };\n                  };\n                  globalThis.Intl = { DateTimeFormat: DateTimeFormat };\n                }\n                "@
}

/// The script that stands in for a missing `Intl`, given the time zone as JSON.
fn intl_stub(tz: &str) -> (r: String)
    ensures
        r@ == intl_stub_text(tz@),
{
    let mut s: String = "\n                if (typeof Intl === 'undefined' || typeof Intl.DateTimeFormat === 'undefined') {\n                  function DateTimeFormat() {\n                    if (!(this instanceof DateTimeFormat)) return new DateTimeFormat();\n                  }\n                  DateTimeFormat.prototype.resolvedOptions = function() {\n                    return { timeZone: ".to_owned();
    s.append(tz);
    s.append(" };\n                  };\n                  globalThis.Intl = { DateTimeFormat: DateTimeFormat };\n                }\n                ");
    s
}

/// A text made of statements, by the word that it begins with.
pub open spec fn is_statements(s: Seq<char>) -> bool {
    ||| has_prefix(s, "var "@)
    ||| has_prefix(s, "let "@)
    ||| has_prefix(s, "const "@)
    ||| has_prefix(s, "if "@)
    ||| has_prefix(s, "for "@)
    ||| has_prefix(s, "while "@)
    ||| has_prefix(s, "return "@)
}

/// The script that gives the value of a text: statements run as a function,
/// anything else is an expression without the semicolons behind it.
pub open spec fn wrapped_text(expression: Seq<char>) -> Seq<char> {
    if is_statements(trimmed(expression)) {
        statements_script_text(expression)
    } else {
        expression_script_text(trimmed_statement(expression))
    }
}

/// The script that gives the value of a text.
pub fn wrap_expression(expression: &str) -> (r: String)
    ensures
        r@ == wrapped_text(expression@),
{
    let t: String = trim(expression);
    let s: &str = t.as_str();
    if starts_with(s, "var ") || starts_with(s, "let ") || starts_with(s, "const ") || starts_with(
        s,
        "if ",
    ) || starts_with(s, "for ") || starts_with(s, "while ") || starts_with(s, "return ") {
        statements_script(expression)
    } else {
        let cleaned: String = trim_statement(expression);
        expression_script(cleaned.as_str())
    }
}

/// The script that an evaluation hands to the engine: it gives the JSON form of
/// the value.
pub fn eval_wrapped(expression: &str) -> (r: String)
    ensures
        r@ == json_script_text(wrapped_text(expression@)),
{
    let wrapped: String = wrap_expression(expression);
    json_script(wrapped.as_str())
}

/// The script that sets the user agent.
pub fn set_user_agent(ua: &str) -> (r: String)
    ensures
        r@ == user_agent_script_text(escaped_agent(ua@)),
{
    let slashes: String = replace_char(ua, '\\', "\\\\");
    let escaped: String = replace_char(slashes.as_str(), '\'', "\\'");
    user_agent_script(escaped.as_str())
}

/// What stands between single quotes in a script, read as a text: a backslash
/// makes the scalar behind it plain, and a bare quote would end the text early.
pub open spec fn quoted_text(s: Seq<char>) -> Option<Seq<char>>
    decreases s.len(),
{
    if s.len() == 0 {
        Some(Seq::empty())
    } else if s[0] == '\\' {
        if s.len() < 2 {
            None
        } else {
            match quoted_text(s.skip(2)) {
                Some(rest) => Some(seq![s[1]] + rest),
                None => None,
            }
        }
    } else if s[0] == '\'' {
        None
    } else {
        match quoted_text(s.skip(1)) {
            Some(rest) => Some(seq![s[0]] + rest),
            None => None,
        }
    }
}

/// The user agent as it stands in its script.
pub open spec fn escaped_agent(ua: Seq<char>) -> Seq<char> {
    replaced(replaced(ua, '\\', "\\\\"@), '\'', "\\'"@)
}

/// A scalar of the user agent as it stands in its script.
spec fn escaped_scalar(x: char) -> Seq<char> {
    if x == '\\' {
        seq!['\\', '\\']
    } else if x == '\'' {
        seq!['\\', '\'']
    } else {
        seq![x]
    }
}

proof fn replaced_push(s: Seq<char>, c: char, w: Seq<char>, x: char)
    ensures
        replaced(s.push(x), c, w) == replaced(s, c, w) + (if x == c {
            w
        } else {
            seq![x]
        }),
{
    assert(s.push(x).drop_last() =~= s);
}

proof fn escaped_agent_push(s: Seq<char>, x: char)
    ensures
        escaped_agent(s.push(x)) == escaped_agent(s) + escaped_scalar(x),
{
    reveal_strlit("\\\\");
    reveal_strlit("\\'");
    let back: Seq<char> = "\\\\"@;
    let quote: Seq<char> = "\\'"@;
    assert(back =~= seq!['\\', '\\']);
    assert(quote =~= seq!['\\', '\'']);
    replaced_push(s, '\\', back, x);
    let t: Seq<char> = replaced(s, '\\', back);
    if x == '\\' {
        assert(t + back =~= t.push('\\').push('\\'));
        replaced_push(t.push('\\'), '\'', quote, '\\');
        replaced_push(t, '\'', quote, '\\');
        assert(escaped_agent(s.push(x)) =~= escaped_agent(s) + seq!['\\', '\\']);
    } else {
        assert(t + seq![x] =~= t.push(x));
        replaced_push(t, '\'', quote, x);
    }
}

proof fn quoted_text_concat(a: Seq<char>, b: Seq<char>)
    requires
        quoted_text(a) is Some,
    ensures
        quoted_text(a + b) == (match quoted_text(b) {
            Some(y) => Some(quoted_text(a)->0 + y),
            None => None,
        }),
    decreases a.len(),
{
    if a.len() == 0 {
        assert(a + b =~= b);
        match quoted_text(b) {
            Some(y) => {
                assert(quoted_text(a)->0 + y =~= y);
            },
            None => {},
        }
    } else {
        let k: int = if a[0] == '\\' {
            2
        } else {
            1
        };
        assert((a + b).skip(k) =~= a.skip(k) + b);
        quoted_text_concat(a.skip(k), b);
        match quoted_text(b) {
            Some(y) => {
                let c: char = a[k - 1];
                let rest: Seq<char> = quoted_text(a.skip(k))->0;
                assert(seq![c] + (rest + y) =~= (seq![c] + rest) + y);
            },
            None => {},
        }
    }
}

/// The page reads the user agent that was set, whatever quotes and backslashes
/// it holds.
pub proof fn user_agent_is_read_back(ua: Seq<char>)
    ensures
        quoted_text(escaped_agent(ua)) == Some(ua),
    decreases ua.len(),
{
    if ua.len() == 0 {
        assert(escaped_agent(ua) =~= Seq::<char>::empty());
        assert(ua =~= Seq::<char>::empty());
    } else {
        let s: Seq<char> = ua.drop_last();
        let x: char = ua.last();
        let piece: Seq<char> = escaped_scalar(x);
        user_agent_is_read_back(s);
        assert(ua =~= s.push(x));
        escaped_agent_push(s, x);
        assert(quoted_text(piece) == Some(seq![x])) by {
            reveal_with_fuel(quoted_text, 2);
            assert(piece.skip(piece.len() as int) =~= Seq::<char>::empty());
            assert(seq![x] + Seq::<char>::empty() =~= seq![x]);
        }
        quoted_text_concat(escaped_agent(s), piece);
        assert(s + seq![x] =~= ua);
    }
}

/// The name under which a script runs.
pub fn script_name(name: &str) -> (r: String)
    ensures
        r@ == (if name@.len() == 0 {
            "eval_script"@
        } else {
            name@
        }),
{
    if is_empty(name) {
        "eval_script".to_owned()
    } else {
        name.to_owned()
    }
}

/// The script that sets the platform.
pub fn set_platform(platform: &str, ua_platform: &str, ua_platform_version: &str) -> (r: String)
    ensures
        r@ == platform_script_text(
            replaced(platform@, '\'', "\\'"@),
            replaced(ua_platform@, '\'', "\\'"@),
            replaced(ua_platform_version@, '\'', "\\'"@),
        ),
{
    let p: String = replace_char(platform, '\'', "\\'");
    let u: String = replace_char(ua_platform, '\'', "\\'");
    let v: String = replace_char(ua_platform_version, '\'', "\\'");
    platform_script(p.as_str(), u.as_str(), v.as_str())
}

/// The script that sets the stealth flag.
pub fn set_stealth(enabled: bool) -> (r: String)
    ensures
        r@ == stealth_script_text(bool_text(enabled)),
{
    let flag: String = write_bool(enabled);
    stealth_script(flag.as_str())
}

/// The expression of a `RangeError`.
pub fn throw_range_error(message: &str) -> (r: String)
    ensures
        r@ == range_error_script_text(json_quoted(message@)),
{
    let json: String = json_string(message);
    range_error_script(json.as_str())
}

/// The expression of a `TypeError`.
pub fn throw_type_error(message: &str) -> (r: String)
    ensures
        r@ == type_error_script_text(json_quoted(message@)),
{
    let json: String = json_string(message);
    type_error_script(json.as_str())
}

/// The time zone that the page sees: the one of the environment, unless it is
/// empty or missing.
pub open spec fn time_zone(setting: Option<Seq<char>>) -> Seq<char> {
    match setting {
        Some(tz) => if tz.len() > 0 {
            tz
        } else {
            "Europe/Berlin"@
        },
        None => "Europe/Berlin"@,
    }
}

/// The script that stands in for a missing `Intl`, given the time zone of the
/// environment.
pub fn load_intl(setting: Option<&str>) -> (r: String)
    ensures
        r@ == intl_stub_text(json_quoted(time_zone(crate::text::opt_str(setting)))),
{
    let json: String = match setting {
        Some(tz) => {
            if is_empty(tz) {
                json_string("Europe/Berlin")
            } else {
                json_string(tz)
            }
        },
        None => json_string("Europe/Berlin"),
    };
    intl_stub(json.as_str())
}

/// The script holds a piece.
pub open spec fn shows(script: Seq<char>, piece: Seq<char>) -> bool {
    exists|a: Seq<char>, b: Seq<char>| #[trigger] (a + piece + b) == script
}

proof fn shown(script: Seq<char>, a: Seq<char>, piece: Seq<char>, b: Seq<char>)
    requires
        script == a + piece + b,
    ensures
        shows(script, piece),
{
    assert(a + piece + b == script);
}

/// A script that keeps a value writes it to the very expression by which it is
/// read, and the one that lets go of it deletes that expression.
#[verifier::spinoff_prover]
#[verifier::rlimit(60)]
pub proof fn values_are_kept_where_they_are_read(
    expr: Seq<char>,
    oid: Seq<char>,
    meta: Seq<char>,
)
    ensures
        store_script_text(oid, expr) == object_expression_text(oid) + " = ("@ + expr + ");"@,
        release_script_text(oid) == "delete "@ + object_expression_text(oid) + ";"@,
        shows(store_meta_script_text(expr, oid, meta), object_expression_text(oid) + " = __result;"@),
        shows(remote_script_text(expr, oid, meta), object_expression_text(oid) + " = __result;"@),
{
    let read: Seq<char> = object_expression_text(oid);
    reveal_strlit("globalThis.__tinybrowser_objects['");
    reveal_strlit("']");
    reveal_strlit(" = (");
    reveal_strlit("'] = (");
    reveal_strlit("delete ");
    reveal_strlit("delete globalThis.__tinybrowser_objects['");
    reveal_strlit("'];");
    reveal_strlit(";");
    assert("'] = ("@ =~= "']"@ + " = ("@);
    assert(store_script_text(oid, expr) =~= read + " = ("@ + expr + ");"@);
    assert("delete globalThis.__tinybrowser_objects['"@ =~= "delete "@
        + "globalThis.__tinybrowser_objects['"@);
    assert("'];"@ =~= "']"@ + ";"@);
    assert(release_script_text(oid) =~= "delete "@ + read + ";"@);
    reveal_strlit(" = __result;");
    reveal_strlit("'] = __result;\nreturn ");
    reveal_strlit("\nreturn ");
    assert("'] = __result;\nreturn "@ =~= "']"@ + " = __result;"@ + "\nreturn "@);
    reveal_strlit("\n);\nglobalThis.__tinybrowser_objects['");
    reveal_strlit("\n);\n");
    assert("\n);\nglobalThis.__tinybrowser_objects['"@ =~= "\n);\n"@
        + "globalThis.__tinybrowser_objects['"@);
    let a: Seq<char> = "(function() {\nvar __result = (\n"@ + expr + "\n);\n"@;
    let b: Seq<char> = "\nreturn "@ + meta + ";\n})()"@;
    assert(store_meta_script_text(expr, oid, meta) =~= a + (read + " = __result;"@) + b);
    shown(store_meta_script_text(expr, oid, meta), a, read + " = __result;"@, b);
    reveal_strlit("\n); } catch(e) { __result = undefined; }\nglobalThis.__tinybrowser_objects['");
    reveal_strlit("\n); } catch(e) { __result = undefined; }\n");
    assert("\n); } catch(e) { __result = undefined; }\nglobalThis.__tinybrowser_objects['"@
        =~= "\n); } catch(e) { __result = undefined; }\n"@ + "globalThis.__tinybrowser_objects['"@);
    let c: Seq<char> = "(function() {\nvar __result;\ntry { __result = (\n"@ + expr
        + "\n); } catch(e) { __result = undefined; }\n"@;
    assert(remote_script_text(expr, oid, meta) =~= c + (read + " = __result;"@) + b);
    shown(remote_script_text(expr, oid, meta), c, read + " = __result;"@, b);
}

/// The scripts that keep a value evaluate the expression as it was given and
/// return its description.
#[verifier::spinoff_prover]
#[verifier::rlimit(60)]
pub proof fn expressions_are_evaluated_as_given(
    expr: Seq<char>,
    oid: Seq<char>,
    meta: Seq<char>,
    error_meta: Seq<char>,
    counter: Seq<char>,
)
    ensures
        shows(remote_script_text(expr, oid, meta), "\ntry { __result = (\n"@ + expr + "\n); }"@),
        shows(remote_script_text(expr, oid, meta), "return "@ + meta + ";\n})()"@),
        shows(store_meta_script_text(expr, oid, meta), "var __result = (\n"@ + expr + "\n);"@),
        shows(store_meta_script_text(expr, oid, meta), "return "@ + meta + ";\n})()"@),
        shows(
            await_script_text(expr, oid, meta, error_meta, counter),
            "var __result = await (\n"@ + expr + "\n);"@,
        ),
{
    let none: Seq<char> = Seq::empty();
    let read: Seq<char> = object_expression_text(oid);
    reveal_strlit("(function() {\nvar __result;\ntry { __result = (\n");
    reveal_strlit("(function() {\nvar __result;");
    reveal_strlit("\ntry { __result = (\n");
    assert("(function() {\nvar __result;\ntry { __result = (\n"@ =~= "(function() {\nvar __result;"@
        + "\ntry { __result = (\n"@);
    reveal_strlit("\n); }");
    reveal_strlit(" catch(e) { __result = undefined; }\nglobalThis.__tinybrowser_objects['");
    reveal_strlit("\n); } catch(e) { __result = undefined; }\nglobalThis.__tinybrowser_objects['");
    assert("\n); } catch(e) { __result = undefined; }\nglobalThis.__tinybrowser_objects['"@
        =~= "\n); }"@ + " catch(e) { __result = undefined; }\nglobalThis.__tinybrowser_objects['"@);
    reveal_strlit("'] = __result;\nreturn ");
    reveal_strlit("'] = __result;\n");
    reveal_strlit("return ");
    assert("'] = __result;\nreturn "@ =~= "'] = __result;\n"@ + "return "@);
    let remote: Seq<char> = remote_script_text(expr, oid, meta);
    let a: Seq<char> = "(function() {\nvar __result;"@;
    let b: Seq<char> = " catch(e) { __result = undefined; }\nglobalThis.__tinybrowser_objects['"@
        + oid + "'] = __result;\nreturn "@ + meta + ";\n})()"@;
    assert(remote =~= a + ("\ntry { __result = (\n"@ + expr + "\n); }"@) + b);
    shown(remote, a, "\ntry { __result = (\n"@ + expr + "\n); }"@, b);
    let c: Seq<char> = "(function() {\nvar __result;\ntry { __result = (\n"@ + expr
        + "\n); } catch(e) { __result = undefined; }\nglobalThis.__tinybrowser_objects['"@ + oid
        + "'] = __result;\n"@;
    assert(remote =~= c + ("return "@ + meta + ";\n})()"@) + none);
    shown(remote, c, "return "@ + meta + ";\n})()"@, none);
    let store: Seq<char> = store_meta_script_text(expr, oid, meta);
    reveal_strlit("(function() {\nvar __result = (\n");
    reveal_strlit("(function() {\n");
    reveal_strlit("var __result = (\n");
    assert("(function() {\nvar __result = (\n"@ =~= "(function() {\n"@ + "var __result = (\n"@);
    reveal_strlit("\n);\nglobalThis.__tinybrowser_objects['");
    reveal_strlit("\n);");
    reveal_strlit("\nglobalThis.__tinybrowser_objects['");
    assert("\n);\nglobalThis.__tinybrowser_objects['"@ =~= "\n);"@
        + "\nglobalThis.__tinybrowser_objects['"@);
    let d: Seq<char> = "\nglobalThis.__tinybrowser_objects['"@ + oid + "'] = __result;\nreturn "@
        + meta + ";\n})()"@;
    assert(store =~= "(function() {\n"@ + ("var __result = (\n"@ + expr + "\n);"@) + d);
    shown(store, "(function() {\n"@, "var __result = (\n"@ + expr + "\n);"@, d);
    let e: Seq<char> = "(function() {\nvar __result = (\n"@ + expr
        + "\n);\nglobalThis.__tinybrowser_objects['"@ + oid + "'] = __result;\n"@;
    assert(store =~= e + ("return "@ + meta + ";\n})()"@) + none);
    shown(store, e, "return "@ + meta + ";\n})()"@, none);
    let wait: Seq<char> = await_script_text(expr, oid, meta, error_meta, counter);
    reveal_strlit("(async function() {\ntry {\nvar __result = await (\n");
    reveal_strlit("(async function() {\ntry {\n");
    reveal_strlit("var __result = await (\n");
    assert("(async function() {\ntry {\nvar __result = await (\n"@ =~= "(async function() {\ntry {\n"@
        + "var __result = await (\n"@);
    let f: Seq<char> = "\nglobalThis.__tinybrowser_objects['"@ + oid
        + "'] = __result;\nglobalThis.__tinybrowser_await_meta = "@ + meta
        + ";\nglobalThis.__tinybrowser_await_rejected = false;\n} catch(e) {\nglobalThis.__tinybrowser_objects['"@
        + oid + "'] = e;\nglobalThis.__tinybrowser_await_meta = "@ + error_meta
        + ";\nglobalThis.__tinybrowser_await_rejected = true;\n}\nglobalThis.__tinybrowser_done_"@
        + counter + " = true;\n})()"@;
    assert(wait =~= "(async function() {\ntry {\n"@ + ("var __result = await (\n"@ + expr + "\n);"@)
        + f);
    shown(wait, "(async function() {\ntry {\n"@, "var __result = await (\n"@ + expr + "\n);"@, f);
}

/// An awaited script keeps the value with its description and no rejection, or
/// the error with its own and a rejection, and tells that it is done by the flag
/// that is asked for.
#[verifier::spinoff_prover]
#[verifier::rlimit(60)]
pub proof fn awaited_scripts_tell_how_they_ended(
    expr: Seq<char>,
    oid: Seq<char>,
    meta: Seq<char>,
    error_meta: Seq<char>,
    counter: Seq<char>,
)
    ensures
        ({
            let script: Seq<char> = await_script_text(expr, oid, meta, error_meta, counter);
            &&& shows(
                script,
                oid + "'] = __result;\nglobalThis.__tinybrowser_await_meta = "@ + meta
                    + ";\nglobalThis.__tinybrowser_await_rejected = false;"@,
            )
            &&& shows(
                script,
                oid + "'] = e;\nglobalThis.__tinybrowser_await_meta = "@ + error_meta
                    + ";\nglobalThis.__tinybrowser_await_rejected = true;"@,
            )
            &&& shows(script, "globalThis.__tinybrowser_done_"@ + counter + " = true;"@)
            &&& done_expression_text(counter) == "globalThis.__tinybrowser_done_"@ + counter
                + " === true"@
        }),
{
    let script: Seq<char> = await_script_text(expr, oid, meta, error_meta, counter);
    let kept: Seq<char> =
        ";\nglobalThis.__tinybrowser_await_rejected = false;\n} catch(e) {\nglobalThis.__tinybrowser_objects['"@;
    let failed: Seq<char> =
        ";\nglobalThis.__tinybrowser_await_rejected = true;\n}\nglobalThis.__tinybrowser_done_"@;
    let front: Seq<char> = "(async function() {\ntry {\nvar __result = await (\n"@ + expr
        + "\n);\nglobalThis.__tinybrowser_objects['"@;
    let value: Seq<char> = oid + "'] = __result;\nglobalThis.__tinybrowser_await_meta = "@ + meta;
    let error: Seq<char> = oid + "'] = e;\nglobalThis.__tinybrowser_await_meta = "@ + error_meta;
    reveal_strlit(
        ";\nglobalThis.__tinybrowser_await_rejected = false;\n} catch(e) {\nglobalThis.__tinybrowser_objects['",
    );
    reveal_strlit(";\nglobalThis.__tinybrowser_await_rejected = false;");
    reveal_strlit("\n} catch(e) {\nglobalThis.__tinybrowser_objects['");
    assert(kept =~= ";\nglobalThis.__tinybrowser_await_rejected = false;"@
        + "\n} catch(e) {\nglobalThis.__tinybrowser_objects['"@);
    reveal_strlit(
        ";\nglobalThis.__tinybrowser_await_rejected = true;\n}\nglobalThis.__tinybrowser_done_",
    );
    reveal_strlit(";\nglobalThis.__tinybrowser_await_rejected = true;");
    reveal_strlit("\n}\n");
    reveal_strlit("globalThis.__tinybrowser_done_");
    assert(failed =~= ";\nglobalThis.__tinybrowser_await_rejected = true;"@ + "\n}\n"@
        + "globalThis.__tinybrowser_done_"@);
    reveal_strlit(" = true;\n})()");
    reveal_strlit(" = true;");
    reveal_strlit("\n})()");
    assert(" = true;\n})()"@ =~= " = true;"@ + "\n})()"@);
    let p: Seq<char> = value + ";\nglobalThis.__tinybrowser_await_rejected = false;"@;
    let q: Seq<char> = error + ";\nglobalThis.__tinybrowser_await_rejected = true;"@;
    let b: Seq<char> = "\n} catch(e) {\nglobalThis.__tinybrowser_objects['"@ + error + failed
        + counter + " = true;\n})()"@;
    assert(script =~= front + p + b);
    shown(script, front, p, b);
    let c: Seq<char> = "\n}\n"@ + "globalThis.__tinybrowser_done_"@ + counter + " = true;\n})()"@;
    assert(script =~= (front + value + kept) + q + c);
    shown(script, front + value + kept, q, c);
    let r: Seq<char> = "globalThis.__tinybrowser_done_"@ + counter + " = true;"@;
    let d: Seq<char> = front + value + kept + error
        + ";\nglobalThis.__tinybrowser_await_rejected = true;"@ + "\n}\n"@;
    assert(script =~= d + r + "\n})()"@);
    shown(script, d, r, "\n})()"@);
}

/// A call sets its arguments up first, and calls the function that was given
/// on the object and with the arguments that were given.
#[verifier::spinoff_prover]
#[verifier::rlimit(60)]
pub proof fn calls_are_made_as_given(
    setup: Seq<char>,
    function: Seq<char>,
    this: Seq<char>,
    args: Seq<char>,
    oid: Seq<char>,
    meta: Seq<char>,
    counter: Seq<char>,
)
    ensures
        ({
            let bound: Seq<char> = setup + "\nvar __fn = ("@ + function + ");\nvar __this = ("@ + this;
            &&& shows(call_value_script_text(setup, function, this, args), bound)
            &&& shows(
                call_value_script_text(setup, function, this, args),
                ");\nreturn __fn.call(__this, "@ + args + ");"@,
            )
            &&& shows(call_remote_script_text(setup, function, this, args, oid, meta), bound)
            &&& shows(
                call_remote_script_text(setup, function, this, args, oid, meta),
                ");\nvar __result = __fn.call(__this, "@ + args + ");"@,
            )
            &&& shows(
                call_await_script_text(setup, function, this, args, oid, meta, counter),
                bound,
            )
            &&& shows(
                call_await_script_text(setup, function, this, args, oid, meta, counter),
                "__result = await __fn.call(__this, "@ + args + ");"@,
            )
        }),
{
    let bound: Seq<char> = setup + "\nvar __fn = ("@ + function + ");\nvar __this = ("@ + this;
    let value: Seq<char> = call_value_script_text(setup, function, this, args);
    let plain: Seq<char> = "(function() {\n"@;
    let a: Seq<char> = ");\nreturn __fn.call(__this, "@ + args + ");\n})()"@;
    assert(value =~= plain + bound + a);
    shown(value, plain, bound, a);
    reveal_strlit(");\n})()");
    reveal_strlit(");");
    reveal_strlit("\n})()");
    assert(");\n})()"@ =~= ");"@ + "\n})()"@);
    let p: Seq<char> = ");\nreturn __fn.call(__this, "@ + args + ");"@;
    assert(value =~= (plain + bound) + p + "\n})()"@);
    shown(value, plain + bound, p, "\n})()"@);
    let remote: Seq<char> = call_remote_script_text(setup, function, this, args, oid, meta);
    reveal_strlit(");\nglobalThis.__tinybrowser_objects['");
    reveal_strlit("\nglobalThis.__tinybrowser_objects['");
    assert(");\nglobalThis.__tinybrowser_objects['"@ =~= ");"@
        + "\nglobalThis.__tinybrowser_objects['"@);
    let b: Seq<char> = ");\nvar __result = __fn.call(__this, "@ + args
        + ");\nglobalThis.__tinybrowser_objects['"@ + oid + "'] = __result;\nreturn "@ + meta
        + ";\n})()"@;
    assert(remote =~= plain + bound + b);
    shown(remote, plain, bound, b);
    let q: Seq<char> = ");\nvar __result = __fn.call(__this, "@ + args + ");"@;
    let c: Seq<char> = "\nglobalThis.__tinybrowser_objects['"@ + oid + "'] = __result;\nreturn "@
        + meta + ";\n})()"@;
    assert(remote =~= (plain + bound) + q + c);
    shown(remote, plain + bound, q, c);
    let wait: Seq<char> = call_await_script_text(setup, function, this, args, oid, meta, counter);
    let own: Seq<char> = "(async function() {\n"@;
    let rest: Seq<char> = oid + "'] = __result;\nglobalThis.__tinybrowser_await_meta = "@ + meta
        + ";\n} catch(e) {\n__result = e;\nglobalThis.__tinybrowser_objects['"@ + oid
        + "'] = e;\nglobalThis.__tinybrowser_await_meta = "@ + meta
        + ";\n} finally {\nglobalThis.__tinybrowser_done_"@ + counter + " = true;\n}\n})()"@;
    let d: Seq<char> = ");\nvar __result;\ntry {\n__result = await __fn.call(__this, "@ + args
        + ");\nglobalThis.__tinybrowser_objects['"@ + rest;
    assert(wait =~= own + bound + d);
    shown(wait, own, bound, d);
    reveal_strlit(");\nvar __result;\ntry {\n__result = await __fn.call(__this, ");
    reveal_strlit(");\nvar __result;\ntry {\n");
    reveal_strlit("__result = await __fn.call(__this, ");
    assert(");\nvar __result;\ntry {\n__result = await __fn.call(__this, "@
        =~= ");\nvar __result;\ntry {\n"@ + "__result = await __fn.call(__this, "@);
    let r: Seq<char> = "__result = await __fn.call(__this, "@ + args + ");"@;
    let e: Seq<char> = own + bound + ");\nvar __result;\ntry {\n"@;
    let f: Seq<char> = "\nglobalThis.__tinybrowser_objects['"@ + rest;
    assert(wait =~= e + r + f);
    shown(wait, e, r, f);
}

/// A text that begins with the word of a statement runs as it is, inside a
/// function; any other is the expression whose value is returned, without the
/// semicolons behind it. The value comes out as JSON.
#[verifier::spinoff_prover]
#[verifier::rlimit(60)]
pub proof fn statements_run_and_expressions_return(text: Seq<char>, rest: Seq<char>)
    ensures
        trimmed(text) == "var "@ + rest || trimmed(text) == "let "@ + rest || trimmed(text)
            == "const "@ + rest || trimmed(text) == "if "@ + rest || trimmed(text) == "for "@ + rest
            || trimmed(text) == "while "@ + rest || trimmed(text) == "return "@ + rest
            ==> wrapped_text(text) == "(function() { try {\n"@ + text
            + "\n} catch(e) { return null; } })()"@,
        !has_prefix(trimmed(text), "var "@) && !has_prefix(trimmed(text), "let "@) && !has_prefix(
            trimmed(text),
            "const "@,
        ) && !has_prefix(trimmed(text), "if "@) && !has_prefix(trimmed(text), "for "@)
            && !has_prefix(trimmed(text), "while "@) && !has_prefix(trimmed(text), "return "@)
            ==> wrapped_text(text) == "(function() { try { return (\n"@ + trimmed_statement(text)
            + "\n); } catch(e) { return null; } })()"@,
        shows(json_script_text(text), "var __v = ("@ + text + ");"@),
{
    assert(("var "@ + rest).subrange(0, "var "@.len() as int) =~= "var "@);
    assert(("let "@ + rest).subrange(0, "let "@.len() as int) =~= "let "@);
    assert(("const "@ + rest).subrange(0, "const "@.len() as int) =~= "const "@);
    assert(("if "@ + rest).subrange(0, "if "@.len() as int) =~= "if "@);
    assert(("for "@ + rest).subrange(0, "for "@.len() as int) =~= "for "@);
    assert(("while "@ + rest).subrange(0, "while "@.len() as int) =~= "while "@);
    assert(("return "@ + rest).subrange(0, "return "@.len() as int) =~= "return "@);
    let tail: Seq<char> =
        "); if (__v === undefined) return \"null\"; var __s = JSON.stringify(__v); return (__s === undefined) ? \"null\" : __s; })()"@;
    let after: Seq<char> = tail.skip(2);
    reveal_strlit("(function(){ var __v = (");
    reveal_strlit("(function(){ ");
    reveal_strlit("var __v = (");
    reveal_strlit(");");
    reveal_strlit(
        "); if (__v === undefined) return \"null\"; var __s = JSON.stringify(__v); return (__s === undefined) ? \"null\" : __s; })()",
    );
    assert("(function(){ var __v = ("@ =~= "(function(){ "@ + "var __v = ("@);
    assert(tail =~= ");"@ + after);
    assert(json_script_text(text) =~= "(function(){ "@ + ("var __v = ("@ + text + ");"@) + after);
    shown(json_script_text(text), "(function(){ "@, "var __v = ("@ + text + ");"@, after);
}

/// The settings of a page stand in their scripts under their own names.
pub proof fn settings_stand_under_their_names(
    platform: Seq<char>,
    ua_platform: Seq<char>,
    version: Seq<char>,
    flag: Seq<char>,
    message: Seq<char>,
)
    ensures
        ({
            let script: Seq<char> = platform_script_text(platform, ua_platform, version);
            &&& shows(script, "globalThis.__tinybrowser_platform='"@ + platform)
            &&& shows(script, "';globalThis.__tinybrowser_ua_platform='"@ + ua_platform)
            &&& shows(script, "';globalThis.__tinybrowser_ua_platform_version='"@ + version)
        }),
        stealth_script_text(flag) == "globalThis.__tinybrowser_stealth = "@ + flag + ";"@,
        user_agent_script_text(platform) == "globalThis.__tinybrowser_ua = '"@ + platform + "';"@,
        range_error_script_text(message) == "new RangeError("@ + message + ")"@,
        type_error_script_text(message) == "new TypeError("@ + message + ")"@,
{
    let none: Seq<char> = Seq::empty();
    let script: Seq<char> = platform_script_text(platform, ua_platform, version);
    let p: Seq<char> = "globalThis.__tinybrowser_platform='"@ + platform;
    let q: Seq<char> = "';globalThis.__tinybrowser_ua_platform='"@ + ua_platform;
    let r: Seq<char> = "';globalThis.__tinybrowser_ua_platform_version='"@ + version;
    assert(script =~= none + p + (q + r + "';"@));
    shown(script, none, p, q + r + "';"@);
    assert(script =~= p + q + (r + "';"@));
    shown(script, p, q, r + "';"@);
    assert(script =~= (p + q) + r + "';"@);
    shown(script, p + q, r, "';"@);
}

/// The page sees the time zone of the environment, and Berlin's where that is
/// missing or empty.
#[verifier::spinoff_prover]
#[verifier::rlimit(60)]
pub proof fn time_zones_come_from_the_environment(tz: Seq<char>, json: Seq<char>)
    ensures
        tz.len() > 0 ==> time_zone(Some(tz)) == tz,
        time_zone(Some(Seq::empty())) == "Europe/Berlin"@,
        time_zone(None) == "Europe/Berlin"@,
        shows(intl_stub_text(json), json + " };"@),
{
    let head: Seq<char> =
        "\n                if (typeof Intl === 'undefined' || typeof Intl.DateTimeFormat === 'undefined') {\n                  function DateTimeFormat() {\n                    if (!(this instanceof DateTimeFormat)) return new DateTimeFormat();\n                  }\n                  DateTimeFormat.prototype.resolvedOptions = function() {\n                    return { timeZone: "@;
    let tail: Seq<char> =
        " };\n                  };\n                  globalThis.Intl = { DateTimeFormat: DateTimeFormat };\n                }\n                "@;
    reveal_strlit(" };");
    reveal_strlit(
        " };\n                  };\n                  globalThis.Intl = { DateTimeFormat: DateTimeFormat };\n                }\n                ",
    );
    assert(tail =~= " };"@ + tail.skip(3));
    assert(intl_stub_text(json) =~= head + (json + " };"@) + tail.skip(3));
    shown(intl_stub_text(json), head, json + " };"@, tail.skip(3));
}

} // verus!
