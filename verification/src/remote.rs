//! Remote objects: values of the page that the automation side holds by an id,
//! and the course of evaluating and calling for it.

use vstd::prelude::*;

use crate::fetch::headers::{
    get_header, lookup, pairs, put, put_header, put_then_lookup, HeaderView,
};
use crate::json::{bool_text, write_bool};
use crate::number::{decimal, decimal_round_trip, write_decimal};
use crate::script::{
    await_script, await_script_text, call_await_script, call_await_script_text, call_remote_script,
    call_remote_script_text, call_value_script, call_value_script_text, done_expression,
    done_expression_text, meta_extract_js, meta_extract_js_text, node_expression,
    node_expression_text, object_expression, object_expression_text, reason_expression,
    reason_expression_text, release_script, release_script_text, remote_script, remote_script_text,
    store_meta_script, store_meta_script_text, store_script, store_script_text,
};
use crate::state::Headers;
use crate::text::{
    join, joined, opt_str, opt_text, same_text, strip_prefix, texts, trim_statement,
    trimmed_statement, without_prefix,
};

verus! {

/// How long an awaited promise may take where nothing else is said.
pub const DEFAULT_CDP_AWAIT_TIMEOUT_MS: u64 = 30_000;

/// A JSON value of the page: a number by its text, an array by its length and
/// its text, and an object by its text.
pub enum JsonValue<S> {
    Null,
    Bool(bool),
    Number(S),
    Text(S),
    Array { len: usize, json: S },
    Object { json: S },
}

/// What the automation side is told of a value.
pub struct RemoteObjectInfo<S> {
    pub js_type: S,
    pub subtype: Option<S>,
    pub class_name: S,
    pub description: S,
    pub object_id: Option<S>,
    pub value: Option<JsonValue<S>>,
}

/// The description of a value, as far as it is given.
pub struct Meta<S> {
    pub js_type: Option<S>,
    pub subtype: Option<S>,
    pub class_name: Option<S>,
    pub description: Option<S>,
}

/// An argument of a call: the JSON text of a value, the id of a kept object,
/// or an expression for what JSON cannot hold.
pub struct CallArgument<S> {
    pub value: Option<S>,
    pub object_id: Option<S>,
    pub unserializable_value: Option<S>,
}

impl JsonValue<String> {
    /// The value over scalar sequences.
    pub open spec fn view(self) -> JsonValue<Seq<char>> {
        match self {
            JsonValue::Null => JsonValue::Null,
            JsonValue::Bool(b) => JsonValue::Bool(b),
            JsonValue::Number(s) => JsonValue::Number(s@),
            JsonValue::Text(s) => JsonValue::Text(s@),
            JsonValue::Array { len, json } => JsonValue::Array { len, json: json@ },
            JsonValue::Object { json } => JsonValue::Object { json: json@ },
        }
    }
}

impl RemoteObjectInfo<String> {
    /// The information over scalar sequences.
    pub open spec fn view(self) -> RemoteObjectInfo<Seq<char>> {
        RemoteObjectInfo {
            js_type: self.js_type@,
            subtype: opt_text(self.subtype),
            class_name: self.class_name@,
            description: self.description@,
            object_id: opt_text(self.object_id),
            value: match self.value {
                Some(v) => Some(v@),
                None => None,
            },
        }
    }
}

impl Meta<String> {
    /// The description over scalar sequences.
    pub open spec fn view(self) -> Meta<Seq<char>> {
        Meta {
            js_type: opt_text(self.js_type),
            subtype: opt_text(self.subtype),
            class_name: opt_text(self.class_name),
            description: opt_text(self.description),
        }
    }
}

impl CallArgument<String> {
    /// The argument over scalar sequences.
    pub open spec fn view(self) -> CallArgument<Seq<char>> {
        CallArgument {
            value: opt_text(self.value),
            object_id: opt_text(self.object_id),
            unserializable_value: opt_text(self.unserializable_value),
        }
    }
}

/// Call arguments over scalar sequences.
pub open spec fn arguments_view(v: Seq<CallArgument<String>>) -> Seq<CallArgument<Seq<char>>> {
    v.map_values(|a: CallArgument<String>| a@)
}

/// What is told of a value that is handed over itself.
pub open spec fn value_info(value: JsonValue<Seq<char>>) -> RemoteObjectInfo<Seq<char>> {
    let (js_type, subtype, class_name, description): (
        Seq<char>,
        Option<Seq<char>>,
        Seq<char>,
        Seq<char>,
    ) = match value {
        JsonValue::Null => ("object"@, Some("null"@), Seq::empty(), "null"@),
        JsonValue::Bool(b) => ("boolean"@, None, Seq::empty(), bool_text(b)),
        JsonValue::Number(s) => ("number"@, None, Seq::empty(), s),
        JsonValue::Text(s) => ("string"@, None, Seq::empty(), s),
        JsonValue::Array { len, json } => (
            "object"@,
            Some("array"@),
            "Array"@,
            "Array("@ + decimal(len as nat) + ")"@,
        ),
        JsonValue::Object { json } => ("object"@, None, "Object"@, "Object"@),
    };
    RemoteObjectInfo {
        js_type,
        subtype,
        class_name,
        description,
        object_id: None,
        value: Some(value),
    }
}

/// What is told of a value that is handed over itself.
pub fn info_from_json(value: JsonValue<String>) -> (r: RemoteObjectInfo<String>)
    ensures
        r@ == value_info(value@),
{
    let (js_type, subtype, class_name, description): (
        String,
        Option<String>,
        String,
        String,
    ) = match &value {
        JsonValue::Null => (
            "object".to_owned(),
            Some("null".to_owned()),
            String::new(),
            "null".to_owned(),
        ),
        JsonValue::Bool(b) => ("boolean".to_owned(), None, String::new(), write_bool(*b)),
        JsonValue::Number(s) => ("number".to_owned(), None, String::new(), s.as_str().to_owned()),
        JsonValue::Text(s) => ("string".to_owned(), None, String::new(), s.as_str().to_owned()),
        JsonValue::Array { len, json: _ } => {
            let n: u64 = *len as u64;
            let digits: String = write_decimal(n);
            let mut d: String = "Array(".to_owned();
            d.append(digits.as_str());
            d.append(")");
            ("object".to_owned(), Some("array".to_owned()), "Array".to_owned(), d)
        },
        JsonValue::Object { json: _ } => (
            "object".to_owned(),
            None,
            "Object".to_owned(),
            "Object".to_owned(),
        ),
    };
    RemoteObjectInfo {
        js_type,
        subtype,
        class_name,
        description,
        object_id: None,
        value: Some(value),
    }
}

/// The text, or the other one where there is none.
pub open spec fn given_or(s: Option<Seq<char>>, other: Seq<char>) -> Seq<char> {
    match s {
        Some(t) => t,
        None => other,
    }
}

/// What is told of a value that stays in the page. A value that is no object
/// and no function is handed over by its description.
pub open spec fn meta_info(
    meta: Meta<Seq<char>>,
    object_id: Option<Seq<char>>,
) -> RemoteObjectInfo<Seq<char>> {
    let js_type: Seq<char> = given_or(meta.js_type, "undefined"@);
    RemoteObjectInfo {
        js_type,
        subtype: meta.subtype,
        class_name: given_or(meta.class_name, Seq::empty()),
        description: given_or(meta.description, Seq::empty()),
        object_id,
        value: if js_type != "object"@ && js_type != "function"@ {
            match meta.description {
                Some(d) => Some(JsonValue::Text(d)),
                None => None,
            }
        } else {
            None
        },
    }
}

fn given_text(s: &Option<String>, other: &str) -> (r: String)
    ensures
        r@ == given_or(opt_text(*s), other@),
{
    match s {
        Some(t) => t.as_str().to_owned(),
        None => other.to_owned(),
    }
}

/// What is told of a value that stays in the page.
pub fn info_from_meta(meta: Meta<String>, object_id: Option<String>) -> (r: RemoteObjectInfo<
    String,
>)
    ensures
        r@ == meta_info(meta@, opt_text(object_id)),
{
    let js_type: String = given_text(&meta.js_type, "undefined");
    let empty: String = String::new();
    let class_name: String = given_text(&meta.class_name, empty.as_str());
    let description: String = given_text(&meta.description, empty.as_str());
    let value: Option<JsonValue<String>> = if !same_text(js_type.as_str(), "object") && !same_text(
        js_type.as_str(),
        "function",
    ) {
        match &meta.description {
            Some(d) => Some(JsonValue::Text(d.as_str().to_owned())),
            None => None,
        }
    } else {
        None
    };
    RemoteObjectInfo { js_type, subtype: meta.subtype, class_name, description, object_id, value }
}

/// The text under a key of the object that a JSON text stands for, as
/// `serde_json::from_str` reads it; nothing where the text is no JSON, no
/// object, or has no text there.
pub uninterp spec fn text_member(json: Seq<char>, key: Seq<char>) -> Option<Seq<char>>;

/// `serde_json::from_str` into a value, and its member under a key where that
/// is a text.
#[verifier::external_body]
fn get_text(json: &str, key: &str) -> (r: Option<String>)
    ensures
        opt_text(r) == text_member(json@, key@),
{
    let v: serde_json::Value = serde_json::from_str(json).ok()?;
    v.get(key)?.as_str().map(|s| s.to_owned())
}

/// The JSON text of what stands under a key of the object that a JSON text
/// stands for, as `serde_json::from_str` reads it; nothing where the text is
/// no JSON, no object, or has nothing there.
pub uninterp spec fn value_member(json: Seq<char>, key: Seq<char>) -> Option<Seq<char>>;

/// `serde_json::from_str` into a value, and its member under a key in its JSON
/// form.
#[verifier::external_body]
fn get_value(json: &str, key: &str) -> (r: Option<String>)
    ensures
        opt_text(r) == value_member(json@, key@),
{
    let v: serde_json::Value = serde_json::from_str(json).ok()?;
    v.get(key).map(|x| x.to_string())
}

/// The JSON value that a text stands for, as `serde_json::from_str` reads it.
pub uninterp spec fn parsed_value(raw: Seq<char>) -> Option<JsonValue<Seq<char>>>;

/// A value over scalar sequences, where there is one.
pub open spec fn opt_value(o: Option<JsonValue<String>>) -> Option<JsonValue<Seq<char>>> {
    match o {
        Some(v) => Some(v@),
        None => None,
    }
}

/// `serde_json::from_str` into a value, each of its kinds by its own: numbers,
/// arrays and objects by their JSON text.
#[verifier::external_body]
fn parse_value(raw: &str) -> (r: Option<JsonValue<String>>)
    ensures
        opt_value(r) == parsed_value(raw@),
{
    let v: serde_json::Value = serde_json::from_str(raw).ok()?;
    let json = v.to_string();
    Some(
        match v {
            serde_json::Value::Null => JsonValue::Null,
            serde_json::Value::Bool(b) => JsonValue::Bool(b),
            serde_json::Value::Number(_) => JsonValue::Number(json),
            serde_json::Value::String(s) => JsonValue::Text(s),
            serde_json::Value::Array(a) => JsonValue::Array { len: a.len(), json },
            serde_json::Value::Object(_) => JsonValue::Object { json },
        },
    )
}

/// The value that the engine's reply stands for: what is no JSON is a text.
pub open spec fn replied_value(
    raw: Seq<char>,
    parsed: Option<JsonValue<Seq<char>>>,
) -> JsonValue<Seq<char>> {
    match parsed {
        Some(v) => v,
        None => JsonValue::Text(raw),
    }
}

/// The value that the engine's reply stands for, given what it parses to.
pub fn value_of_reply(raw: String, parsed: Option<JsonValue<String>>) -> (r: JsonValue<String>)
    ensures
        r@ == replied_value(raw@, opt_value(parsed)),
{
    match parsed {
        Some(v) => v,
        None => JsonValue::Text(raw),
    }
}

/// The value that the engine's reply stands for.
pub fn read_value(raw: String) -> (r: JsonValue<String>)
    ensures
        r@ == replied_value(raw@, parsed_value(raw@)),
{
    let parsed: Option<JsonValue<String>> = parse_value(raw.as_str());
    value_of_reply(raw, parsed)
}

/// The argument that a JSON text stands for.
pub open spec fn parsed_argument(json: Seq<char>) -> CallArgument<Seq<char>> {
    CallArgument {
        value: value_member(json, "value"@),
        object_id: text_member(json, "objectId"@),
        unserializable_value: text_member(json, "unserializableValue"@),
    }
}

fn parse_argument(json: &str) -> (r: CallArgument<String>)
    ensures
        r@ == parsed_argument(json@),
{
    CallArgument {
        value: get_value(json, "value"),
        object_id: get_text(json, "objectId"),
        unserializable_value: get_text(json, "unserializableValue"),
    }
}

/// The arguments of a call, each from its JSON text.
pub fn read_arguments(arguments: &Vec<String>) -> (r: Vec<CallArgument<String>>)
    ensures
        arguments_view(r@) == texts(arguments@).map_values(|s: Seq<char>| parsed_argument(s)),
{
    let mut out: Vec<CallArgument<String>> = Vec::new();
    let mut i: usize = 0;
    while i < arguments.len()
        invariant
            i <= arguments@.len(),
            out@.len() == i,
            forall|j: int|
                0 <= j < i ==> (#[trigger] out@[j])@ == parsed_argument(arguments@[j]@),
        decreases arguments@.len() - i,
    {
        out.push(parse_argument(arguments[i].as_str()));
        i = i + 1;
    }
    assert(arguments_view(out@) =~= texts(arguments@).map_values(
        |s: Seq<char>| parsed_argument(s),
    ));
    out
}

/// A description that says nothing.
pub open spec fn no_meta() -> Meta<Seq<char>> {
    Meta { js_type: None, subtype: None, class_name: None, description: None }
}

/// The JSON text that describes a value, where the page gave one.
pub open spec fn meta_source(value: JsonValue<Seq<char>>) -> Option<Seq<char>> {
    match value {
        JsonValue::Text(s) => Some(s),
        JsonValue::Object { json } => Some(json),
        _ => None,
    }
}

/// The description that a JSON text holds.
pub open spec fn described(json: Seq<char>) -> Meta<Seq<char>> {
    Meta {
        js_type: text_member(json, "type"@),
        subtype: text_member(json, "subtype"@),
        class_name: text_member(json, "className"@),
        description: text_member(json, "description"@),
    }
}

fn parse_meta(json: &str) -> (r: Meta<String>)
    ensures
        r@ == described(json@),
{
    Meta {
        js_type: get_text(json, "type"),
        subtype: get_text(json, "subtype"),
        class_name: get_text(json, "className"),
        description: get_text(json, "description"),
    }
}

/// The description that the page gave of a value.
pub open spec fn meta_of(value: JsonValue<Seq<char>>) -> Meta<Seq<char>> {
    match meta_source(value) {
        Some(json) => described(json),
        None => no_meta(),
    }
}

fn read_meta(value: &JsonValue<String>) -> (r: Meta<String>)
    ensures
        r@ == meta_of(value@),
{
    match value {
        JsonValue::Text(s) => parse_meta(s.as_str()),
        JsonValue::Object { json } => parse_meta(json.as_str()),
        _ => Meta { js_type: None, subtype: None, class_name: None, description: None },
    }
}

/// The objects that the automation side holds: the count of ids given out, and
/// the expression under each id.
pub struct ObjectStore {
    pub counter: u64,
    pub entries: Headers,
}

/// The objects over scalar sequences.
pub struct ObjectsView {
    pub counter: u64,
    pub entries: HeaderView,
}

/// The map without what stands under `name`.
pub open spec fn without(m: HeaderView, name: Seq<char>) -> HeaderView
    decreases m.len(),
{
    if m.len() == 0 {
        Seq::empty()
    } else if m.last().0 == name {
        without(m.drop_last(), name)
    } else {
        without(m.drop_last(), name).push(m.last())
    }
}

/// The id of an object.
pub open spec fn object_id(counter: u64) -> Seq<char> {
    "{\"injectedScriptId\":1,\"id\":"@ + decimal(counter as nat) + "}"@
}

/// The expression for `this` in a call on an object: the kept object, a node
/// of the page, or the global object.
pub open spec fn this_expression(entries: HeaderView, id: Option<Seq<char>>) -> Seq<char> {
    match id {
        Some(oid) => match lookup(entries, oid) {
            Some(retrieval) => retrieval,
            None => match without_prefix(oid, "node-"@) {
                Some(nid) => node_expression_text(nid),
                None => "globalThis"@,
            },
        },
        None => "globalThis"@,
    }
}

/// The name of an argument in the script of a call.
pub open spec fn argument_name(i: int) -> Seq<char> {
    "__arg"@ + decimal(i as nat)
}

/// The expression for an argument of a call.
pub open spec fn argument_expression(
    entries: HeaderView,
    arg: CallArgument<Seq<char>>,
) -> Seq<char> {
    match arg.value {
        Some(json) => json,
        None => match arg.object_id {
            Some(oid) => given_or(lookup(entries, oid), "undefined"@),
            None => given_or(arg.unserializable_value, "undefined"@),
        },
    }
}

/// The statement that sets an argument of a call.
pub open spec fn argument_line(
    entries: HeaderView,
    i: int,
    arg: CallArgument<Seq<char>>,
) -> Seq<char> {
    "var "@ + argument_name(i) + " = "@ + argument_expression(entries, arg) + ";"@
}

/// The statements that set the arguments of a call.
pub open spec fn setup_text(entries: HeaderView, args: Seq<CallArgument<Seq<char>>>) -> Seq<char> {
    joined(Seq::new(args.len(), |i: int| argument_line(entries, i, args[i])), "\n"@)
}

/// The list of the arguments of a call.
pub open spec fn argument_list(n: nat) -> Seq<char> {
    joined(Seq::new(n, |i: int| argument_name(i)), ", "@)
}

/// Which of the two awaits.
#[derive(Clone, Copy, Debug, PartialEq, Eq, Structural)]
pub enum AwaitKind {
    Evaluate,
    CallFunction,
}

/// What a value that was asked for is for.
#[derive(Clone, Copy, Debug, PartialEq, Eq, Structural)]
pub enum ValueThen {
    /// It is the result, and an error is handed on as it is.
    Plain,
    /// It is the result.
    Value,
    /// It describes the result, which is kept.
    Meta,
    /// It describes an object that was stored.
    StoreMeta,
    /// It tells whether the awaited promise was rejected.
    Rejected,
    /// It is the reason of the rejection.
    Reason,
    /// It describes what the awaited promise gave.
    AwaitMeta,
}

/// What a script that was run is for.
#[derive(Clone, Copy, Debug, PartialEq, Eq, Structural)]
pub enum ExecuteThen {
    Settle(AwaitKind),
    Store,
}

/// A request under way.
pub struct CdpTask<S> {
    pub oid: S,
    pub counter: u64,
    pub by_value: bool,
    pub timeout_ms: u64,
}

/// What a request does next.
pub enum CdpStep<S> {
    /// It asks for the value of an expression.
    Evaluate(S, ValueThen, CdpTask<S>),
    /// It runs a script under a name.
    Execute(S, S, ExecuteThen, CdpTask<S>),
    /// It waits until an expression is true, for so many milliseconds at most.
    Settle(S, u64, AwaitKind, CdpTask<S>),
    /// It ends with a value.
    Done(RemoteObjectInfo<S>),
    /// It ends with the id of an object that was stored.
    Stored(S),
    /// It ends with an error.
    Failed(S),
}

impl CdpTask<String> {
    /// The request over scalar sequences.
    pub open spec fn view(self) -> CdpTask<Seq<char>> {
        CdpTask {
            oid: self.oid@,
            counter: self.counter,
            by_value: self.by_value,
            timeout_ms: self.timeout_ms,
        }
    }
}

impl CdpStep<String> {
    /// The step over scalar sequences.
    pub open spec fn view(self) -> CdpStep<Seq<char>> {
        match self {
            CdpStep::Evaluate(s, then_, t) => CdpStep::Evaluate(s@, then_, t@),
            CdpStep::Execute(n, s, then_, t) => CdpStep::Execute(n@, s@, then_, t@),
            CdpStep::Settle(s, ms, kind, t) => CdpStep::Settle(s@, ms, kind, t@),
            CdpStep::Done(info) => CdpStep::Done(info@),
            CdpStep::Stored(oid) => CdpStep::Stored(oid@),
            CdpStep::Failed(e) => CdpStep::Failed(e@),
        }
    }
}

/// The request that is made under the next id.
pub open spec fn next_task(s: ObjectsView, by_value: bool, timeout_ms: u64) -> CdpTask<Seq<char>> {
    let counter: u64 = (s.counter + 1) as u64;
    CdpTask { oid: object_id(counter), counter, by_value, timeout_ms }
}

/// The first step of an evaluation.
pub open spec fn evaluate_step(
    s: ObjectsView,
    expression: Seq<char>,
    by_value: bool,
    await_promise: bool,
    timeout_ms: u64,
) -> CdpStep<Seq<char>> {
    let task: CdpTask<Seq<char>> = next_task(s, by_value, timeout_ms);
    let meta: Seq<char> = meta_extract_js_text("__result"@);
    if await_promise {
        CdpStep::Execute(
            "<eval-remote>"@,
            await_script_text(
                trimmed_statement(expression),
                task.oid,
                meta,
                meta_extract_js_text("e"@),
                decimal(task.counter as nat),
            ),
            ExecuteThen::Settle(AwaitKind::Evaluate),
            task,
        )
    } else if by_value {
        CdpStep::Evaluate(
            expression,
            ValueThen::Plain,
            CdpTask { oid: Seq::empty(), counter: s.counter, by_value, timeout_ms },
        )
    } else {
        CdpStep::Evaluate(
            remote_script_text(trimmed_statement(expression), task.oid, meta),
            ValueThen::Meta,
            task,
        )
    }
}

/// Whether an evaluation takes an id.
pub open spec fn evaluation_counts(by_value: bool, await_promise: bool) -> bool {
    await_promise || !by_value
}

/// The first step of a call.
pub open spec fn call_step(
    s: ObjectsView,
    function: Seq<char>,
    object: Option<Seq<char>>,
    args: Seq<CallArgument<Seq<char>>>,
    by_value: bool,
    await_promise: bool,
    timeout_ms: u64,
) -> CdpStep<Seq<char>> {
    let task: CdpTask<Seq<char>> = next_task(s, by_value, timeout_ms);
    let setup: Seq<char> = setup_text(s.entries, args);
    let this: Seq<char> = this_expression(s.entries, object);
    let list: Seq<char> = argument_list(args.len());
    let meta: Seq<char> = meta_extract_js_text("__result"@);
    if await_promise {
        CdpStep::Execute(
            "<callFnAsync>"@,
            call_await_script_text(
                setup,
                function,
                this,
                list,
                task.oid,
                meta,
                decimal(task.counter as nat),
            ),
            ExecuteThen::Settle(AwaitKind::CallFunction),
            task,
        )
    } else if by_value {
        CdpStep::Evaluate(
            call_value_script_text(setup, function, this, list),
            ValueThen::Value,
            task,
        )
    } else {
        CdpStep::Evaluate(
            call_remote_script_text(setup, function, this, list, task.oid, meta),
            ValueThen::Meta,
            task,
        )
    }
}

/// What a request does once a script has run.
pub open spec fn executed_step(
    kind: ExecuteThen,
    task: CdpTask<Seq<char>>,
    result: Result<(), Seq<char>>,
) -> CdpStep<Seq<char>> {
    match (kind, result) {
        (ExecuteThen::Settle(await_kind), Ok(_)) => CdpStep::Settle(
            done_expression_text(decimal(task.counter as nat)),
            task.timeout_ms,
            await_kind,
            task,
        ),
        (ExecuteThen::Settle(await_kind), Err(e)) => CdpStep::Failed("JS error: "@ + e),
        (ExecuteThen::Store, Ok(_)) => CdpStep::Stored(task.oid),
        (ExecuteThen::Store, Err(e)) => CdpStep::Failed("Store error: "@ + e),
    }
}

/// Whether an object is kept once a script has run.
pub open spec fn executed_keeps(kind: ExecuteThen, result: Result<(), Seq<char>>) -> bool {
    kind == ExecuteThen::Store && result is Ok
}

/// The message for a promise that did not settle in time.
pub open spec fn unsettled(kind: AwaitKind, timeout_ms: u64) -> Seq<char> {
    (if kind == AwaitKind::Evaluate {
        "Runtime.evaluate promise did not settle within "@
    } else {
        "Runtime.callFunctionOn promise did not settle within "@
    }) + decimal(timeout_ms as nat) + "ms"@
}

/// What a request does once waiting is over.
pub open spec fn settled_step(
    kind: AwaitKind,
    task: CdpTask<Seq<char>>,
    settled: bool,
) -> CdpStep<Seq<char>> {
    if !settled {
        CdpStep::Failed(unsettled(kind, task.timeout_ms))
    } else if kind == AwaitKind::Evaluate {
        CdpStep::Evaluate("globalThis.__tinybrowser_await_rejected"@, ValueThen::Rejected, task)
    } else if task.by_value {
        CdpStep::Evaluate(object_expression_text(task.oid), ValueThen::Value, task)
    } else {
        CdpStep::Evaluate("globalThis.__tinybrowser_await_meta"@, ValueThen::Meta, task)
    }
}

/// The prefix of the error that a failed evaluation ends with.
pub open spec fn error_prefix(kind: ValueThen) -> Seq<char> {
    match kind {
        ValueThen::Plain => Seq::empty(),
        ValueThen::StoreMeta => "Store error: "@,
        _ => "JS error: "@,
    }
}

/// The text of a value that is one.
pub open spec fn value_text(v: JsonValue<Seq<char>>) -> Seq<char> {
    match v {
        JsonValue::Text(s) => s,
        _ => Seq::empty(),
    }
}

/// What a request does once a value is there; `meta` is the description that
/// the value holds.
pub open spec fn value_step(
    kind: ValueThen,
    task: CdpTask<Seq<char>>,
    result: Result<JsonValue<Seq<char>>, Seq<char>>,
    meta: Meta<Seq<char>>,
) -> CdpStep<Seq<char>> {
    match result {
        Err(e) => CdpStep::Failed(error_prefix(kind) + e),
        Ok(value) => match kind {
            ValueThen::Plain | ValueThen::Value => CdpStep::Done(value_info(value)),
            ValueThen::Meta | ValueThen::StoreMeta => CdpStep::Done(
                meta_info(meta, Some(task.oid)),
            ),
            ValueThen::Rejected => if value == JsonValue::<Seq<char>>::Bool(true) {
                CdpStep::Evaluate(reason_expression_text(task.oid), ValueThen::Reason, task)
            } else {
                CdpStep::Evaluate(
                    "globalThis.__tinybrowser_await_meta"@,
                    ValueThen::AwaitMeta,
                    task,
                )
            },
            ValueThen::Reason => CdpStep::Failed("Promise rejected: "@ + value_text(value)),
            ValueThen::AwaitMeta => if task.by_value {
                CdpStep::Evaluate(object_expression_text(task.oid), ValueThen::Value, task)
            } else {
                CdpStep::Done(meta_info(meta, Some(task.oid)))
            },
        },
    }
}

/// Whether an object is kept once a value is there.
pub open spec fn value_keeps(
    kind: ValueThen,
    result: Result<JsonValue<Seq<char>>, Seq<char>>,
) -> bool {
    result is Ok && (kind == ValueThen::Meta || kind == ValueThen::StoreMeta || kind
        == ValueThen::AwaitMeta)
}

/// The result of an evaluation over scalar sequences.
pub open spec fn value_result(r: Result<JsonValue<String>, String>) -> Result<
    JsonValue<Seq<char>>,
    Seq<char>,
> {
    match r {
        Ok(v) => Ok(v@),
        Err(e) => Err(e@),
    }
}

/// The result of a script over scalar sequences.
pub open spec fn run_result(r: Result<(), String>) -> Result<(), Seq<char>> {
    match r {
        Ok(u) => Ok(u),
        Err(e) => Err(e@),
    }
}

/// The objects with one more kept under its id.
pub open spec fn kept(s: ObjectsView, oid: Seq<char>) -> ObjectsView {
    ObjectsView { counter: s.counter, entries: put(s.entries, oid, object_expression_text(oid)) }
}

fn failed(prefix: &str, e: &str) -> (r: CdpStep<String>)
    ensures
        r@ == CdpStep::<Seq<char>>::Failed(prefix@ + e@),
{
    let mut message: String = prefix.to_owned();
    message.append(e);
    CdpStep::Failed(message)
}

impl ObjectStore {
    /// The objects over scalar sequences.
    pub open spec fn view(self) -> ObjectsView {
        ObjectsView { counter: self.counter, entries: pairs(self.entries@) }
    }

    /// No objects.
    pub fn new() -> (r: Self)
        ensures
            r@ == (ObjectsView { counter: 0, entries: Seq::empty() }),
    {
        let entries: Headers = Vec::new();
        assert(pairs(entries@) =~= Seq::<(Seq<char>, Seq<char>)>::empty());
        ObjectStore { counter: 0, entries }
    }

    /// The id with the given number.
    pub fn make_oid(counter: u64) -> (r: String)
        ensures
            r@ == object_id(counter),
    {
        let digits: String = write_decimal(counter);
        let mut s: String = "{\"injectedScriptId\":1,\"id\":".to_owned();
        s.append(digits.as_str());
        s.append("}");
        s
    }

    /// The expression for `this` in a call on an object.
    pub fn resolve_this(&self, object: Option<&str>) -> (r: String)
        ensures
            r@ == this_expression(self@.entries, opt_str(object)),
    {
        match object {
            Some(oid) => match get_header(&self.entries, oid) {
                Some(retrieval) => retrieval,
                None => match strip_prefix(oid, "node-") {
                    Some(nid) => node_expression(nid.as_str()),
                    None => "globalThis".to_owned(),
                },
            },
            None => "globalThis".to_owned(),
        }
    }

    fn argument(&self, arg: &CallArgument<String>) -> (r: String)
        ensures
            r@ == argument_expression(self@.entries, arg@),
    {
        match &arg.value {
            Some(json) => json.as_str().to_owned(),
            None => match &arg.object_id {
                Some(oid) => {
                    let found: Option<String> = get_header(&self.entries, oid.as_str());
                    given_text(&found, "undefined")
                },
                None => given_text(&arg.unserializable_value, "undefined"),
            },
        }
    }

    /// The statements that set the arguments of a call, and their list.
    pub fn build_args(&self, arguments: &Vec<CallArgument<String>>) -> (r: (String, String))
        ensures
            r.0@ == setup_text(self@.entries, arguments_view(arguments@)),
            r.1@ == argument_list(arguments@.len()),
    {
        let ghost args = arguments_view(arguments@);
        let ghost entries = self@.entries;
        let mut lines: Vec<String> = Vec::new();
        let mut names: Vec<String> = Vec::new();
        let mut i: usize = 0;
        while i < arguments.len()
            invariant
                i <= arguments@.len(),
                args == arguments_view(arguments@),
                entries == self@.entries,
                lines@.len() == i,
                names@.len() == i,
                forall|j: int|
                    0 <= j < i ==> (#[trigger] lines@[j])@ == argument_line(entries, j, args[j]),
                forall|j: int| 0 <= j < i ==> (#[trigger] names@[j])@ == argument_name(j),
            decreases arguments@.len() - i,
        {
            let n: u64 = i as u64;
            let digits: String = write_decimal(n);
            let mut name: String = "__arg".to_owned();
            name.append(digits.as_str());
            let expression: String = self.argument(&arguments[i]);
            let mut line: String = "var ".to_owned();
            line.append(name.as_str());
            line.append(" = ");
            line.append(expression.as_str());
            line.append(";");
            lines.push(line);
            names.push(name);
            i = i + 1;
        }
        assert(texts(lines@) =~= Seq::new(
            args.len(),
            |j: int| argument_line(entries, j, args[j]),
        ));
        assert(texts(names@) =~= Seq::new(args.len(), |j: int| argument_name(j)));
        (join(&lines, "\n"), join(&names, ", "))
    }

    fn next(&mut self, by_value: bool, timeout_ms: u64) -> (r: CdpTask<String>)
        requires
            old(self).counter < u64::MAX,
        ensures
            r@ == next_task(old(self)@, by_value, timeout_ms),
            final(self)@ == (ObjectsView {
                counter: (old(self)@.counter + 1) as u64,
                ..old(self)@
            }),
    {
        self.counter = self.counter + 1;
        CdpTask { oid: Self::make_oid(self.counter), counter: self.counter, by_value, timeout_ms }
    }

    fn keep(&mut self, oid: &str)
        ensures
            final(self)@ == kept(old(self)@, oid@),
    {
        let expression: String = object_expression(oid);
        put_header(&mut self.entries, oid, expression.as_str());
    }

    /// Starts an evaluation.
    pub fn evaluate_for_cdp_with_timeout(
        &mut self,
        expression: &str,
        return_by_value: bool,
        await_promise: bool,
        await_timeout_ms: u64,
    ) -> (r: CdpStep<String>)
        requires
            old(self).counter < u64::MAX,
        ensures
            r@ == evaluate_step(
                old(self)@,
                expression@,
                return_by_value,
                await_promise,
                await_timeout_ms,
            ),
            final(self)@ == (ObjectsView {
                counter: if evaluation_counts(return_by_value, await_promise) {
                    (old(self)@.counter + 1) as u64
                } else {
                    old(self)@.counter
                },
                ..old(self)@
            }),
    {
        if !await_promise && return_by_value {
            return CdpStep::Evaluate(
                expression.to_owned(),
                ValueThen::Plain,
                CdpTask {
                    oid: String::new(),
                    counter: self.counter,
                    by_value: return_by_value,
                    timeout_ms: await_timeout_ms,
                },
            );
        }
        let task: CdpTask<String> = self.next(return_by_value, await_timeout_ms);
        let cleaned: String = trim_statement(expression);
        let meta: String = meta_extract_js("__result");
        if await_promise {
            let error_meta: String = meta_extract_js("e");
            let digits: String = write_decimal(task.counter);
            let script: String = await_script(
                cleaned.as_str(),
                task.oid.as_str(),
                meta.as_str(),
                error_meta.as_str(),
                digits.as_str(),
            );
            CdpStep::Execute(
                "<eval-remote>".to_owned(),
                script,
                ExecuteThen::Settle(AwaitKind::Evaluate),
                task,
            )
        } else {
            let script: String = remote_script(
                cleaned.as_str(),
                task.oid.as_str(),
                meta.as_str(),
            );
            CdpStep::Evaluate(script, ValueThen::Meta, task)
        }
    }

    /// Starts an evaluation with the default timeout.
    pub fn evaluate_for_cdp(
        &mut self,
        expression: &str,
        return_by_value: bool,
        await_promise: bool,
    ) -> (r: CdpStep<String>)
        requires
            old(self).counter < u64::MAX,
        ensures
            r@ == evaluate_step(
                old(self)@,
                expression@,
                return_by_value,
                await_promise,
                DEFAULT_CDP_AWAIT_TIMEOUT_MS,
            ),
            final(self)@ == (ObjectsView {
                counter: if evaluation_counts(return_by_value, await_promise) {
                    (old(self)@.counter + 1) as u64
                } else {
                    old(self)@.counter
                },
                ..old(self)@
            }),
    {
        self.evaluate_for_cdp_with_timeout(
            expression,
            return_by_value,
            await_promise,
            DEFAULT_CDP_AWAIT_TIMEOUT_MS,
        )
    }

    /// Starts a call of a function on an object.
    pub fn call_function_on_for_cdp_with_timeout(
        &mut self,
        function_declaration: &str,
        object: Option<&str>,
        arguments: &Vec<CallArgument<String>>,
        return_by_value: bool,
        await_promise: bool,
        await_timeout_ms: u64,
    ) -> (r: CdpStep<String>)
        requires
            old(self).counter < u64::MAX,
        ensures
            r@ == call_step(
                old(self)@,
                function_declaration@,
                opt_str(object),
                arguments_view(arguments@),
                return_by_value,
                await_promise,
                await_timeout_ms,
            ),
            final(self)@ == (ObjectsView {
                counter: (old(self)@.counter + 1) as u64,
                ..old(self)@
            }),
    {
        let this: String = self.resolve_this(object);
        let (setup, list) = self.build_args(arguments);
        let task: CdpTask<String> = self.next(return_by_value, await_timeout_ms);
        let meta: String = meta_extract_js("__result");
        if await_promise {
            let digits: String = write_decimal(task.counter);
            let script: String = call_await_script(
                setup.as_str(),
                function_declaration,
                this.as_str(),
                list.as_str(),
                task.oid.as_str(),
                meta.as_str(),
                digits.as_str(),
            );
            CdpStep::Execute(
                "<callFnAsync>".to_owned(),
                script,
                ExecuteThen::Settle(AwaitKind::CallFunction),
                task,
            )
        } else if return_by_value {
            let script: String = call_value_script(
                setup.as_str(),
                function_declaration,
                this.as_str(),
                list.as_str(),
            );
            CdpStep::Evaluate(script, ValueThen::Value, task)
        } else {
            let script: String = call_remote_script(
                setup.as_str(),
                function_declaration,
                this.as_str(),
                list.as_str(),
                task.oid.as_str(),
                meta.as_str(),
            );
            CdpStep::Evaluate(script, ValueThen::Meta, task)
        }
    }

    /// Starts a call of a function on an object with the default timeout.
    pub fn call_function_on_for_cdp(
        &mut self,
        function_declaration: &str,
        object: Option<&str>,
        arguments: &Vec<CallArgument<String>>,
        return_by_value: bool,
        await_promise: bool,
    ) -> (r: CdpStep<String>)
        requires
            old(self).counter < u64::MAX,
        ensures
            r@ == call_step(
                old(self)@,
                function_declaration@,
                opt_str(object),
                arguments_view(arguments@),
                return_by_value,
                await_promise,
                DEFAULT_CDP_AWAIT_TIMEOUT_MS,
            ),
            final(self)@ == (ObjectsView {
                counter: (old(self)@.counter + 1) as u64,
                ..old(self)@
            }),
    {
        self.call_function_on_for_cdp_with_timeout(
            function_declaration,
            object,
            arguments,
            return_by_value,
            await_promise,
            DEFAULT_CDP_AWAIT_TIMEOUT_MS,
        )
    }

    /// Starts a call of a function on an object, without awaiting.
    pub fn call_function_on(
        &mut self,
        function_declaration: &str,
        object: Option<&str>,
        arguments: &Vec<CallArgument<String>>,
        return_by_value: bool,
    ) -> (r: CdpStep<String>)
        requires
            old(self).counter < u64::MAX,
        ensures
            r@ == call_step(
                old(self)@,
                function_declaration@,
                opt_str(object),
                arguments_view(arguments@),
                return_by_value,
                false,
                DEFAULT_CDP_AWAIT_TIMEOUT_MS,
            ),
            final(self)@ == (ObjectsView {
                counter: (old(self)@.counter + 1) as u64,
                ..old(self)@
            }),
    {
        self.call_function_on_for_cdp(
            function_declaration,
            object,
            arguments,
            return_by_value,
            false,
        )
    }

    /// Starts storing what an expression gives.
    pub fn store_object(&mut self, js_expression: &str) -> (r: CdpStep<String>)
        requires
            old(self).counter < u64::MAX,
        ensures
            ({
                let task: CdpTask<Seq<char>> = next_task(old(self)@, false, 0);
                r@ == CdpStep::Execute(
                    "<store>"@,
                    store_script_text(task.oid, js_expression@),
                    ExecuteThen::Store,
                    task,
                )
            }),
            final(self)@ == (ObjectsView {
                counter: (old(self)@.counter + 1) as u64,
                ..old(self)@
            }),
    {
        let task: CdpTask<String> = self.next(false, 0);
        let script: String = store_script(task.oid.as_str(), js_expression);
        CdpStep::Execute("<store>".to_owned(), script, ExecuteThen::Store, task)
    }

    /// Starts storing what an expression gives, with its description.
    pub fn store_object_with_meta(&mut self, js_expression: &str) -> (r: CdpStep<String>)
        requires
            old(self).counter < u64::MAX,
        ensures
            ({
                let task: CdpTask<Seq<char>> = next_task(old(self)@, false, 0);
                r@ == CdpStep::Evaluate(
                    store_meta_script_text(
                        js_expression@,
                        task.oid,
                        meta_extract_js_text("__result"@),
                    ),
                    ValueThen::StoreMeta,
                    task,
                )
            }),
            final(self)@ == (ObjectsView {
                counter: (old(self)@.counter + 1) as u64,
                ..old(self)@
            }),
    {
        let task: CdpTask<String> = self.next(false, 0);
        let meta: String = meta_extract_js("__result");
        let script: String = store_meta_script(js_expression, task.oid.as_str(), meta.as_str());
        CdpStep::Evaluate(script, ValueThen::StoreMeta, task)
    }

    /// Goes on once a script has run.
    pub fn on_executed(
        &mut self,
        kind: ExecuteThen,
        task: CdpTask<String>,
        result: Result<(), String>,
    ) -> (r: CdpStep<String>)
        ensures
            r@ == executed_step(kind, task@, run_result(result)),
            final(self)@ == (if executed_keeps(kind, run_result(result)) {
                kept(old(self)@, task@.oid)
            } else {
                old(self)@
            }),
    {
        match kind {
            ExecuteThen::Settle(await_kind) => match result {
                Ok(_) => {
                    let digits: String = write_decimal(task.counter);
                    let sentinel: String = done_expression(digits.as_str());
                    CdpStep::Settle(sentinel, task.timeout_ms, await_kind, task)
                },
                Err(e) => failed("JS error: ", e.as_str()),
            },
            ExecuteThen::Store => match result {
                Ok(_) => {
                    self.keep(task.oid.as_str());
                    CdpStep::Stored(task.oid)
                },
                Err(e) => failed("Store error: ", e.as_str()),
            },
        }
    }

    /// Goes on once waiting is over.
    pub fn on_settled(kind: AwaitKind, task: CdpTask<String>, settled: bool) -> (r: CdpStep<String>)
        ensures
            r@ == settled_step(kind, task@, settled),
    {
        if !settled {
            let digits: String = write_decimal(task.timeout_ms);
            let mut message: String = if kind == AwaitKind::Evaluate {
                "Runtime.evaluate promise did not settle within ".to_owned()
            } else {
                "Runtime.callFunctionOn promise did not settle within ".to_owned()
            };
            message.append(digits.as_str());
            message.append("ms");
            CdpStep::Failed(message)
        } else if kind == AwaitKind::Evaluate {
            CdpStep::Evaluate(
                "globalThis.__tinybrowser_await_rejected".to_owned(),
                ValueThen::Rejected,
                task,
            )
        } else if task.by_value {
            let script: String = object_expression(task.oid.as_str());
            CdpStep::Evaluate(script, ValueThen::Value, task)
        } else {
            CdpStep::Evaluate(
                "globalThis.__tinybrowser_await_meta".to_owned(),
                ValueThen::Meta,
                task,
            )
        }
    }

    /// Goes on once a value is there, given the description that it holds.
    pub fn resolve_value(
        &mut self,
        kind: ValueThen,
        task: CdpTask<String>,
        result: Result<JsonValue<String>, String>,
        meta: Meta<String>,
    ) -> (r: CdpStep<String>)
        ensures
            r@ == value_step(kind, task@, value_result(result), meta@),
            final(self)@ == (if value_keeps(kind, value_result(result)) {
                kept(old(self)@, task@.oid)
            } else {
                old(self)@
            }),
    {
        let value: JsonValue<String> = match result {
            Err(e) => {
                let empty: String = String::new();
                return match kind {
                    ValueThen::Plain => failed(empty.as_str(), e.as_str()),
                    ValueThen::StoreMeta => failed("Store error: ", e.as_str()),
                    _ => failed("JS error: ", e.as_str()),
                };
            },
            Ok(v) => v,
        };
        match kind {
            ValueThen::Plain | ValueThen::Value => CdpStep::Done(info_from_json(value)),
            ValueThen::Meta | ValueThen::StoreMeta => {
                self.keep(task.oid.as_str());
                CdpStep::Done(info_from_meta(meta, Some(task.oid)))
            },
            ValueThen::Rejected => {
                let rejected: bool = match value {
                    JsonValue::Bool(b) => b,
                    _ => false,
                };
                if rejected {
                    let script: String = reason_expression(task.oid.as_str());
                    CdpStep::Evaluate(script, ValueThen::Reason, task)
                } else {
                    CdpStep::Evaluate(
                        "globalThis.__tinybrowser_await_meta".to_owned(),
                        ValueThen::AwaitMeta,
                        task,
                    )
                }
            },
            ValueThen::Reason => {
                let reason: String = match value {
                    JsonValue::Text(s) => s,
                    _ => String::new(),
                };
                failed("Promise rejected: ", reason.as_str())
            },
            ValueThen::AwaitMeta => {
                self.keep(task.oid.as_str());
                if task.by_value {
                    let script: String = object_expression(task.oid.as_str());
                    CdpStep::Evaluate(script, ValueThen::Value, task)
                } else {
                    CdpStep::Done(info_from_meta(meta, Some(task.oid)))
                }
            },
        }
    }

    /// Goes on once a value is there.
    pub fn on_value(
        &mut self,
        kind: ValueThen,
        task: CdpTask<String>,
        result: Result<JsonValue<String>, String>,
    ) -> (r: CdpStep<String>)
        ensures
            r@ == value_step(
                kind,
                task@,
                value_result(result),
                match value_result(result) {
                    Ok(v) => meta_of(v),
                    Err(e) => no_meta(),
                },
            ),
            final(self)@ == (if value_keeps(kind, value_result(result)) {
                kept(old(self)@, task@.oid)
            } else {
                old(self)@
            }),
    {
        let meta: Meta<String> = match &result {
            Ok(v) => read_meta(v),
            Err(_) => Meta { js_type: None, subtype: None, class_name: None, description: None },
        };
        self.resolve_value(kind, task, result, meta)
    }

    /// Lets go of an object; the script to run where it was kept.
    pub fn release_object(&mut self, object: &str) -> (r: Option<String>)
        ensures
            match lookup(old(self)@.entries, object@) {
                Some(retrieval) => {
                    &&& opt_text(r) == Some(release_script_text(object@))
                    &&& final(self)@ == (ObjectsView {
                        entries: without(old(self)@.entries, object@),
                        ..old(self)@
                    })
                },
                None => r is None && final(self)@ == old(self)@,
            },
    {
        match get_header(&self.entries, object) {
            Some(_) => {
                let mut rest: Headers = Vec::new();
                let mut i: usize = 0;
                let ghost all = pairs(self.entries@);
                assert(all.take(0) =~= Seq::<(Seq<char>, Seq<char>)>::empty());
                assert(pairs(rest@) =~= Seq::<(Seq<char>, Seq<char>)>::empty());
                while i < self.entries.len()
                    invariant
                        i <= self.entries@.len(),
                        all == pairs(self.entries@),
                        pairs(rest@) == without(all.take(i as int), object@),
                        self.counter == old(self).counter,
                        self.entries == old(self).entries,
                    decreases self.entries@.len() - i,
                {
                    assert(all.take(i + 1).drop_last() =~= all.take(i as int));
                    assert(all.take(i + 1).last() == all[i as int]);
                    if !same_text(self.entries[i].0.as_str(), object) {
                        let ghost before = pairs(rest@);
                        let name: String = self.entries[i].0.as_str().to_owned();
                        let value: String = self.entries[i].1.as_str().to_owned();
                        rest.push((name, value));
                        assert(pairs(rest@) =~= before.push(all[i as int]));
                    }
                    i = i + 1;
                }
                assert(all.take(all.len() as int) =~= all);
                self.entries = rest;
                Some(release_script(object))
            },
            None => None,
        }
    }

    /// Lets go of all objects; the script to run.
    pub fn release_object_group(&mut self) -> (r: String)
        ensures
            r@ == "globalThis.__tinybrowser_objects = {};"@,
            final(self)@ == (ObjectsView { entries: Seq::empty(), ..old(self)@ }),
    {
        self.entries = Vec::new();
        assert(pairs(self.entries@) =~= Seq::<(Seq<char>, Seq<char>)>::empty());
        "globalThis.__tinybrowser_objects = {};".to_owned()
    }
}

/// Ids are never given out twice: different numbers make different ids.
pub proof fn object_ids_differ(a: u64, b: u64)
    requires
        object_id(a) == object_id(b),
    ensures
        a == b,
{
    let head: Seq<char> = "{\"injectedScriptId\":1,\"id\":"@;
    let n: int = head.len() as int;
    let x: Seq<char> = decimal(a as nat);
    let y: Seq<char> = decimal(b as nat);
    assert(object_id(a).len() == n + x.len() + "}"@.len());
    assert(object_id(b).len() == n + y.len() + "}"@.len());
    assert(object_id(a).subrange(n, n + x.len()) =~= x);
    assert(object_id(b).subrange(n, n + y.len()) =~= y);
    decimal_round_trip(a as nat, u64::MAX as nat);
    decimal_round_trip(b as nat, u64::MAX as nat);
}

/// A kept object is found again under its id, and nothing else changes.
pub proof fn kept_objects_are_found(s: ObjectsView, oid: Seq<char>, other: Seq<char>)
    ensures
        this_expression(kept(s, oid).entries, Some(oid)) == object_expression_text(oid),
        other != oid ==> this_expression(kept(s, oid).entries, Some(other)) == this_expression(
            s.entries,
            Some(other),
        ),
{
    put_then_lookup(s.entries, oid, object_expression_text(oid), other);
}

proof fn lookup_without(m: HeaderView, name: Seq<char>, other: Seq<char>)
    ensures
        lookup(without(m, name), name) is None,
        other != name ==> lookup(without(m, name), other) == lookup(m, other),
    decreases m.len(),
{
    if m.len() > 0 {
        lookup_without(m.drop_last(), name, other);
        assert(m =~= m.drop_last().push(m.last()));
        lookup_push(m.drop_last(), m.last(), name);
        lookup_push(m.drop_last(), m.last(), other);
        lookup_push(without(m.drop_last(), name), m.last(), name);
        lookup_push(without(m.drop_last(), name), m.last(), other);
    }
}

proof fn lookup_push(m: HeaderView, e: (Seq<char>, Seq<char>), name: Seq<char>)
    ensures
        lookup(m.push(e), name) == (match lookup(m, name) {
            Some(v) => Some(v),
            None => if e.0 == name {
                Some(e.1)
            } else {
                None
            },
        }),
    decreases m.len(),
{
    reveal_with_fuel(lookup, 2);
    if m.len() == 0 {
        assert(m.push(e).skip(1) =~= Seq::<(Seq<char>, Seq<char>)>::empty());
    } else {
        assert(m.push(e).skip(1) =~= m.skip(1).push(e));
        lookup_push(m.skip(1), e, name);
    }
}

/// A released object is found no more, and the others stay.
pub proof fn released_objects_are_gone(s: ObjectsView, oid: Seq<char>, other: Seq<char>)
    ensures
        lookup(without(s.entries, oid), oid) is None,
        other != oid ==> lookup(without(s.entries, oid), other) == lookup(s.entries, other),
{
    lookup_without(s.entries, oid, other);
}

/// How many answers a request can still ask for.
pub open spec fn answers_left(step: CdpStep<Seq<char>>) -> nat {
    match step {
        CdpStep::Execute(n, s, kind, t) => 6,
        CdpStep::Settle(s, ms, kind, t) => 5,
        CdpStep::Evaluate(s, ValueThen::Rejected, t) => 3,
        CdpStep::Evaluate(s, ValueThen::AwaitMeta, t) => 2,
        CdpStep::Evaluate(s, kind, t) => 1,
        _ => 0,
    }
}

/// Every request comes to an end: each answer leaves fewer to ask for.
pub proof fn requests_come_to_an_end(
    task: CdpTask<Seq<char>>,
    execute: ExecuteThen,
    run: Result<(), Seq<char>>,
    await_kind: AwaitKind,
    settled: bool,
    kind: ValueThen,
    value: Result<JsonValue<Seq<char>>, Seq<char>>,
    meta: Meta<Seq<char>>,
    name: Seq<char>,
    script: Seq<char>,
)
    ensures
        answers_left(executed_step(execute, task, run)) < answers_left(
            CdpStep::Execute(name, script, execute, task),
        ),
        answers_left(settled_step(await_kind, task, settled)) < answers_left(
            CdpStep::Settle(script, task.timeout_ms, await_kind, task),
        ),
        answers_left(value_step(kind, task, value, meta)) < answers_left(
            CdpStep::Evaluate(script, kind, task),
        ),
{
}

/// The reply hands the value over itself.
pub open spec fn hands_over(step: CdpStep<Seq<char>>, value: JsonValue<Seq<char>>) -> bool {
    match step {
        CdpStep::Done(info) => info.value == Some(value) && info.object_id is None,
        _ => false,
    }
}

/// The reply leaves the value in the page, under an id.
pub open spec fn stays_under(step: CdpStep<Seq<char>>, oid: Seq<char>) -> bool {
    match step {
        CdpStep::Done(info) => info.object_id == Some(oid),
        _ => false,
    }
}

/// An awaited call that settles ends as it was asked for: by value with the
/// value that the engine gives for the stored result, and without an id; else
/// with the id under which the result is kept.
pub proof fn awaited_calls_end_as_asked(
    task: CdpTask<Seq<char>>,
    answer: JsonValue<Seq<char>>,
    meta: Meta<Seq<char>>,
)
    ensures
        match settled_step(AwaitKind::CallFunction, task, true) {
            CdpStep::Evaluate(script, kind, after) => {
                &&& after == task
                &&& task.by_value ==> {
                    &&& script == object_expression_text(task.oid)
                    &&& hands_over(value_step(kind, after, Ok(answer), meta), answer)
                }
                &&& !task.by_value ==> {
                    &&& script == "globalThis.__tinybrowser_await_meta"@
                    &&& stays_under(value_step(kind, after, Ok(answer), meta), task.oid)
                    &&& value_keeps(kind, Ok(answer))
                }
            },
            _ => false,
        },
{
}

/// An awaited evaluation that settles is asked first whether the promise was
/// rejected. Where it was not it ends as it was asked for: by value with the
/// value that the engine gives for the stored result, and without an id; else
/// with the id under which the result is kept.
pub proof fn awaited_evaluations_end_as_asked(
    task: CdpTask<Seq<char>>,
    rejected: JsonValue<Seq<char>>,
    described: JsonValue<Seq<char>>,
    answer: JsonValue<Seq<char>>,
    meta: Meta<Seq<char>>,
)
    requires
        rejected != JsonValue::<Seq<char>>::Bool(true),
    ensures
        match settled_step(AwaitKind::Evaluate, task, true) {
            CdpStep::Evaluate(first, kind, t) => {
                &&& first == "globalThis.__tinybrowser_await_rejected"@
                &&& t == task
                &&& match value_step(kind, t, Ok(rejected), meta) {
                    CdpStep::Evaluate(second, kind, t) => {
                        &&& second == "globalThis.__tinybrowser_await_meta"@
                        &&& t == task
                        &&& value_keeps(kind, Ok(described))
                        &&& task.by_value ==> match value_step(kind, t, Ok(described), meta) {
                            CdpStep::Evaluate(third, kind, t) => {
                                &&& third == object_expression_text(task.oid)
                                &&& hands_over(value_step(kind, t, Ok(answer), meta), answer)
                            },
                            _ => false,
                        }
                        &&& !task.by_value ==> stays_under(
                            value_step(kind, t, Ok(described), meta),
                            task.oid,
                        )
                    },
                    _ => false,
                }
            },
            _ => false,
        },
{
}

/// A rejected promise ends an evaluation with an error that tells the reason,
/// and with no result.
pub proof fn rejections_are_told(
    task: CdpTask<Seq<char>>,
    reason: Seq<char>,
    meta: Meta<Seq<char>>,
)
    ensures
        match value_step(
            ValueThen::Rejected,
            task,
            Ok(JsonValue::<Seq<char>>::Bool(true)),
            meta,
        ) {
            CdpStep::Evaluate(script, kind, t) => {
                &&& script == reason_expression_text(task.oid)
                &&& value_step(kind, t, Ok(JsonValue::Text(reason)), meta) == CdpStep::<
                    Seq<char>,
                >::Failed("Promise rejected: "@ + reason)
            },
            _ => false,
        },
{
}

/// A script that fails and a promise that does not settle in time end a
/// request with an error, and nothing is kept for it. A script that ran leads
/// to waiting for its own end, for as long as was asked for.
pub proof fn failures_end_requests(
    task: CdpTask<Seq<char>>,
    kind: AwaitKind,
    then_: ValueThen,
    error: Seq<char>,
    meta: Meta<Seq<char>>,
)
    ensures
        executed_step(ExecuteThen::Settle(kind), task, Err(error)) == CdpStep::<Seq<char>>::Failed(
            "JS error: "@ + error,
        ),
        executed_step(ExecuteThen::Store, task, Err(error)) == CdpStep::<Seq<char>>::Failed(
            "Store error: "@ + error,
        ),
        match executed_step(ExecuteThen::Settle(kind), task, Ok(())) {
            CdpStep::Settle(script, ms, k, t) => {
                &&& ms == task.timeout_ms
                &&& k == kind
                &&& t == task
                &&& script == "globalThis.__tinybrowser_done_"@ + decimal(task.counter as nat)
                    + " === true"@
            },
            _ => false,
        },
        executed_step(ExecuteThen::Store, task, Ok(())) == CdpStep::Stored(task.oid),
        executed_keeps(ExecuteThen::Store, Ok(())),
        !executed_keeps(ExecuteThen::Store, Err(error)),
        !executed_keeps(ExecuteThen::Settle(kind), Ok(())),
        settled_step(AwaitKind::Evaluate, task, false) == CdpStep::<Seq<char>>::Failed(
            "Runtime.evaluate promise did not settle within "@ + decimal(task.timeout_ms as nat)
                + "ms"@,
        ),
        settled_step(AwaitKind::CallFunction, task, false) == CdpStep::<Seq<char>>::Failed(
            "Runtime.callFunctionOn promise did not settle within "@ + decimal(
                task.timeout_ms as nat,
            ) + "ms"@,
        ),
        match value_step(then_, task, Err(error), meta) {
            CdpStep::Failed(e) => {
                &&& then_ == ValueThen::Plain ==> e =~= error
                &&& then_ == ValueThen::StoreMeta ==> e == "Store error: "@ + error
                &&& then_ != ValueThen::Plain && then_ != ValueThen::StoreMeta ==> e
                    == "JS error: "@ + error
            },
            _ => false,
        },
        !value_keeps(then_, Err(error)),
{
}

/// An object is kept exactly where its id is told, or is read in the next
/// step: no reply names an id that was not kept, and none that hands the value
/// over keeps one.
pub proof fn told_ids_are_kept(
    task: CdpTask<Seq<char>>,
    kind: ValueThen,
    value: JsonValue<Seq<char>>,
    meta: Meta<Seq<char>>,
)
    ensures
        match value_step(kind, task, Ok(value), meta) {
            CdpStep::Done(info) => match info.object_id {
                Some(oid) => oid == task.oid && value_keeps(kind, Ok(value)),
                None => info.value == Some(value) && !value_keeps(kind, Ok(value)),
            },
            CdpStep::Evaluate(script, next, after) => {
                &&& after == task
                &&& next == ValueThen::Value ==> value_keeps(kind, Ok(value))
                &&& next != ValueThen::Value ==> !value_keeps(kind, Ok(value))
            },
            _ => !value_keeps(kind, Ok(value)),
        },
{
}

/// An evaluation by value, without awaiting, asks for the expression as it was
/// given and hands its value over; it takes no id. One that is not by value is
/// kept under the next id, and told by it. One that awaits runs a script first,
/// under the next id too, and waits as long as was asked for.
pub proof fn evaluations_start_as_asked(
    s: ObjectsView,
    expression: Seq<char>,
    by_value: bool,
    await_promise: bool,
    timeout_ms: u64,
    answer: JsonValue<Seq<char>>,
    meta: Meta<Seq<char>>,
)
    requires
        s.counter < u64::MAX,
    ensures
        match evaluate_step(s, expression, by_value, await_promise, timeout_ms) {
            CdpStep::Evaluate(script, kind, task) => {
                &&& !await_promise
                &&& by_value ==> script == expression && hands_over(
                    value_step(kind, task, Ok(answer), meta),
                    answer,
                ) && !evaluation_counts(by_value, await_promise)
                &&& !by_value ==> {
                    &&& task.oid == object_id((s.counter + 1) as u64)
                    &&& stays_under(value_step(kind, task, Ok(answer), meta), task.oid)
                    &&& evaluation_counts(by_value, await_promise)
                    &&& script == remote_script_text(
                        trimmed_statement(expression),
                        task.oid,
                        meta_extract_js_text("__result"@),
                    )
                }
            },
            CdpStep::Execute(name, script, kind, task) => {
                &&& await_promise
                &&& kind == ExecuteThen::Settle(AwaitKind::Evaluate)
                &&& name == "<eval-remote>"@
                &&& script == await_script_text(
                    trimmed_statement(expression),
                    task.oid,
                    meta_extract_js_text("__result"@),
                    meta_extract_js_text("e"@),
                    decimal(task.counter as nat),
                )
                &&& task.oid == object_id((s.counter + 1) as u64)
                &&& task.counter == s.counter + 1
                &&& task.by_value == by_value
                &&& task.timeout_ms == timeout_ms
                &&& evaluation_counts(by_value, await_promise)
            },
            _ => false,
        },
{
}

/// A call by value, without awaiting, hands over what the function gives; one
/// that is not by value keeps it under the next id, and tells it by that. One
/// that awaits runs a script first, and waits as long as was asked for.
pub proof fn calls_start_as_asked(
    s: ObjectsView,
    function: Seq<char>,
    object: Option<Seq<char>>,
    args: Seq<CallArgument<Seq<char>>>,
    by_value: bool,
    await_promise: bool,
    timeout_ms: u64,
    answer: JsonValue<Seq<char>>,
    meta: Meta<Seq<char>>,
)
    requires
        s.counter < u64::MAX,
    ensures
        match call_step(s, function, object, args, by_value, await_promise, timeout_ms) {
            CdpStep::Evaluate(script, kind, task) => {
                &&& !await_promise
                &&& by_value ==> hands_over(value_step(kind, task, Ok(answer), meta), answer)
                &&& !by_value ==> {
                    &&& task.oid == object_id((s.counter + 1) as u64)
                    &&& stays_under(value_step(kind, task, Ok(answer), meta), task.oid)
                    &&& script == call_remote_script_text(
                        setup_text(s.entries, args),
                        function,
                        this_expression(s.entries, object),
                        argument_list(args.len()),
                        task.oid,
                        meta_extract_js_text("__result"@),
                    )
                }
            },
            CdpStep::Execute(name, script, kind, task) => {
                &&& await_promise
                &&& kind == ExecuteThen::Settle(AwaitKind::CallFunction)
                &&& name == "<callFnAsync>"@
                &&& script == call_await_script_text(
                    setup_text(s.entries, args),
                    function,
                    this_expression(s.entries, object),
                    argument_list(args.len()),
                    task.oid,
                    meta_extract_js_text("__result"@),
                    decimal(task.counter as nat),
                )
                &&& task.oid == object_id((s.counter + 1) as u64)
                &&& task.counter == s.counter + 1
                &&& task.by_value == by_value
                &&& task.timeout_ms == timeout_ms
            },
            _ => false,
        },
{
}

/// The script of a call holds the function, and calls it on what `this` stands
/// for with the arguments by their names, each of which it has set before.
#[verifier::spinoff_prover]
#[verifier::rlimit(60)]
pub proof fn calls_run_the_function_on_its_object(
    s: ObjectsView,
    function: Seq<char>,
    object: Option<Seq<char>>,
    args: Seq<CallArgument<Seq<char>>>,
    by_value: bool,
    await_promise: bool,
    timeout_ms: u64,
)
    ensures
        ({
            let script: Seq<char> = match call_step(
                s,
                function,
                object,
                args,
                by_value,
                await_promise,
                timeout_ms,
            ) {
                CdpStep::Evaluate(script, kind, task) => script,
                CdpStep::Execute(name, script, kind, task) => script,
                _ => Seq::empty(),
            };
            let core: Seq<char> = setup_text(s.entries, args) + "\nvar __fn = ("@ + function
                + ");\nvar __this = ("@ + this_expression(s.entries, object) + ");\n"@;
            exists|a: Seq<char>, m: Seq<char>, b: Seq<char>|
                #![trigger a + core + m + argument_list(args.len()) + b]
                script == a + core + m + argument_list(args.len()) + b
        }),
{
    let setup: Seq<char> = setup_text(s.entries, args);
    let this: Seq<char> = this_expression(s.entries, object);
    let list: Seq<char> = argument_list(args.len());
    let core: Seq<char> = setup + "\nvar __fn = ("@ + function + ");\nvar __this = ("@ + this
        + ");\n"@;
    let task: CdpTask<Seq<char>> = next_task(s, by_value, timeout_ms);
    let meta: Seq<char> = meta_extract_js_text("__result"@);
    reveal_strlit(");\n");
    if await_promise {
        reveal_strlit(");\nvar __result;\ntry {\n__result = await __fn.call(__this, ");
        let m: Seq<char> = ");\nvar __result;\ntry {\n__result = await __fn.call(__this, "@.skip(3);
        let a: Seq<char> = "(async function() {\n"@;
        let script: Seq<char> = call_await_script_text(
            setup,
            function,
            this,
            list,
            task.oid,
            meta,
            decimal(task.counter as nat),
        );
        let b: Seq<char> = script.skip((a + core + m + list).len() as int);
        assert(");\n"@ + m =~= ");\nvar __result;\ntry {\n__result = await __fn.call(__this, "@);
        assert(script =~= a + core + m + list + b);
    } else if by_value {
        reveal_strlit(");\nreturn __fn.call(__this, ");
        let m: Seq<char> = ");\nreturn __fn.call(__this, "@.skip(3);
        let a: Seq<char> = "(function() {\n"@;
        let script: Seq<char> = call_value_script_text(setup, function, this, list);
        let b: Seq<char> = script.skip((a + core + m + list).len() as int);
        assert(");\n"@ + m =~= ");\nreturn __fn.call(__this, "@);
        assert(script =~= a + core + m + list + b);
    } else {
        reveal_strlit(");\nvar __result = __fn.call(__this, ");
        let m: Seq<char> = ");\nvar __result = __fn.call(__this, "@.skip(3);
        let a: Seq<char> = "(function() {\n"@;
        let script: Seq<char> = call_remote_script_text(
            setup,
            function,
            this,
            list,
            task.oid,
            meta,
        );
        let b: Seq<char> = script.skip((a + core + m + list).len() as int);
        assert(");\n"@ + m =~= ");\nvar __result = __fn.call(__this, "@);
        assert(script =~= a + core + m + list + b);
    }
}

/// An argument is the value that it holds; without one the kept object that it
/// names, `undefined` where none is kept; and without either the expression
/// that it gives, `undefined` where it gives none.
pub proof fn arguments_stand_for_what_they_hold(
    entries: HeaderView,
    arg: CallArgument<Seq<char>>,
)
    ensures
        arg.value is Some ==> argument_expression(entries, arg) == arg.value->0,
        arg.value is None && arg.object_id is Some ==> argument_expression(entries, arg) == (
        if lookup(entries, arg.object_id->0) is Some {
            lookup(entries, arg.object_id->0)->0
        } else {
            "undefined"@
        }),
        arg.value is None && arg.object_id is None && arg.unserializable_value is Some
            ==> argument_expression(entries, arg) == arg.unserializable_value->0,
        arg.value is None && arg.object_id is None && arg.unserializable_value is None
            ==> argument_expression(entries, arg) == "undefined"@,
{
}

/// Every argument is set by a statement of its own under the name by which the
/// list calls it; one more argument adds one statement and one name at the end.
pub proof fn each_argument_has_its_own_name(
    entries: HeaderView,
    args: Seq<CallArgument<Seq<char>>>,
    arg: CallArgument<Seq<char>>,
)
    ensures
        ({
            let name: Seq<char> = "__arg"@ + decimal(args.len());
            let line: Seq<char> = "var "@ + name + " = "@ + argument_expression(entries, arg)
                + ";"@;
            &&& args.len() == 0 ==> setup_text(entries, args.push(arg)) == line && argument_list(
                1,
            ) == name && argument_list(0) =~= Seq::<char>::empty() && setup_text(entries, args)
                =~= Seq::<char>::empty()
            &&& args.len() > 0 ==> setup_text(entries, args.push(arg)) == setup_text(entries, args)
                + "\n"@ + line && argument_list(args.len() + 1) == argument_list(args.len()) + ", "@
                + name
        }),
{
    let n: nat = args.len();
    let more: Seq<CallArgument<Seq<char>>> = args.push(arg);
    let lines: Seq<Seq<char>> = Seq::new(more.len(), |i: int| argument_line(entries, i, more[i]));
    let names: Seq<Seq<char>> = Seq::new((n + 1) as nat, |i: int| argument_name(i));
    assert(lines.drop_last() =~= Seq::new(n, |i: int| argument_line(entries, i, args[i])));
    assert(names.drop_last() =~= Seq::new(n, |i: int| argument_name(i)));
    assert(lines.last() == argument_line(entries, n as int, arg));
    assert(names.last() == argument_name(n as int));
}

/// A call on a kept object has it as `this`, a call on `node-` and a number the
/// node with that number, and any other call the global object.
pub proof fn calls_have_their_object_as_this(
    entries: HeaderView,
    oid: Seq<char>,
    number: Seq<char>,
)
    ensures
        this_expression(entries, None) == "globalThis"@,
        lookup(entries, oid) is Some ==> this_expression(entries, Some(oid)) == lookup(
            entries,
            oid,
        )->0,
        lookup(entries, oid) is None && oid == "node-"@ + number ==> this_expression(
            entries,
            Some(oid),
        ) == node_expression_text(number),
        lookup(entries, oid) is None && (oid.len() < 5 || oid.take(5) != "node-"@)
            ==> this_expression(entries, Some(oid)) == "globalThis"@,
{
    reveal_strlit("node-");
    if oid == "node-"@ + number {
        assert(oid.subrange(0, 5) =~= "node-"@);
        assert(oid.skip(5) =~= number);
    }
    if oid.len() >= 5 {
        assert(oid.subrange(0, 5) =~= oid.take(5));
    }
}

/// A value that is handed over is told with its type: `null` as an object of
/// its own kind, an array as one of its length, any other object as such.
pub proof fn values_are_told_with_their_types(value: JsonValue<Seq<char>>)
    ensures
        ({
            let info: RemoteObjectInfo<Seq<char>> = value_info(value);
            &&& info.value == Some(value)
            &&& info.object_id is None
            &&& match value {
                JsonValue::Null => info.js_type == "object"@ && info.subtype == Some("null"@)
                    && info.description == "null"@,
                JsonValue::Bool(b) => info.js_type == "boolean"@ && info.subtype is None && (b
                    ==> info.description == "true"@) && (!b ==> info.description == "false"@),
                JsonValue::Number(n) => info.js_type == "number"@ && info.subtype is None
                    && info.description == n,
                JsonValue::Text(t) => info.js_type == "string"@ && info.subtype is None
                    && info.description == t,
                JsonValue::Array { len, json } => info.js_type == "object"@ && info.subtype == Some(
                    "array"@,
                ) && info.class_name == "Array"@ && info.description == "Array("@ + decimal(
                    len as nat,
                ) + ")"@,
                JsonValue::Object { json } => info.js_type == "object"@ && info.subtype is None
                    && info.class_name == "Object"@ && info.description == "Object"@,
            }
        }),
{
}

/// A value that stays in the page is told by the description that the page
/// gave, under the id that it is kept by. Only where it is no object and no
/// function is it told by its text too.
pub proof fn kept_values_are_told_by_their_description(
    meta: Meta<Seq<char>>,
    oid: Option<Seq<char>>,
)
    ensures
        ({
            let info: RemoteObjectInfo<Seq<char>> = meta_info(meta, oid);
            &&& info.object_id == oid
            &&& info.subtype == meta.subtype
            &&& meta.js_type is Some ==> info.js_type == meta.js_type->0
            &&& meta.js_type is None ==> info.js_type == "undefined"@
            &&& meta.class_name is Some ==> info.class_name == meta.class_name->0
            &&& meta.description is Some ==> info.description == meta.description->0
            &&& info.js_type == "object"@ || info.js_type == "function"@ ==> info.value is None
            &&& info.js_type != "object"@ && info.js_type != "function"@ && meta.description is Some
                ==> info.value == Some(JsonValue::Text(meta.description->0))
            &&& meta.description is None ==> info.value is None
        }),
{
}

/// What is stored under an id is what the expression for that id reads, and
/// what is deleted when it is let go.
pub proof fn stored_objects_are_read_under_their_id(oid: Seq<char>, expression: Seq<char>)
    ensures
        store_script_text(oid, expression) == object_expression_text(oid) + " = ("@ + expression
            + ");"@,
        release_script_text(oid) == "delete "@ + object_expression_text(oid) + ";"@,
        exists|a: Seq<char>, b: Seq<char>| #[trigger]
            (a + object_expression_text(oid) + b) == reason_expression_text(oid),
{
    reveal_strlit("globalThis.__tinybrowser_objects['");
    reveal_strlit("']");
    reveal_strlit("'] = (");
    reveal_strlit(" = (");
    reveal_strlit("delete globalThis.__tinybrowser_objects['");
    reveal_strlit("delete ");
    reveal_strlit("'];");
    reveal_strlit(";");
    reveal_strlit("String(globalThis.__tinybrowser_objects['");
    reveal_strlit("'] && (globalThis.__tinybrowser_objects['");
    assert("']"@ + " = ("@ =~= "'] = ("@);
    assert(store_script_text(oid, expression) =~= object_expression_text(oid) + " = ("@ + expression
        + ");"@);
    assert("delete "@ + "globalThis.__tinybrowser_objects['"@
        =~= "delete globalThis.__tinybrowser_objects['"@);
    assert("']"@ + ";"@ =~= "'];"@);
    assert(release_script_text(oid) =~= "delete "@ + object_expression_text(oid) + ";"@);
    let a: Seq<char> = "String("@;
    reveal_strlit("String(");
    assert(a + "globalThis.__tinybrowser_objects['"@
        =~= "String(globalThis.__tinybrowser_objects['"@);
    let b: Seq<char> = reason_expression_text(oid).skip(
        (a + object_expression_text(oid)).len() as int,
    );
    assert("'] && (globalThis.__tinybrowser_objects['"@.take(2) =~= "']"@);
    assert(a + object_expression_text(oid) + b =~= reason_expression_text(oid));
}

/// A description is read member by member from the JSON text that the page
/// gave, as a string or as an object; any other value describes nothing.
pub proof fn descriptions_are_read_from_their_json(json: Seq<char>, b: bool, len: usize)
    ensures
        ({
            let m: Meta<Seq<char>> = meta_of(JsonValue::Text(json));
            &&& m.js_type == text_member(json, "type"@)
            &&& m.subtype == text_member(json, "subtype"@)
            &&& m.class_name == text_member(json, "className"@)
            &&& m.description == text_member(json, "description"@)
        }),
        meta_of(JsonValue::Object { json }) == meta_of(JsonValue::Text(json)),
        meta_of(JsonValue::Null) == meta_of(JsonValue::Bool(b)) && meta_of(JsonValue::Null)
            == meta_of(JsonValue::Number(json)) && meta_of(JsonValue::Null) == meta_of(
            JsonValue::Array { len, json },
        ),
        meta_of(JsonValue::<Seq<char>>::Null).js_type is None && meta_of(
            JsonValue::<Seq<char>>::Null,
        ).description is None,
{
}

/// The reply of the engine is the value that it is the JSON of, and a text
/// where it is no JSON. An argument is read member by member from its own.
pub proof fn replies_and_arguments_are_read(
    raw: Seq<char>,
    v: JsonValue<Seq<char>>,
)
    ensures
        replied_value(raw, Some(v)) == v,
        replied_value(raw, None) == JsonValue::Text(raw),
        parsed_argument(raw).value == value_member(raw, "value"@),
        parsed_argument(raw).object_id == text_member(raw, "objectId"@),
        parsed_argument(raw).unserializable_value == text_member(raw, "unserializableValue"@),
{
}

} // verus!
