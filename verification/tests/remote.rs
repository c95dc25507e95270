use rquickjs::{CatchResultExt, Context, Runtime};
use tinybrowser::remote::{
    info_from_json, info_from_meta, read_arguments, read_value, CdpStep, JsonValue, Meta,
    ObjectStore, RemoteObjectInfo, DEFAULT_CDP_AWAIT_TIMEOUT_MS,
};
use tinybrowser::script::{eval_wrapped, load_intl, script_name, set_platform, set_stealth, set_user_agent};

/// A bare engine that serves the steps of a request.
struct Engine {
    objects: ObjectStore,
    runtime: Runtime,
    context: Context,
}

impl Engine {
    fn new() -> Self {
        let runtime = Runtime::new().expect("runtime");
        let context = Context::full(&runtime).expect("context");
        let mut engine = Engine { objects: ObjectStore::new(), runtime, context };
        let setup = engine.objects.release_object_group();
        engine.execute(&setup).expect("setup");
        engine
    }

    fn execute(&self, script: &str) -> Result<(), String> {
        self.context.with(|ctx| {
            ctx.eval::<(), _>(script).catch(&ctx).map_err(|e| e.to_string())
        })
    }

    fn evaluate(&self, expression: &str) -> Result<JsonValue<String>, String> {
        let script = eval_wrapped(expression);
        self.context.with(|ctx| {
            let raw: Result<String, _> = ctx.eval(script.as_str()).catch(&ctx);
            raw.map(read_value).map_err(|e| e.to_string())
        })
    }

    fn run(&mut self, first: CdpStep<String>) -> Result<RemoteObjectInfo<String>, String> {
        let mut step = first;
        loop {
            step = match step {
                CdpStep::Evaluate(expression, kind, task) => {
                    let result = self.evaluate(&expression);
                    self.objects.on_value(kind, task, result)
                }
                CdpStep::Execute(_, script, kind, task) => {
                    let result = self.execute(&script);
                    self.objects.on_executed(kind, task, result)
                }
                CdpStep::Settle(sentinel, _, kind, task) => {
                    while self.runtime.is_job_pending() {
                        let _ = self.runtime.execute_pending_job();
                    }
                    let settled = matches!(self.evaluate(&sentinel), Ok(JsonValue::Bool(true)));
                    ObjectStore::on_settled(kind, task, settled)
                }
                CdpStep::Done(info) => return Ok(info),
                CdpStep::Stored(oid) => return Err(oid),
                CdpStep::Failed(e) => return Err(e),
            };
        }
    }

    fn call(
        &mut self,
        function: &str,
        object: Option<&str>,
        arguments: &[&str],
        by_value: bool,
    ) -> Result<RemoteObjectInfo<String>, String> {
        let texts: Vec<String> = arguments.iter().map(|a| a.to_string()).collect();
        let arguments = read_arguments(&texts);
        let step = self.objects.call_function_on(function, object, &arguments, by_value);
        self.run(step)
    }
}

fn number(value: Option<JsonValue<String>>) -> i64 {
    match value {
        Some(JsonValue::Number(n)) => n.parse().expect("an integer"),
        _ => panic!("a number was due"),
    }
}

fn text(value: Option<JsonValue<String>>) -> String {
    match value {
        Some(JsonValue::Text(s)) => s,
        _ => panic!("a text was due"),
    }
}

#[test]
fn evaluate_one_plus_one() {
    assert_eq!(number(Engine::new().evaluate("1+1").ok()), 2);
}

#[test]
fn test_evaluate_multistatement() {
    let engine = Engine::new();
    assert_eq!(number(engine.evaluate("var x = 5; var y = 10; return x + y;").ok()), 15);
}

#[test]
fn test_call_function_on_no_args() {
    let mut engine = Engine::new();
    engine.execute("globalThis.document = { title: 'Test' };").unwrap();
    let result = engine.call("() => document.title", None, &[], true).unwrap();
    assert_eq!(text(result.value), "Test");
}

#[test]
fn test_call_function_on_with_args() {
    let mut engine = Engine::new();
    let result = engine
        .call("(a, b) => a + b", None, &["{\"value\":10}", "{\"value\":20}"], true)
        .unwrap();
    assert_eq!(number(result.value), 30);
}

#[test]
fn test_call_function_on_with_string_args() {
    let mut engine = Engine::new();
    let result = engine
        .call("(a, b) => a + b", None, &["{\"value\":\"hello\"}", "{\"value\":\" world\"}"], true)
        .unwrap();
    assert_eq!(text(result.value), "hello world");
}

#[test]
fn test_call_function_on_with_object_args() {
    let mut engine = Engine::new();
    let result = engine
        .call(
            "(obj) => obj.name + ':' + obj.count",
            None,
            &["{\"value\":{\"name\":\"test\",\"count\":5}}"],
            true,
        )
        .unwrap();
    assert_eq!(text(result.value), "test:5");
}

#[test]
fn test_call_function_on_return_object() {
    let mut engine = Engine::new();
    let result = engine.call("() => ({a: 1, b: 2})", None, &[], true).unwrap();
    assert!(matches!(result.value, Some(JsonValue::Object { json }) if json == "{\"a\":1,\"b\":2}"));
}

#[test]
fn test_call_function_on_object_ref_preserves_methods() {
    let mut engine = Engine::new();
    let result = engine
        .call(
            "() => ({ items: [1,2,3], getLen: function() { return this.items.length; } })",
            None,
            &[],
            false,
        )
        .unwrap();
    let oid = result.object_id.unwrap();
    let result2 = engine
        .call("function() { return this.getLen(); }", Some(&oid), &[], true)
        .unwrap();
    assert_eq!(number(result2.value), 3);
}

#[test]
fn test_object_ref_as_argument() {
    let mut engine = Engine::new();
    let obj = engine.call("() => ({ x: 42 })", None, &[], false).unwrap();
    let oid = obj.object_id.unwrap();
    let argument = format!("{{\"objectId\":{}}}", serde_json::Value::from(oid));
    let result = engine.call("(obj) => obj.x * 2", None, &[&argument], true).unwrap();
    assert_eq!(number(result.value), 84);
}

#[test]
fn test_evaluate_for_cdp_awaits_resolved_promise() {
    let mut engine = Engine::new();
    let step = engine.objects.evaluate_for_cdp("Promise.resolve(42)", true, true);
    assert_eq!(number(engine.run(step).unwrap().value), 42);
}

#[test]
fn test_evaluate_for_cdp_awaits_async_function() {
    let mut engine = Engine::new();
    let step = engine.objects.evaluate_for_cdp("(async () => 'async-ok')()", true, true);
    assert_eq!(text(engine.run(step).unwrap().value), "async-ok");
}

#[test]
fn test_evaluate_for_cdp_reports_promise_rejection() {
    let mut engine = Engine::new();
    let step = engine.objects.evaluate_for_cdp("Promise.reject(new Error('boom'))", true, true);
    let err = engine.run(step).err().unwrap();
    assert!(err.contains("boom"));
    assert_eq!(err, "Promise rejected: boom");
}

#[test]
fn test_call_function_on_for_cdp_reports_unsettled_promise_timeout() {
    let mut engine = Engine::new();
    let step = engine.objects.call_function_on_for_cdp_with_timeout(
        "() => new Promise(() => {})",
        None,
        &vec![],
        true,
        true,
        25,
    );
    let error = engine.run(step).err().unwrap();
    assert!(error.contains("did not settle within 25ms"), "unexpected timeout error: {error}");
}

#[test]
fn default_timeouts_are_told() {
    let mut objects = ObjectStore::new();
    match objects.evaluate_for_cdp("x", false, true) {
        CdpStep::Execute(name, _, _, task) => {
            assert_eq!(name, "<eval-remote>");
            assert_eq!(task.timeout_ms, DEFAULT_CDP_AWAIT_TIMEOUT_MS);
        }
        _ => panic!("a script runs first"),
    }
    match objects.call_function_on_for_cdp("f", None, &vec![], false, true) {
        CdpStep::Execute(name, _, _, task) => {
            assert_eq!(name, "<callFnAsync>");
            assert_eq!(task.timeout_ms, 30_000);
        }
        _ => panic!("a script runs first"),
    }
}

#[test]
fn objects_are_described_kept_and_released() {
    let mut engine = Engine::new();
    let step = engine.objects.evaluate_for_cdp("[1,2,3]", false, false);
    let info = engine.run(step).unwrap();
    assert_eq!(info.js_type, "object");
    assert_eq!(info.subtype.as_deref(), Some("array"));
    assert_eq!(info.class_name, "Array");
    let first = info.object_id.unwrap();
    assert_eq!(first, "{\"injectedScriptId\":1,\"id\":1}");
    let step = engine.objects.store_object_with_meta("({ y: 7 })");
    let second = engine.run(step).unwrap().object_id.unwrap();
    assert_ne!(first, second);
    let result = engine.call("function() { return this.y; }", Some(&second), &[], true).unwrap();
    assert_eq!(number(result.value), 7);
    let script = engine.objects.release_object(&second).expect("it was kept");
    engine.execute(&script).unwrap();
    assert!(engine.objects.release_object(&second).is_none());
    assert_eq!(engine.objects.resolve_this(Some(&second)), "globalThis");
    assert_ne!(engine.objects.resolve_this(Some(&first)), "globalThis");
    engine.objects.release_object_group();
    assert_eq!(engine.objects.resolve_this(Some(&first)), "globalThis");
}

#[test]
fn stored_objects_are_found_by_their_id() {
    let mut engine = Engine::new();
    let step = engine.objects.store_object("({ z: 5 })");
    let oid = engine.run(step).err().expect("the id comes back");
    assert_eq!(oid, ObjectStore::make_oid(1));
    let result = engine.call("function() { return this.z; }", Some(&oid), &[], true).unwrap();
    assert_eq!(number(result.value), 5);
    let step = engine.objects.store_object("(");
    let e = engine.run(step).err().unwrap();
    assert!(e.starts_with("Store error: "), "{e}");
}

#[test]
fn nodes_and_missing_objects_have_their_receivers() {
    let objects = ObjectStore::new();
    assert_eq!(objects.resolve_this(None), "globalThis");
    assert!(objects.resolve_this(Some("node-12")).contains("12"));
    let args = read_arguments(&vec![
        "{\"unserializableValue\":\"NaN\"}".to_string(),
        "{\"objectId\":\"gone\"}".to_string(),
        "{}".to_string(),
        "not json".to_string(),
    ]);
    let (setup, list) = objects.build_args(&args);
    assert_eq!(
        setup,
        "var __arg0 = NaN;\nvar __arg1 = undefined;\nvar __arg2 = undefined;\nvar __arg3 = undefined;"
    );
    assert_eq!(list, "__arg0, __arg1, __arg2, __arg3");
}

#[test]
fn values_are_described() {
    let info = |json: &str| info_from_json(read_value(json.to_string()));
    let n = info("5");
    assert_eq!((n.js_type.as_str(), n.class_name.as_str(), n.description.as_str()), ("number", "", "5"));
    assert_eq!(info("true").js_type, "boolean");
    assert_eq!(info("\"x\"").js_type, "string");
    let null = info("null");
    assert_eq!((null.js_type.as_str(), null.subtype.as_deref()), ("object", Some("null")));
    let array = info("[1,2]");
    assert_eq!(array.description, "Array(2)");
    assert_eq!(array.subtype.as_deref(), Some("array"));
    assert_eq!(info("{}").class_name, "Object");
    assert_eq!(text(info("not json").value), "not json");
    let empty = Meta { js_type: None, subtype: None, class_name: None, description: None };
    let r = info_from_meta(empty, Some("id".to_string()));
    assert_eq!(r.object_id.as_deref(), Some("id"));
    assert!(r.value.is_none());
}

#[test]
fn failed_scripts_tell_their_error() {
    let mut engine = Engine::new();
    let step = engine.objects.evaluate_for_cdp("(", false, true);
    let e = engine.run(step).err().unwrap();
    assert!(e.starts_with("JS error: "), "{e}");
    assert!(matches!(engine.evaluate("missing.name").unwrap(), JsonValue::Null));
}

#[test]
fn the_user_agent_is_read_back() {
    let engine = Engine::new();
    engine.execute(&set_user_agent("It's a \\ test")).unwrap();
    assert_eq!(text(engine.evaluate("globalThis.__tinybrowser_ua").ok()), "It's a \\ test");
}

#[test]
fn page_settings_are_scripts() {
    let engine = Engine::new();
    engine.execute(&set_platform("O's", "W", "10")).unwrap();
    engine.execute(&set_stealth(true)).unwrap();
    assert_eq!(script_name(""), "eval_script");
    assert_eq!(script_name("x.js"), "x.js");
    engine.execute(&load_intl(Some("Asia/Tokyo"))).unwrap();
    assert_eq!(
        text(engine.evaluate("Intl.DateTimeFormat().resolvedOptions().timeZone").ok()),
        "Asia/Tokyo"
    );
    let other = Engine::new();
    other.execute(&load_intl(Some(""))).unwrap();
    assert_eq!(
        text(other.evaluate("Intl.DateTimeFormat().resolvedOptions().timeZone").ok()),
        "Europe/Berlin"
    );
}
