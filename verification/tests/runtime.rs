use tinybrowser::host::{HostLoop, LoopAction, TickStep, FETCH_POLL, LATEST_INSTANT, MILLISECOND};
use tinybrowser::module::{
    budget_exhausted, evaluate_prepared_module, module_request, module_target, name_module,
    request_module_source, ModuleLoader, ModuleReply, PreparedModule, Referrers,
};
use tinybrowser::quiet::{
    after_tick, poll_module, remaining_deadline_ms, resolve_promises_until, AwaitStep, ModuleStep,
    Observation, Quiescence, QuietStep, TickEnd,
};
use tinybrowser::remote::JsonValue;
use tinybrowser::runtime::JsRuntime;
use tinybrowser::state::{
    op_shadow_attach_inner, op_shadow_root_info_inner, shadow_attach_reply, RuntimeState,
    ShadowAttach, ShadowRootMode,
};
use tinybrowser::text_codec::text_decode;
use tinybrowser::urls::url_parse;
use tinybrowser::watchdog::{
    bounded_watchdog_ms, evaluate_with_timeout, execute_script_guarded,
    execute_script_with_timeout, quiescent_outcome, runs_guarded, InterruptFlags, Watchdog,
    WatchdogStep,
};
use tinybrowser::{crypto, dom};

fn ms(n: u128) -> u128 {
    n * MILLISECOND
}

fn s(text: &str) -> String {
    text.to_string()
}

#[test]
fn location_href_does_not_switch_cookie_origin_before_commit() {
    let mut rt = JsRuntime::new();
    rt.set_url("https://victim.test/");
    rt.state.op_navigate_inner("https://evil.test/stolen", "GET", "");
    assert_eq!(rt.cookie_url(true), Some(s("https://victim.test/")));
    assert_eq!(
        rt.take_pending_navigation(),
        Some((s("https://evil.test/stolen"), s("GET"), s("")))
    );
    assert!(rt.take_pending_navigation().is_none());
    assert!(rt.cookie_url(false).is_none());
}

#[test]
fn cancel_timer_prevents_the_callback() {
    let mut host = HostLoop::new();
    let id = host.queue_timer(0, 0);
    host.cancel_timer(id);
    assert!(host.take_due(ms(20)).is_empty());
}

#[test]
fn posted_task_settles_on_a_later_turn() {
    let mut host = HostLoop::new();
    host.push_posted(7);
    assert!(host.has_posted());
    assert_eq!(host.run_event_loop_bounded(false, 0, ms(20)), LoopAction::Again);
    assert_eq!(host.pop_posted(), Some(7));
    assert_eq!(host.pop_posted(), None);
    assert_eq!(host.run_event_loop_bounded(false, 0, ms(20)), LoopAction::Return);
}

#[test]
fn timers_fire_in_the_order_they_were_made() {
    let mut host = HostLoop::new();
    let late = host.queue_timer(0, ms(30));
    let early = host.queue_timer(0, ms(10));
    let same = host.queue_timer(0, ms(10));
    assert_eq!(host.next_deadline(), Some(ms(10)));
    assert!(!host.has_due(ms(9)));
    assert_eq!(host.take_due(ms(10)), vec![early, same]);
    assert_eq!(host.take_due(ms(40)), vec![late]);
    assert!(host.take_due(ms(40)).is_empty());
}

#[test]
fn bounded_runs_wait_for_what_comes_first() {
    let mut host = HostLoop::new();
    assert_eq!(host.run_event_loop_bounded(true, ms(5), ms(5)), LoopAction::Return);
    assert_eq!(host.run_event_loop_bounded(true, 0, ms(5)), LoopAction::Again);
    host.queue_timer(0, ms(3));
    assert_eq!(host.run_event_loop_bounded(false, 0, ms(5)), LoopAction::Sleep(ms(3)));
    assert_eq!(host.run_event_loop_bounded(false, 0, ms(2)), LoopAction::Return);
    let id = host.push_fetch();
    assert_eq!(host.run_event_loop_bounded(false, 0, ms(2)), LoopAction::AwaitFetch(ms(2)));
    assert_eq!(host.run_event_loop_bounded(false, 0, ms(9)), LoopAction::AwaitFetch(ms(3)));
    assert!(host.take_fetch(id));
    assert!(!host.take_fetch(id));
}

#[test]
fn cooperative_turns_sleep_until_the_next_work() {
    let mut host = HostLoop::new();
    assert_eq!(host.run_cooperative_event_loop_tick(false, 0), TickStep::Idle);
    assert!(host.is_idle(false));
    assert!(!host.is_idle(true));
    host.queue_timer(0, ms(4));
    assert_eq!(host.run_cooperative_event_loop_tick(false, ms(1)), TickStep::Sleep(ms(3)));
    host.push_fetch();
    assert_eq!(host.next_wait_instant(0), Some(ms(4)));
    host.take_due(ms(4));
    assert_eq!(host.next_wait_instant(ms(4)), Some(ms(4) + FETCH_POLL));
}

#[test]
fn stateless_ops_round_trip() {
    assert!(url_parse("https://a.com/x?y=1#z", "").contains("\"ok\":true"));
    assert_eq!(text_decode(Some(s("hi"))), "{\"ok\":true,\"v\":\"hi\"}");
    assert_eq!(crypto::subtle_digest("SHA-256", &[]).len(), 32);
    assert_eq!(crypto::random_bytes(8).unwrap().len(), 8);
}

#[test]
fn absolute_path_is_not_a_filesystem_module() {
    let err = module_target("/etc/passwd").expect_err("bare paths must not be read from disk");
    assert!(err.contains("Invalid module URL"), "got {err}");
}

#[test]
fn module_requests_carry_their_document_and_referrer() {
    let q = module_request("https://a.test/m.js", "https://a.test", "https://a.test/main.js");
    match q {
        Ok(q) => assert_eq!(
            (q.url, q.document_url, q.referrer),
            (s("https://a.test/m.js"), s("https://a.test/"), s("https://a.test/main.js"))
        ),
        Err(e) => panic!("{e}"),
    }
    assert_eq!(
        module_request("https://a.test/m.js", "nowhere", "https://a.test/").err().unwrap(),
        "Invalid module URL https://a.test/m.js"
    );
    assert_eq!(module_target("https://A.test/m.js"), Ok(s("https://a.test/m.js")));
    assert_eq!(
        module_target("/m.js"),
        Err(s("Invalid module URL /m.js: relative URL without a base"))
    );
}

#[test]
fn module_timeouts_are_told() {
    let err = request_module_source("http://a.test/m.js", 50, ModuleReply::TimedOut).unwrap_err();
    assert!(err.contains("timed out"), "got {err}");
    assert_eq!(err, "Module graph load timed out after 50ms: http://a.test/m.js");
}

#[test]
fn module_replies_give_their_source() {
    let found = ModuleReply::Answered(Ok((s("http://a.test/final.js"), s("export {}"))));
    assert_eq!(request_module_source("u", 1, found), Ok(s("export {}")));
    let failed = ModuleReply::Answered(Err(s("404")));
    assert_eq!(request_module_source("u", 1, failed), Err(s("404")));
    assert_eq!(
        request_module_source("u", 1, ModuleReply::Closed),
        Err(s("module fetch reply closed"))
    );
}

#[test]
fn modules_report_how_they_ended() {
    let inline = || PreparedModule::prepare_inline_module("code", "https://example.com/");
    let entry = || PreparedModule::prepare_module("https://example.com/m.js", s("code"));
    assert!(inline().is_inline());
    assert!(!entry().is_inline());
    assert_eq!(evaluate_prepared_module(inline(), 20, false, Ok(())), Ok(()));
    let e = evaluate_prepared_module(inline(), 20, false, Err(s("load: bare-specifier"))).unwrap_err();
    assert!(e.contains("Inline module load error"), "{e}");
    let e = evaluate_prepared_module(inline(), 20, false, Err(s("eval: module-evaluation-boom")))
        .unwrap_err();
    assert!(e.contains("Inline module eval error") && e.contains("module-evaluation-boom"), "{e}");
    let e = evaluate_prepared_module(inline(), 20, false, Err(s("timeout"))).unwrap_err();
    assert!(e.contains("Inline module evaluation timed out after 20ms"), "{e}");
    let e = evaluate_prepared_module(entry(), 20, true, Ok(())).unwrap_err();
    assert!(e.contains("evaluation timed out after 20ms"), "{e}");
    let e = evaluate_prepared_module(entry(), 20, false, Err(s("other"))).unwrap_err();
    assert!(e.ends_with(": other"), "{e}");
    assert!(budget_exhausted(None, 9).contains("9ms load+evaluation budget"));
    assert!(budget_exhausted(Some("https://a.test/m.js"), 9).contains("https://a.test/m.js"));
}

#[test]
fn inline_modules_have_names_of_their_own() {
    let mut sequence: u64 = 0;
    let a = name_module(&mut sequence, "https://a.test/", true);
    let b = name_module(&mut sequence, "https://a.test/", true);
    assert_ne!(a, b);
    assert_eq!(name_module(&mut sequence, "https://a.test/m.js", false), "https://a.test/m.js");
}

#[test]
fn module_loader_stores_proxy_for_dynamic_imports() {
    let loader = ModuleLoader::with_proxy(
        "https://example.com/",
        Some("http://proxy.test:8080".to_string()),
    );
    assert_eq!(loader.proxy_url.as_deref(), Some("http://proxy.test:8080"));
    assert_eq!(loader.base_url, "https://example.com/");

    let direct = ModuleLoader::new("https://example.com/");
    assert_eq!(direct.proxy_url, None);
}

#[test]
fn referrers_are_who_asked_last() {
    let mut r = Referrers::new();
    assert_eq!(r.load_source("m", "https://doc.test/"), "https://doc.test/");
    r.note("m", "first");
    r.note("n", "other");
    r.note("m", "second");
    assert_eq!(r.load_source("m", "https://doc.test/"), "second");
    assert_eq!(r.load_source("n", "https://doc.test/"), "other");
}

#[test]
fn watchdogs_fire_at_the_end_of_their_budget() {
    let mut flags = InterruptFlags::new();
    let handle = flags.isolate_handle();
    let mut token = Watchdog::spawn_quickjs_watchdog(0, ms(50));
    assert_eq!(token.poll(handle, &mut flags, ms(20)), WatchdogStep::Wait(ms(30)));
    assert!(!flags.interrupted(handle));
    assert_eq!(token.poll(handle, &mut flags, ms(50)), WatchdogStep::Ended);
    assert!(flags.interrupted(handle));
    assert!(token.disarm_watchdog(handle, &mut flags));
    assert!(!flags.interrupted(handle));
    handle.terminate_execution(&mut flags);
    handle.cancel_termination(&mut flags);
    assert!(!flags.interrupted(handle));
}

#[test]
fn stopped_watchdogs_never_fire() {
    let mut flags = InterruptFlags::new();
    let handle = flags.isolate_handle();
    let mut token = Watchdog::spawn_quickjs_watchdog(0, ms(5_000));
    token.poll(handle, &mut flags, ms(1));
    assert!(!token.disarm_watchdog(handle, &mut flags));
    assert_eq!(token.poll(handle, &mut flags, ms(9_000)), WatchdogStep::Ended);
    assert!(!flags.interrupted(handle));
}

#[test]
fn handles_on_a_runtime_read_one_flag() {
    let mut flags = InterruptFlags::new();
    let first = flags.isolate_handle();
    let second = flags.isolate_handle();
    let clone = first;
    clone.terminate_execution(&mut flags);
    assert!(flags.interrupted(first));
    assert!(flags.interrupted(clone));
    assert!(!flags.interrupted(second));
    first.terminate_execution(&mut flags);
    assert_eq!(flags.raised, vec![true, false]);
    second.cancel_termination(&mut flags);
    assert!(flags.interrupted(clone));
    first.cancel_termination(&mut flags);
    assert!(!flags.interrupted(clone));
}

#[test]
fn timed_out_scripts_count_as_done() {
    assert_eq!(execute_script_with_timeout(Err(s("interrupted")), true), Ok(()));
    assert_eq!(execute_script_with_timeout(Ok(()), false), Ok(()));
    assert_eq!(
        execute_script_with_timeout(Err(s("JS error: x")), false),
        Err(s("JS error: x"))
    );
}

#[test]
fn guarded_runs_report_their_outcome() {
    assert!(!runs_guarded("short"));
    assert!(runs_guarded(&"x".repeat(10_000)));
    assert_eq!(execute_script_guarded(Err(s("e")), true), Ok(()));
    assert_eq!(execute_script_guarded(Err(s("e")), false), Err(s("e")));
    assert_eq!(quiescent_outcome(Err(s("e")), false), Err(s("e")));
    assert!(evaluate_with_timeout(Ok(JsonValue::Null), true).is_err());
    assert!(matches!(evaluate_with_timeout(Ok(JsonValue::Null), false), Ok(JsonValue::Null)));
    assert!(bounded_watchdog_ms(1) >= 1);
}

fn seen(now: u128, generation: u64) -> Observation {
    Observation { now, generation, near_timeout: false, network_pending: false, scripts_pending: false }
}

#[test]
fn quiet_pages_end_after_the_quiet_window() {
    let mut q = Quiescence::run_event_loop_until_quiescent(1_000, 50, 0, 3).unwrap();
    match q.observe(&seen(0, 3)) {
        QuietStep::Tick { until, watchdog } => {
            assert_eq!(until, ms(50));
            assert!(watchdog > ms(50));
        }
        QuietStep::Stop => panic!("the window has just begun"),
    }
    assert!(matches!(q.observe(&seen(ms(30), 4)), QuietStep::Tick { until, .. } if until == ms(80)));
    assert!(matches!(q.observe(&seen(ms(70), 4)), QuietStep::Tick { .. }));
    assert_eq!(q.observe(&seen(ms(80), 4)), QuietStep::Stop);
    assert!(Quiescence::run_event_loop_until_quiescent(0, 50, 0, 3).is_none());
}

#[test]
fn runs_never_outlast_their_budget() {
    let mut q = Quiescence::run_event_loop_until_quiescent(100, 50, 0, 0).unwrap();
    let mut busy = seen(ms(101), 1);
    busy.network_pending = true;
    assert_eq!(q.observe(&busy), QuietStep::Stop);
    assert!(Quiescence::watchdog_budget(100) > ms(100));
}

#[test]
fn ticks_end_the_run_or_do_not() {
    assert_eq!(after_tick(TickEnd::Idle, false), Some(Ok(())));
    assert_eq!(after_tick(TickEnd::More, false), None);
    assert_eq!(after_tick(TickEnd::Failed(s("e")), false), Some(Err(s("e"))));
}

#[test]
fn promises_are_awaited_in_slices() {
    let mut slice: u64 = 1;
    assert_eq!(resolve_promises_until(&mut slice, true, 0, ms(10)), AwaitStep::Over(true));
    assert!(matches!(resolve_promises_until(&mut slice, false, 0, ms(10)), AwaitStep::Pump(_)));
    assert_eq!(resolve_promises_until(&mut slice, false, ms(10), ms(10)), AwaitStep::Over(false));
    assert_eq!(remaining_deadline_ms(ms(10), ms(10)), None);
    assert_eq!(remaining_deadline_ms(ms(10), ms(3)), Some(7));
    assert!(ms(10) <= LATEST_INSTANT);
}

#[test]
fn modules_are_polled_until_they_settle() {
    assert_eq!(poll_module(1, ms(99), ms(10)), ModuleStep::Done);
    assert_eq!(poll_module(2, 0, ms(10)), ModuleStep::Threw);
    assert_eq!(poll_module(0, ms(10), ms(10)), ModuleStep::TimedOut);
    assert!(matches!(poll_module(0, 0, ms(10)), ModuleStep::Pump(_)));
}

#[test]
fn runtime_with_base_url_and_proxy_constructs_successfully() {
    let direct = JsRuntime::with_base_url_and_proxy("https://example.com/", None);
    let proxied = JsRuntime::with_base_url_and_proxy(
        "https://example.com/",
        Some(s("http://proxy.test:8080")),
    );
    assert_eq!(direct.state.url, "https://example.com/");
    assert_eq!(proxied.state.url, "https://example.com/");
}

#[test]
fn document_referrer_has_explicit_navigation_state() {
    let node = dom::tree::Node {
        data: dom::tree::NodeData::Document,
        parent: None,
        first_child: None,
        last_child: None,
        next_sibling: None,
        prev_sibling: None,
        children: vec![],
        connected: true,
        depth: 0,
        index: 0,
        height: 0,
    };
    let mut rt = JsRuntime::new();
    rt.set_dom(dom::tree::DomTree::build(vec![Some(node)], 0).expect("a tree"));
    let referrer = |rt: &mut JsRuntime| {
        match dom::command::op_dom_inner(&mut rt.state, "document_referrer", "", "") {
            dom::command::Step::Done(reply) => reply,
            dom::command::Step::Ask(_, _) => panic!("the page knows"),
        }
    };
    assert_eq!(referrer(&mut rt), "\"\"");
    rt.set_referrer("https://source.example/path?q=1");
    assert_eq!(referrer(&mut rt), "\"https://source.example/path?q=1\"");
}

#[test]
fn page_values_are_kept_and_taken() {
    let mut rt = JsRuntime::with_base_url("https://a.test/");
    rt.set_encoding("UTF-8");
    rt.set_title("T");
    rt.set_blocked_urls(vec![s("*")]);
    rt.set_intercept_enabled(true);
    assert_eq!(rt.state.title, "T");
    rt.state.op_binding_called_inner("name", "payload");
    assert_eq!(rt.take_pending_binding_calls(), vec![(s("name"), s("payload"))]);
    assert!(rt.take_pending_binding_calls().is_empty());
    assert!(rt.fetched_urls().is_empty());
    assert!(rt.take_dom().is_none());
    rt.restore_started_script_ids(&vec![5, 3]);
    assert!(rt.started_script_ids().is_empty());
    assert_eq!(JsRuntime::default().state.url, JsRuntime::new().state.url);
}

#[test]
fn shadow_roots_are_told() {
    let state = RuntimeState::new();
    assert_eq!(op_shadow_attach_inner(&state, "open"), Err(-1));
    assert_eq!(shadow_attach_reply(ShadowAttach::Attached(9)), 9);
    assert_eq!(shadow_attach_reply(ShadowAttach::HostAlreadyHasShadowRoot), -2);
    assert_eq!(shadow_attach_reply(ShadowAttach::Refused), -1);
    assert_eq!(op_shadow_root_info_inner(Some((9, ShadowRootMode::Closed))), "9\0closed");
    assert_eq!(op_shadow_root_info_inner(None), "");
}
