use sin90::http::ai_runs::{
    claim, get_ai_run, new_run_id, AiCall, AiRunItem, BusyGuard, RunRegistry, MAX_TRACKED_RUNS,
};
use sin90::json::Json;
use sin90::model::Capability;

fn render(j: &Json) -> String {
    match j {
        Json::Null => "null".to_string(),
        Json::Bool(b) => format!("{b}"),
        Json::Number(n) => n.clone(),
        Json::Text(t) => format!("{t:?}"),
        Json::List(v) => format!("[{}]", v.iter().map(render).collect::<Vec<_>>().join(",")),
        Json::Object(f) => format!(
            "{{{}}}",
            f.iter()
                .map(|(k, v)| format!("{k:?}:{}", render(v)))
                .collect::<Vec<_>>()
                .join(",")
        ),
    }
}

fn item(target: &str, result: &str, reason: Option<&'static str>) -> AiRunItem {
    AiRunItem {
        target: target.into(),
        result: result.into(),
        reason,
    }
}

#[test]
fn run_registry_eviction_skips_still_running_entries() {
    let mut reg = RunRegistry::default();
    reg.start(Capability::Classify, "run-still-going"); // oldest, never finished
    for i in 0..63 {
        let id = format!("run-done-{i}");
        reg.start(Capability::Classify, &id);
        reg.finish(Capability::Classify, &id, "done", Vec::new());
    }
    // 64 entries in total, and "run-still-going" is the oldest. One more
    // `start` forces an eviction.
    reg.start(Capability::Classify, "run-final");
    assert!(
        reg.get("run-still-going").is_some(),
        "the oldest entry, still running, must survive eviction"
    );
    assert!(
        reg.get("run-done-0").is_none(),
        "the oldest DONE entry should have been evicted instead"
    );
}

#[test]
fn no_more_than_the_limit_is_remembered() {
    let mut reg = RunRegistry::default();
    for i in 0..200 {
        let id = format!("r{i}");
        reg.start(Capability::Propose, &id);
        reg.finish(Capability::Propose, &id, "done", Vec::new());
    }
    let remembered = (0..200).filter(|i| reg.get(&format!("r{i}")).is_some()).count();
    assert_eq!(remembered, MAX_TRACKED_RUNS);
    assert!(reg.get("r135").is_none());
    assert!(reg.get("r136").is_some());
}

#[test]
fn when_every_run_is_running_none_is_forgotten() {
    let mut reg = RunRegistry::default();
    for i in 0..70 {
        reg.start(Capability::Summarize, &format!("r{i}"));
    }
    assert!((0..70).all(|i| reg.get(&format!("r{i}")).is_some()));
}

#[test]
fn the_slots_are_independent() {
    let mut reg = RunRegistry::default();
    assert_eq!(reg.busy_run(Capability::Classify), None);
    reg.start(Capability::Classify, "c");
    reg.start(Capability::Propose, "p");
    assert_eq!(reg.busy_run(Capability::Classify).as_deref(), Some("c"));
    assert_eq!(reg.busy_run(Capability::Propose).as_deref(), Some("p"));
    assert_eq!(reg.busy_run(Capability::Summarize), None);
    reg.finish(Capability::Classify, "c", "done", vec![item("t", "nothing", None)]);
    assert_eq!(reg.busy_run(Capability::Classify), None);
    assert_eq!(reg.busy_run(Capability::Propose).as_deref(), Some("p"));
    let rec = reg.get("c").unwrap();
    assert_eq!(rec.state, "done");
    assert_eq!(rec.capability, "classify");
    assert_eq!(rec.items.len(), 1);
    assert_eq!(reg.get("p").unwrap().state, "running");
}

#[test]
fn finishing_an_unknown_run_only_frees_the_slot() {
    let mut reg = RunRegistry::default();
    reg.start(Capability::Classify, "known");
    reg.finish(Capability::Classify, "unknown", "done", Vec::new());
    assert_eq!(reg.busy_run(Capability::Classify), None);
    assert!(reg.get("unknown").is_none());
    assert_eq!(reg.get("known").unwrap().state, "running");
}

#[test]
fn a_second_claim_is_told_who_holds_the_slot_until_it_is_free() {
    let mut reg = RunRegistry::default();
    let (reply, guard) = claim(&mut reg, Capability::Summarize, new_run_id("A"));
    assert_eq!(reply.status, 202);
    assert_eq!(
        render(&reply.body),
        r#"{"run_id":"run-A","capability":"summarize"}"#
    );
    let mut guard = guard.unwrap();
    assert_eq!(guard.run_id(), "run-A");

    let (busy, none) = claim(&mut reg, Capability::Summarize, new_run_id("B"));
    assert_eq!(busy.status, 409);
    assert_eq!(render(&busy.body), r#"{"code":"ai_busy","run_id":"run-A"}"#);
    assert!(none.is_none());
    assert!(reg.get("run-B").is_none());

    guard.finish(&mut reg, "done", vec![item("r", "proposed", None)]);
    guard.release(&mut reg);
    assert_eq!(reg.get("run-A").unwrap().state, "done");
    assert_eq!(reg.get("run-A").unwrap().items.len(), 1);
    let (again, guard) = claim(&mut reg, Capability::Summarize, new_run_id("C"));
    assert_eq!(again.status, 202);
    assert!(guard.is_some());
}

#[test]
fn an_abandoned_run_is_aborted_and_frees_its_slot() {
    let mut reg = RunRegistry::default();
    reg.start(Capability::Classify, "run-x");
    let mut guard = BusyGuard::new(Capability::Classify, "run-x".into());
    guard.release(&mut reg);
    assert_eq!(reg.busy_run(Capability::Classify), None);
    let rec = reg.get("run-x").unwrap();
    assert_eq!(rec.state, "aborted");
    assert!(rec.items.is_empty());
    // Letting go twice does nothing to a later run.
    reg.start(Capability::Classify, "run-y");
    guard.release(&mut reg);
    assert_eq!(reg.busy_run(Capability::Classify).as_deref(), Some("run-y"));
    // Nor does a late report.
    guard.finish(&mut reg, "done", vec![item("t", "proposed", None)]);
    assert_eq!(reg.busy_run(Capability::Classify).as_deref(), Some("run-y"));
    assert_eq!(reg.get("run-x").unwrap().state, "aborted");
}

fn call(kind: &str, n: &str) -> AiCall {
    AiCall {
        task_kind: kind.into(),
        doc: Json::Number(n.into()),
    }
}

#[test]
fn a_remembered_run_is_shown_with_its_items_and_calls() {
    let mut reg = RunRegistry::default();
    reg.start(Capability::Classify, "run-1");
    reg.finish(
        Capability::Classify,
        "run-1",
        "done",
        vec![item("t1", "skipped", Some("dedup")), item("t2", "proposed", None)],
    );
    let reply = get_ai_run(&reg, "run-1", Some(vec![call("propose", "1"), call("x", "2")]));
    assert_eq!(reply.status, 200);
    assert_eq!(
        render(&reply.body),
        concat_body(
            r#""run_id":"run-1","capability":"classify","state":"done","#,
            r#"[{"target":"t1","result":"skipped","reason":"dedup"},{"target":"t2","result":"proposed"}]"#,
            "[1,2]",
        )
    );
}

fn concat_body(head: &str, items: &str, calls: &str) -> String {
    format!(r#"{{{head}"items":{items},"calls":{calls}}}"#)
}

#[test]
fn a_forgotten_run_is_unknown_with_the_capability_of_its_first_call() {
    let reg = RunRegistry::default();
    let reply = get_ai_run(&reg, "run-9", Some(vec![call("summarize", "7")]));
    assert_eq!(reply.status, 200);
    assert_eq!(
        render(&reply.body),
        concat_body(
            r#""run_id":"run-9","capability":"summarize","state":"unknown","#,
            "[]",
            "[7]",
        )
    );
    for calls in [None, Some(Vec::new())] {
        assert_eq!(
            render(&get_ai_run(&reg, "run-9", calls).body),
            concat_body(r#""run_id":"run-9","capability":null,"state":"unknown","#, "[]", "[]")
        );
    }
}
