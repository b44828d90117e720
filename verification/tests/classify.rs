use axum::http::{HeaderMap, HeaderValue};
use sin90::http::actor::ActorKeys;
use sin90::http::ai_classify::{
    build_classify_run_items, classify_end, classify_input_error, classify_plan, dedup_targets,
    dedup_targets_with_rejected, item_result_str, pending_assignments, rejection_queries,
    trigger_classify, AutoSelect, AutoStep, ClassifyInputError, ClassifyItem, ClassifyReads,
    ClassifyReq, ItemResult, AUTO_SELECT_MAX_PAGE, MAX_CLASSIFY_TASK_IDS,
};
use sin90::http::state::Sin90State;
use sin90::json::Json;
use sin90::model::{
    Capability, ProposalStatus, RejectedOpsRow, Sin90Op, Sin90Proposal, StoreError, Task,
};

#[test]
fn item_result_str_covers_every_variant() {
    assert_eq!(
        item_result_str(&ItemResult::Proposed("p1".to_string())),
        "proposed"
    );
    assert_eq!(item_result_str(&ItemResult::Nothing), "nothing");
    assert_eq!(item_result_str(&ItemResult::Deferred), "deferred");
    assert_eq!(item_result_str(&ItemResult::Rejected), "rejected");
    assert_eq!(item_result_str(&ItemResult::Aborted), "aborted");
}

fn task(id: &str) -> Task {
    Task {
        id: id.into(),
        terminal: false,
    }
}

fn tasks(n: usize) -> Vec<Task> {
    (0..n).map(|i| task(&format!("t{i}"))).collect()
}

fn assign(task_id: &str) -> Sin90Op {
    Sin90Op::AssignTaskDirection {
        task_id: task_id.into(),
        direction_id: "d".into(),
    }
}

fn pending(id: &str, ops: Vec<Sin90Op>) -> Sin90Proposal {
    Sin90Proposal {
        id: id.into(),
        status: ProposalStatus::Pending,
        ops,
        rationale: None,
    }
}

fn rejected(at: &str, ops: Vec<Sin90Op>) -> RejectedOpsRow {
    RejectedOpsRow {
        ops,
        proposed_at: at.into(),
    }
}

fn reads(pending: Vec<Sin90Proposal>, valid: Vec<bool>) -> ClassifyReads {
    ClassifyReads {
        pending: Ok(pending),
        valid,
        max_new_direction: Ok(None),
        modified: vec![],
    }
}

fn ids(v: &[Task]) -> Vec<&str> {
    v.iter().map(|t| t.id.as_str()).collect()
}

#[test]
fn a_pending_assignment_that_still_applies_blocks_its_task() {
    let p = || {
        vec![
            pending("p1", vec![assign("a")]),
            pending("p2", vec![assign("b")]),
            pending("p3", vec![assign("a"), assign("b")]),
            pending("p4", vec![assign("elsewhere")]),
        ]
    };
    let targets = vec![task("a"), task("b"), task("c")];
    let drafts = pending_assignments(&targets, &p());
    assert_eq!(
        drafts.iter().map(|d| d.id.as_str()).collect::<Vec<_>>(),
        ["p1", "p2"]
    );
    let (kept, skipped) =
        dedup_targets_with_rejected(&targets, &vec![], reads(p(), vec![true, false])).unwrap();
    assert_eq!(ids(&kept), ["b", "c"]);
    assert_eq!(skipped, [("a".to_string(), "dedup")]);
}

#[test]
fn proposals_that_are_not_pending_or_not_answered_do_not_block() {
    let mut applied = pending("p1", vec![assign("a")]);
    applied.status = ProposalStatus::Applied;
    let targets = vec![task("a"), task("b")];
    assert!(pending_assignments(&targets, &vec![applied]).is_empty());
    let (kept, _) = dedup_targets_with_rejected(
        &targets,
        &vec![],
        reads(vec![pending("p", vec![assign("b")])], vec![]),
    )
    .unwrap();
    assert_eq!(ids(&kept), ["a", "b"]);
}

#[test]
fn a_rejection_stands_until_the_task_or_the_directions_change() {
    let targets = vec![task("a")];
    let rows = vec![rejected("2026-09-24T00:00:00Z", vec![assign("a")])];
    let run = |max: Option<&str>, modified: Vec<Option<bool>>| {
        let r = ClassifyReads {
            pending: Ok(vec![]),
            valid: vec![],
            max_new_direction: Ok(max.map(|s| s.to_string())),
            modified,
        };
        dedup_targets_with_rejected(&targets, &rows, r).unwrap().1
    };
    let suppressed = [("a".to_string(), "suppressed_rejected")];
    assert_eq!(run(None, vec![Some(false)]), suppressed);
    assert_eq!(run(Some("2026-09-24T00:00:00Z"), vec![Some(false)]), suppressed);
    assert_eq!(run(Some("2026-09-23T23:59:59Z"), vec![Some(false)]), suppressed);
    assert_eq!(run(Some("2026-09-24T00:00:01Z"), vec![Some(false)]), []);
    assert_eq!(run(None, vec![Some(true)]), []);
    assert_eq!(run(None, vec![None]), []);
}

#[test]
fn the_most_recent_rejection_counts() {
    let rows = vec![
        rejected("2026-01-01T00:00:00Z", vec![assign("a")]),
        rejected("2026-03-01T00:00:00Z", vec![assign("b"), assign("a")]),
        rejected("2026-05-01T00:00:00Z", vec![assign("c")]),
    ];
    let q = rejection_queries(&vec![task("a"), task("z"), task("b")], &vec![], &vec![], &rows);
    let q: Vec<_> = q.iter().map(|q| (q.task_id.as_str(), q.since.as_str())).collect();
    assert_eq!(
        q,
        [("a", "2026-03-01T00:00:00Z"), ("b", "2026-03-01T00:00:00Z")]
    );
}

#[test]
fn failed_reads_degrade_only_what_they_are_about() {
    let targets = vec![task("a"), task("b")];
    let r = ClassifyReads {
        pending: Ok(vec![pending("p", vec![assign("a")])]),
        valid: vec![true],
        max_new_direction: Err("down".into()),
        modified: vec![Some(false)],
    };
    let rows = vec![rejected("2026-01-01T00:00:00Z", vec![assign("b")])];
    let (kept, skipped) = dedup_targets_with_rejected(&targets, &rows, r).unwrap();
    // What could not be read is no reason to hide a task.
    assert_eq!(ids(&kept), ["b"]);
    assert_eq!(skipped, [("a".to_string(), "dedup")]);
    let (kept, skipped) = dedup_targets(
        &targets,
        Err(StoreError::Migrate),
        reads(vec![pending("p", vec![assign("a")])], vec![true]),
    )
    .unwrap();
    assert_eq!(ids(&kept), ["b"]);
    assert_eq!(skipped.len(), 1);
    let broken = || ClassifyReads {
        pending: Err(StoreError::Serde),
        valid: vec![],
        max_new_direction: Ok(None),
        modified: vec![],
    };
    assert!(dedup_targets(&targets, Ok(vec![]), broken()).is_err());
    let (all, none) = classify_plan(targets, Ok(vec![]), broken());
    assert_eq!(ids(&all), ["a", "b"]);
    assert!(none.is_empty());
}

#[test]
fn choosing_targets_doubles_the_page_until_it_has_enough() {
    let mut s = AutoSelect::new();
    let mut pages = vec![];
    loop {
        pages.push(s.page());
        let page = tasks(s.page() as usize);
        // Every task of the page is already pending.
        let p: Vec<_> = page
            .iter()
            .map(|t| pending(&format!("p-{}", t.id), vec![assign(&t.id)]))
            .collect();
        let valid = vec![true; p.len()];
        match s.step(Some(page), &vec![], reads(p, valid)) {
            AutoStep::More(next) => s = next,
            AutoStep::Done(targets) => {
                assert!(targets.is_empty());
                break;
            }
        }
        if pages.len() == 3 {
            break;
        }
    }
    assert_eq!(pages, [20, 40, 80]);
}

#[test]
fn choosing_targets_reads_at_most_eight_pages() {
    let mut s = AutoSelect::new();
    let mut pages = vec![];
    loop {
        pages.push(s.page());
        // The same task over and over, rejected before and untouched since.
        let page: Vec<Task> = (0..s.page()).map(|_| task("a")).collect();
        let n = page.len();
        let mut r = reads(vec![], vec![]);
        r.modified = vec![Some(false); n];
        let rows = vec![rejected("2026-01-01T00:00:00Z", vec![assign("a")])];
        match s.step(Some(page), &rows, r) {
            AutoStep::More(next) => s = next,
            AutoStep::Done(targets) => {
                assert!(targets.is_empty());
                break;
            }
        }
    }
    assert_eq!(pages, [20, 40, 80, 160, 320, 640, 1280, AUTO_SELECT_MAX_PAGE]);
}

#[test]
fn enough_targets_or_an_exhausted_inbox_end_the_choice() {
    let done = |step: AutoStep| match step {
        AutoStep::Done(t) => t,
        AutoStep::More(_) => panic!("wants more"),
    };
    let full = done(AutoSelect::new().step(Some(tasks(25)), &vec![], reads(vec![], vec![])));
    assert_eq!(full.len(), MAX_CLASSIFY_TASK_IDS);
    assert_eq!(full[19].id, "t19");
    let short = done(AutoSelect::new().step(Some(tasks(3)), &vec![], reads(vec![], vec![])));
    assert_eq!(ids(&short), ["t0", "t1", "t2"]);
    assert!(done(AutoSelect::new().step(None, &vec![], reads(vec![], vec![]))).is_empty());
    let mut broken = reads(vec![], vec![]);
    broken.pending = Err(StoreError::Migrate);
    assert_eq!(done(AutoSelect::new().step(Some(tasks(20)), &vec![], broken)).len(), 20);
}

#[test]
fn a_run_shows_the_skipped_targets_first() {
    let outcomes = |r: ItemResult| {
        vec![ClassifyItem {
            task_id: "b".into(),
            result: r,
            reason: Some("low_confidence"),
        }]
    };
    let items = build_classify_run_items(
        vec![("a".into(), "dedup")],
        outcomes(ItemResult::Proposed("p".into())),
    );
    assert_eq!(items[0].target, "a");
    assert_eq!(items[0].result, "skipped");
    assert_eq!(items[0].reason, Some("dedup"));
    assert_eq!(items[1].target, "b");
    assert_eq!(items[1].result, "proposed");
    assert_eq!(items[1].reason, Some("low_confidence"));
    assert_eq!(classify_end(vec![], Some(outcomes(ItemResult::Nothing))).0, "done");
    assert_eq!(classify_end(vec![], Some(outcomes(ItemResult::Aborted))).0, "aborted");
    let (state, items) = classify_end(vec![("a".into(), "dedup")], None);
    assert_eq!(state, "aborted");
    assert_eq!(items.len(), 1);
}

fn message(body: &Json) -> (String, String) {
    let Json::Object(outer) = body else { panic!() };
    let Json::Object(inner) = &outer[0].1 else { panic!() };
    match (&inner[0].1, &inner[1].1) {
        (Json::Text(c), Json::Text(m)) => (c.clone(), m.clone()),
        _ => panic!(),
    }
}

#[test]
fn refused_tasks_are_answered_with_the_reason() {
    for (e, status, code, text) in [
        (
            ClassifyInputError::EmptyTaskIds,
            400,
            "invalid_request",
            "task_ids was given but empty; omit it entirely to auto-select from the inbox",
        ),
        (
            ClassifyInputError::TooManyTaskIds,
            400,
            "invalid_request",
            "task_ids must have at most 20 entries",
        ),
        (
            ClassifyInputError::TaskNotInInbox("t".into()),
            400,
            "invalid_request",
            "task t is not in the inbox",
        ),
        (
            ClassifyInputError::DuplicateTaskId("t".into()),
            400,
            "invalid_request",
            "task_ids contains t more than once",
        ),
        (ClassifyInputError::ReadFailed("disk".into()), 500, "internal", "disk"),
    ] {
        let r = classify_input_error(e);
        assert_eq!(r.status, status);
        assert_eq!(message(&r.body), (code.to_string(), text.to_string()));
    }
}

#[test]
fn triggering_looks_at_the_sender_the_body_the_tasks_and_then_the_slot() {
    let mut s = Sin90State::new(ActorKeys {
        human: "human-secret".into(),
        automation: "auto-secret".into(),
    });
    let mut auto = HeaderMap::new();
    auto.insert("x-sin90-actor-key", HeaderValue::from_static("auto-secret"));
    let named = || {
        Ok(ClassifyReq {
            task_ids: Some(vec!["t".into()]),
        })
    };
    let r = trigger_classify(&mut s, &HeaderMap::new(), Err("x".into()), Ok(vec![]), "1");
    assert_eq!(r.reply.status, 403);
    let r = trigger_classify(&mut s, &auto, Err("x".into()), Ok(vec![]), "1");
    assert_eq!(message(&r.reply.body).1, "invalid ai classify request: x");
    let r = trigger_classify(
        &mut s,
        &auto,
        named(),
        Err(ClassifyInputError::TaskNotInInbox("t".into())),
        "1",
    );
    assert_eq!(r.reply.status, 400);
    assert!(r.started.is_none());
    assert_eq!(s.ai_runs.busy_run(Capability::Classify), None);

    let r = trigger_classify(&mut s, &auto, named(), Ok(vec![task("t")]), "1");
    assert_eq!(r.reply.status, 202);
    let mut run = r.started.unwrap();
    assert_eq!(ids(run.input.as_ref().unwrap()), ["t"]);
    assert_eq!(run.guard.run_id(), "run-1");

    let r = trigger_classify(&mut s, &auto, named(), Ok(vec![task("t")]), "2");
    assert_eq!(r.reply.status, 409);
    assert!(r.started.is_none());

    // Past its deadline the run is aborted, and the next one starts.
    let (word, items) = classify_end(vec![], None);
    run.guard.finish(&mut s.ai_runs, word, items);
    assert_eq!(s.ai_runs.get("run-1").unwrap().state, "aborted");
    let none = Ok(ClassifyReq { task_ids: None });
    let r = trigger_classify(&mut s, &auto, none, Err(ClassifyInputError::EmptyTaskIds), "3");
    assert_eq!(r.reply.status, 202);
    assert!(r.started.unwrap().input.is_none());
}

#[test]
fn the_oldest_tasks_left_are_chosen_across_pages() {
    // 60 tasks, of which all but every fourth are already pending.
    let inbox = tasks(60);
    let blocked = |id: &str| id[1..].parse::<usize>().unwrap() % 4 != 0;
    let mut s = AutoSelect::new();
    let mut pages = vec![];
    let chosen = loop {
        pages.push(s.page());
        let page: Vec<Task> = tasks(inbox.len().min(s.page() as usize));
        let p: Vec<_> = page
            .iter()
            .filter(|t| blocked(&t.id))
            .map(|t| pending(&format!("p-{}", t.id), vec![assign(&t.id)]))
            .collect();
        let valid = vec![true; p.len()];
        match s.step(Some(page), &vec![], reads(p, valid)) {
            AutoStep::More(next) => s = next,
            AutoStep::Done(targets) => break targets,
        }
    };
    assert_eq!(pages, [20, 40, 80]);
    let want: Vec<String> = (0..15).map(|i| format!("t{}", 4 * i)).collect();
    assert_eq!(ids(&chosen), want);
}
