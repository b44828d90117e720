use axum::http::{HeaderMap, HeaderValue};
use sin90::http::actor::ActorKeys;
use sin90::http::ai_propose::{
    dedup_propose, item_result_str, needs_gaps, open_tasks, precheck_batch, propose_end,
    propose_input_error, propose_plan, rejected_needs, to_items, trigger_propose, ProposeDedup,
    ProposeInputError, ProposeItem, ProposeItemResult, ProposeKind, ProposeReads, ProposeReq,
};
use sin90::http::state::Sin90State;
use sin90::json::Json;
use sin90::model::{
    NewTask, ProposalStatus, RejectedOpsRow, Sin90Op, Sin90Proposal, StoreError, Task,
};

const OLD: &str = "2026-09-01T00:00:00Z";
const NEW: &str = "2026-09-02T00:00:00Z";

fn carry(task_id: &str, week: &str) -> Sin90Op {
    Sin90Op::CarryOverTask {
        task_id: task_id.into(),
        to_week: week.into(),
    }
}

fn reorder(week: &str, order: &[&str]) -> Sin90Op {
    Sin90Op::ReorderTasks {
        week_id: week.into(),
        order: strings(order),
    }
}

fn create(week: &str, directions: &[Option<&str>]) -> Sin90Op {
    Sin90Op::CreateTasks {
        week_id: week.into(),
        tasks: directions
            .iter()
            .map(|d| NewTask {
                title: "x".into(),
                direction_id: d.map(|s| s.to_string()),
            })
            .collect(),
    }
}

fn strings(v: &[&str]) -> Vec<String> {
    v.iter().map(|s| s.to_string()).collect()
}

fn pending(id: &str, ops: Vec<Sin90Op>) -> Sin90Proposal {
    Sin90Proposal {
        id: id.into(),
        status: ProposalStatus::Pending,
        ops,
        rationale: None,
    }
}

fn rejected(ops: Vec<Sin90Op>) -> RejectedOpsRow {
    RejectedOpsRow {
        ops,
        proposed_at: OLD.into(),
    }
}

fn task(id: &str, terminal: bool) -> Task {
    Task {
        id: id.into(),
        terminal,
    }
}

fn reads() -> ProposeReads {
    ProposeReads {
        week_tasks: Ok(vec![task("a", false), task("b", false), task("z", true)]),
        ai_produced_ids: Ok(strings(&["p1", "p2", "p3", "p4"])),
        pending: Ok(vec![]),
        valid: vec![],
        gaps: Some(strings(&["d1", "d2"])),
        rejected: Ok(vec![]),
        max_new_direction: Ok(None),
        reflex_order: strings(&["b", "a"]),
        gaps_again: Some(strings(&["d1", "d2"])),
    }
}

fn members(d: &ProposeDedup) -> (Vec<String>, bool, Vec<String>, bool) {
    let mut carry = d.excluded_carry_task_ids.to_vec();
    let mut create = d.excluded_create_direction_ids.to_vec();
    carry.sort();
    create.sort();
    (carry, d.skip_reorder, create, d.skip_create)
}

fn decide(r: ProposeReads) -> (Vec<String>, bool, Vec<String>, bool) {
    members(&dedup_propose("w", r).unwrap())
}

fn nothing() -> (Vec<String>, bool, Vec<String>, bool) {
    (vec![], false, vec![], false)
}

#[test]
fn with_nothing_pending_or_rejected_nothing_is_left_out() {
    assert_eq!(decide(reads()), nothing());
    assert_eq!(members(&ProposeDedup::default()), nothing());
}

#[test]
fn the_batch_lists_carries_then_reorderings_then_creations() {
    let p = vec![
        pending("p1", vec![create("w", &[Some("d1")])]),
        pending("p2", vec![reorder("w", &["a"])]),
        pending("p3", vec![carry("x", "w"), carry("y", "w")]),
        pending("p4", vec![carry("x", "other")]),
        pending("human", vec![carry("x", "w")]),
        pending("p1", vec![]),
    ];
    let produced = strings(&["p1", "p2", "p3", "p4"]);
    let batch = precheck_batch("w", &produced, &p);
    assert_eq!(
        batch.iter().map(|d| d.id.as_str()).collect::<Vec<_>>(),
        ["p3", "p2", "p1"]
    );
    assert!(needs_gaps("w", &produced, &p));
    assert!(!needs_gaps("w", &strings(&["p2", "p3"]), &p));
}

#[test]
fn the_answers_are_taken_in_batch_order() {
    let p = || {
        Ok(vec![
            pending("p1", vec![create("w", &[Some("d1"), None])]),
            pending("p2", vec![reorder("w", &["b", "a"])]),
            pending("p3", vec![carry("x", "w"), carry("y", "w")]),
        ])
    };
    let run = |valid: &[bool]| {
        let mut r = reads();
        r.pending = p();
        r.valid = valid.to_vec();
        decide(r)
    };
    assert_eq!(run(&[true, false, false]), (strings(&["x", "y"]), false, vec![], false));
    assert_eq!(run(&[false, true, false]), (vec![], true, vec![], false));
    assert_eq!(run(&[false, false, true]), (vec![], false, strings(&["d1"]), false));
    assert_eq!(run(&[]), nothing());
    assert_eq!(run(&[true]), (strings(&["x", "y"]), false, vec![], false));
}

#[test]
fn a_reordering_blocks_only_when_it_orders_exactly_the_open_tasks() {
    let run = |order: &[&str]| {
        let mut r = reads();
        r.pending = Ok(vec![pending("p1", vec![reorder("w", order)])]);
        r.valid = vec![true];
        decide(r).1
    };
    assert!(run(&["a", "b"]));
    assert!(run(&["b", "a", "b"]));
    assert!(!run(&["a"]));
    assert!(!run(&["a", "b", "z"]));
    assert!(!run(&[]));
}

#[test]
fn creation_is_left_out_only_when_every_gap_is_excluded() {
    let run = |directions: &[Option<&str>], gaps: Option<Vec<String>>| {
        let mut r = reads();
        r.pending = Ok(vec![pending("p1", vec![create("w", directions)])]);
        r.valid = vec![true];
        r.gaps = gaps;
        let d = decide(r);
        (d.2, d.3)
    };
    let gaps = || Some(strings(&["d1", "d2"]));
    assert_eq!(run(&[Some("d1")], gaps()), (strings(&["d1"]), false));
    assert_eq!(
        run(&[Some("d1"), Some("d2"), Some("d9")], gaps()),
        (strings(&["d1", "d2"]), true)
    );
    assert_eq!(run(&[Some("d1")], Some(vec![])), (vec![], false));
    assert_eq!(run(&[Some("d1")], None), (vec![], false));
}

#[test]
fn rejections_stand_until_a_new_direction_appears() {
    let rows = || {
        Ok(vec![
            rejected(vec![carry("x", "w"), carry("y", "w")]),
            rejected(vec![carry("q", "w"), carry("q", "other")]),
            rejected(vec![reorder("w", &["b", "a"])]),
            rejected(vec![create("w", &[Some("d1"), Some("d2")])]),
            rejected(vec![]),
        ])
    };
    let run = |max: Option<&str>| {
        let mut r = reads();
        r.rejected = rows();
        r.max_new_direction = Ok(max.map(|s| s.to_string()));
        decide(r)
    };
    let all = (strings(&["x", "y"]), true, strings(&["d1", "d2"]), true);
    assert_eq!(run(None), all);
    assert_eq!(run(Some(OLD)), all);
    assert_eq!(run(Some(NEW)), nothing());
}

#[test]
fn a_rejected_order_counts_only_while_it_would_be_asked_for_again() {
    let mut r = reads();
    r.rejected = Ok(vec![rejected(vec![reorder("w", &["b", "a"])])]);
    r.reflex_order = strings(&["a", "b"]);
    assert!(!decide(r).1);
}

#[test]
fn rejected_creations_add_to_what_is_pending() {
    let mut r = reads();
    r.pending = Ok(vec![pending("p1", vec![create("w", &[Some("d1")])])]);
    r.valid = vec![true];
    r.rejected = Ok(vec![rejected(vec![create("w", &[Some("d2")])])]);
    assert_eq!(decide(r), (vec![], false, strings(&["d1", "d2"]), true));
    // The gaps as read for the rejected half decide in the end.
    let mut r = reads();
    r.pending = Ok(vec![pending("p1", vec![create("w", &[Some("d1"), Some("d2")])])]);
    r.valid = vec![true];
    r.rejected = Ok(vec![rejected(vec![create("w", &[Some("d2")])])]);
    r.gaps_again = Some(strings(&["d2", "d3"]));
    assert_eq!(decide(r), (vec![], false, strings(&["d1", "d2"]), false));
}

#[test]
fn only_standing_rejections_need_further_reads() {
    let rows = vec![
        rejected(vec![reorder("w", &["a"])]),
        rejected(vec![create("other", &[Some("d1")])]),
    ];
    let n = rejected_needs("w", &rows, &None);
    assert!(n.reflex_order && !n.gaps);
    let n = rejected_needs("w", &rows, &Some(NEW.into()));
    assert!(!n.reflex_order && !n.gaps);
    let n = rejected_needs("other", &rows, &Some(OLD.into()));
    assert!(!n.reflex_order && n.gaps);
}

#[test]
fn the_first_failed_read_ends_the_deduplication() {
    let fails = |change: fn(&mut ProposeReads)| {
        let mut r = reads();
        change(&mut r);
        dedup_propose("w", r).err()
    };
    assert!(matches!(
        fails(|r| r.week_tasks = Err("m".into())),
        Some(StoreError::Internal(m)) if m == "m"
    ));
    assert!(matches!(
        fails(|r| r.ai_produced_ids = Err(StoreError::Migrate)),
        Some(StoreError::Migrate)
    ));
    assert!(matches!(
        fails(|r| r.pending = Err(StoreError::Serde)),
        Some(StoreError::Serde)
    ));
    assert!(matches!(
        fails(|r| r.rejected = Err(StoreError::Serde)),
        Some(StoreError::Serde)
    ));
    assert!(fails(|r| r.max_new_direction = Err("m".into())).is_none());
    let with_rejection = |r: &mut ProposeReads| {
        r.rejected = Ok(vec![rejected(vec![carry("x", "w")])]);
        r.max_new_direction = Err("m".into());
    };
    assert!(matches!(fails(with_rejection), Some(StoreError::Internal(_))));
    let mut r = reads();
    with_rejection(&mut r);
    assert_eq!(members(&propose_plan("w", r)), nothing());
}

#[test]
fn open_tasks_keep_their_order() {
    let open = open_tasks(&vec![task("a", false), task("z", true), task("b", false)]);
    assert_eq!(open.iter().map(|t| t.id.as_str()).collect::<Vec<_>>(), ["a", "b"]);
}

#[test]
fn a_run_shows_its_parts() {
    let part = |kind, result| ProposeItem { kind, result };
    let items = to_items(vec![
        part(ProposeKind::Carry, ProposeItemResult::Proposed("p".into())),
        part(ProposeKind::Reorder, ProposeItemResult::Skipped),
        part(ProposeKind::Create, ProposeItemResult::Nothing),
    ]);
    let shown: Vec<_> = items
        .iter()
        .map(|i| (i.target.as_str(), i.result.as_str(), i.reason))
        .collect();
    assert_eq!(
        shown,
        [
            ("propose.carry", "proposed", None),
            ("propose.reorder", "skipped", Some("dedup")),
            ("propose.create", "nothing", None)
        ]
    );
    assert_eq!(item_result_str(&ProposeItemResult::Deferred), "deferred");
    assert_eq!(item_result_str(&ProposeItemResult::Rejected), "rejected");
    let aborted = vec![part(ProposeKind::Carry, ProposeItemResult::Aborted)];
    assert_eq!(propose_end(Some(aborted)).0, "aborted");
    assert_eq!(propose_end(Some(vec![])).0, "done");
    let (word, items) = propose_end(None);
    assert_eq!(word, "aborted");
    assert!(items.is_empty());
}

fn message(body: &Json) -> (String, String) {
    let Json::Object(outer) = body else { panic!() };
    let Json::Object(inner) = &outer[0].1 else { panic!() };
    match (&inner[0].1, &inner[1].1) {
        (Json::Text(c), Json::Text(m)) => (c.clone(), m.clone()),
        _ => panic!(),
    }
}

#[test]
fn refused_weeks_are_answered_with_the_reason() {
    let r = propose_input_error(ProposeInputError::UnknownWeek("w9".into()));
    assert_eq!(r.status, 404);
    assert_eq!(message(&r.body), ("not_found".into(), "week w9 does not exist".into()));
    let r = propose_input_error(ProposeInputError::WeekNotOpen("w9".into(), "Closed".into()));
    assert_eq!(r.status, 409);
    assert_eq!(
        message(&r.body),
        ("week_not_open".into(), "week w9 is not open (status Closed)".into())
    );
    let r = propose_input_error(ProposeInputError::ReadFailed("m".into()));
    assert_eq!(r.status, 500);
    assert_eq!(message(&r.body), ("internal".into(), "m".into()));
}

#[test]
fn triggering_checks_the_week_before_the_slot() {
    let mut s = Sin90State::new(ActorKeys {
        human: "human-secret".into(),
        automation: "auto-secret".into(),
    });
    let mut auto = HeaderMap::new();
    auto.insert("x-sin90-actor-key", HeaderValue::from_static("auto-secret"));
    let req = || Ok(ProposeReq { week_id: "w".into() });
    let r = trigger_propose(&mut s, &auto, req(), Ok("w".into()), "1");
    assert_eq!(r.reply.status, 202);
    assert_eq!(r.started.unwrap().input, "w");
    let unknown = Err(ProposeInputError::UnknownWeek("w".into()));
    let r = trigger_propose(&mut s, &auto, req(), unknown, "2");
    assert_eq!(r.reply.status, 404);
    let r = trigger_propose(&mut s, &auto, req(), Ok("w".into()), "3");
    assert_eq!(r.reply.status, 409);
    let r = trigger_propose(&mut s, &auto, Err("x".into()), Ok("w".into()), "4");
    assert_eq!(message(&r.reply.body).1, "invalid ai propose request: x");
    let r = trigger_propose(&mut s, &HeaderMap::new(), req(), Ok("w".into()), "5");
    assert_eq!(r.reply.status, 403);
}
