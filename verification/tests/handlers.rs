use axum::http::{HeaderMap, HeaderValue};
use sin90::http::actor::ActorKeys;
use sin90::http::handlers::{
    accept_proposal, attention, attention_range, capture, captured_task, create_area,
    create_block, create_direction, create_review, create_rhythm, create_routine, create_task,
    create_week, finalize_review, get_ai_settings, install_pack, list_areas, list_blocks,
    list_directions, list_events, list_proposals, list_reviews, list_rhythms, list_routines,
    list_tasks, list_weeks, new_task, normalize_reject_reason, put_ai_settings, reject_proposal,
    reject_reason, show, submit_proposal, submitted_event, transition_area, transition_block,
    transition_routine, transition_task, transition_week, update_review, update_routine,
    AcceptOutcome, AreaRow, BlockRow, DirectionRow, NewTaskReq, RejectOutcome, ReviewRow,
    ReviewUpdate, RhythmRow, RoutineRow, RoutineStatus, RoutineUpdate, TaskRow, WeekRow,
};
use sin90::http::scheduler::{
    fired_request, require_fire_id, scheduler_fired, AutoReviewCreated, FiredReq,
    RoutineFireOutcome,
};
use sin90::http::state::{EventSink, NullEventSink, Sin90State};
use sin90::http::{map_err, Outcome, Reply};
use sin90::json::Json;
use sin90::model::StoreError;
use std::cell::RefCell;

fn render(j: &Json) -> String {
    match j {
        Json::Null => "null".to_string(),
        Json::Bool(b) => format!("{b}"),
        Json::Number(n) => n.clone(),
        Json::Text(t) => format!("{t:?}"),
        Json::List(v) => format!("[{}]", v.iter().map(render).collect::<Vec<_>>().join(",")),
        Json::Object(f) => format!(
            "{{{}}}",
            f.iter()
                .map(|(k, v)| format!("{k:?}:{}", render(v)))
                .collect::<Vec<_>>()
                .join(",")
        ),
    }
}

fn doc() -> Json {
    Json::Object(vec![("doc".into(), Json::Number("1".into()))])
}

/// The events and the reply, as text.
fn seen(o: Outcome) -> (Vec<String>, u16, String) {
    (
        o.events
            .iter()
            .map(|e| format!("{} {}", e.kind, render(&e.payload)))
            .collect(),
        o.reply.status,
        render(&o.reply.body),
    )
}

const DOC: &str = r#"{"doc":1}"#;

fn one(o: Outcome, event: &str, status: u16, body: &str) {
    assert_eq!(seen(o), (vec![event.to_string()], status, body.to_string()));
}

fn error_body(r: &Reply) -> (u16, String) {
    (r.status, render(&r.body))
}

#[test]
fn every_store_error_has_its_reply() {
    for (e, status, code, message) in [
        (StoreError::NotFound("area x".into()), 404, "not_found", "area x"),
        (StoreError::Transition("no".into()), 409, "conflict", "no"),
        (StoreError::Proposal("bad op".into()), 422, "unprocessable", "bad op"),
        (StoreError::Conflict("dup".into()), 409, "conflict", "dup"),
        (StoreError::Invalid("title".into()), 400, "invalid_request", "title"),
        (
            StoreError::WeekNotOpen("t1".into()),
            409,
            "conflict",
            "task t1's week is not open",
        ),
        (
            StoreError::SameWeekCarry("t1".into()),
            409,
            "conflict",
            "cannot carry task t1 into its own week",
        ),
        (
            StoreError::Sqlx { fk_violation: true },
            404,
            "not_found",
            "a referenced entity does not exist",
        ),
        (StoreError::Sqlx { fk_violation: false }, 500, "internal", "store error"),
        (StoreError::Internal("secret".into()), 500, "internal", "store error"),
        (StoreError::Migrate, 500, "internal", "store error"),
        (StoreError::Serde, 500, "internal", "store error"),
    ] {
        assert_eq!(
            error_body(&map_err(e)),
            (
                status,
                format!(r#"{{"error":{{"code":"{code}","message":"{message}"}}}}"#)
            )
        );
    }
}

#[test]
fn a_failed_request_emits_nothing() {
    let gone = || StoreError::NotFound("x".into());
    assert!(create_area(Err(gone())).events.is_empty());
    assert_eq!(create_area(Err(gone())).reply.status, 404);
    assert!(install_pack(Err(gone())).events.is_empty());
    assert!(accept_proposal(Err(gone())).events.is_empty());
    assert!(reject_proposal("p", &None, Err(gone())).events.is_empty());
    assert!(update_routine(Err(gone())).events.is_empty());
    assert!(submit_proposal("p", Err(gone())).events.is_empty());
    assert!(submitted_event("p", false).is_none());
}

fn area(id: &str) -> AreaRow {
    AreaRow {
        id: id.into(),
        title: "Work".into(),
        status: "active".into(),
        doc: doc(),
    }
}

#[test]
fn creating_and_moving_entities() {
    one(
        create_area(Ok(area("a"))),
        r#"area.created {"id":"a","title":"Work"}"#,
        201,
        DOC,
    );
    one(
        transition_area(Ok(area("a"))),
        r#"area.transitioned {"area_id":"a","to":"active"}"#,
        200,
        DOC,
    );
    one(
        create_direction(Ok(DirectionRow {
            id: "d".into(),
            title: "Ship".into(),
            area_id: None,
            doc: doc(),
        })),
        r#"direction.created {"id":"d","title":"Ship","area_id":null}"#,
        201,
        DOC,
    );
    let t = || TaskRow {
        id: "t".into(),
        direction_id: Some("d".into()),
        parent_task_id: None,
        status: "planned".into(),
        doc: doc(),
    };
    let made = r#"task.created {"id":"t","direction_id":"d","parent_task_id":null}"#;
    one(create_task(Ok(t())), made, 201, DOC);
    one(capture(Ok(t())), made, 201, DOC);
    one(
        transition_task(Ok(t())),
        r#"task.transitioned {"task_id":"t","to":"planned"}"#,
        200,
        DOC,
    );
    let b = || BlockRow {
        id: "b".into(),
        direction_id: None,
        status: "started".into(),
        doc: doc(),
    };
    one(
        create_block(Ok(b())),
        r#"block.created {"block_id":"b","direction_id":null}"#,
        201,
        DOC,
    );
    one(
        transition_block(Ok(b())),
        r#"block.transitioned {"block_id":"b","to":"started"}"#,
        200,
        DOC,
    );
    let w = || WeekRow {
        id: "w".into(),
        iso_week: "2026-W39".into(),
        status: "active".into(),
        doc: doc(),
    };
    one(
        create_week(Ok(w())),
        r#"week.created {"id":"w","iso_week":"2026-W39"}"#,
        201,
        DOC,
    );
    one(
        transition_week(Ok(w())),
        r#"week.transitioned {"week_id":"w","to":"active"}"#,
        200,
        DOC,
    );
    one(
        create_rhythm(Ok(RhythmRow {
            id: "r".into(),
            allocations: Json::List(vec![Json::Null]),
            doc: doc(),
        })),
        r#"rhythm.created {"id":"r","allocations":[null]}"#,
        201,
        DOC,
    );
}

#[test]
fn installing_a_pack_announces_each_area() {
    let (events, status, body) = seen(install_pack(Ok(vec![area("a"), area("b")])));
    assert_eq!(
        events,
        [
            r#"area.created {"id":"a","title":"Work"}"#,
            r#"area.created {"id":"b","title":"Work"}"#
        ]
    );
    assert_eq!(status, 201);
    assert_eq!(body, format!(r#"{{"areas":[{DOC},{DOC}]}}"#));
}

#[test]
fn listings_are_wrapped_in_their_name() {
    type Listing = fn(Result<Vec<Json>, StoreError>) -> Reply;
    let all: [(&str, Listing); 11] = [
        ("areas", list_areas),
        ("directions", list_directions),
        ("tasks", list_tasks),
        ("blocks", list_blocks),
        ("weeks", list_weeks),
        ("rhythms", list_rhythms),
        ("proposals", list_proposals),
        ("events", list_events),
        ("routines", list_routines),
        ("reviews", list_reviews),
        ("attention", attention),
    ];
    for (name, f) in all {
        let r = f(Ok(vec![doc(), Json::Bool(true)]));
        assert_eq!(error_body(&r), (200, format!(r#"{{"{name}":[{DOC},true]}}"#)));
        assert_eq!(f(Err(StoreError::Migrate)).status, 500);
    }
    assert_eq!(error_body(&show(Ok(doc()))), (200, DOC.to_string()));
    assert_eq!(show(Err(StoreError::NotFound("x".into()))).status, 404);
}

#[test]
fn a_range_has_to_be_well_formed_and_ordered() {
    let (a, b) = ("2026-09-01T00:00:00Z", "2026-09-02T00:00:00Z");
    assert!(attention_range(a, b, true, true).is_ok());
    let r = attention_range(a, b, true, false).unwrap_err();
    assert!(error_body(&r).1.contains("start and end must be fixed-width ISO-8601"));
    let r = attention_range(a, b, false, true).unwrap_err();
    assert_eq!(r.status, 400);
    for (x, y) in [(a, a), (b, a)] {
        let r = attention_range(x, y, true, true).unwrap_err();
        assert!(error_body(&r).1.contains("start must be strictly before end"));
    }
}

#[test]
fn a_task_without_kind_or_energy_gets_the_defaults() {
    let req = |kind: Option<&str>, energy: Option<&str>| NewTaskReq {
        title: "T".into(),
        direction_id: None,
        parent_task_id: Some("p".into()),
        kind: kind.map(|s| s.to_string()),
        energy: energy.map(|s| s.to_string()),
        est_minutes: Some(30),
    };
    let t = new_task(req(None, Some("high")));
    assert_eq!((t.kind.as_str(), t.energy.as_str()), ("other", "high"));
    let t = new_task(req(Some("code"), None));
    assert_eq!((t.kind.as_str(), t.energy.as_str()), ("code", "mid"));
    assert_eq!(t.est_minutes, Some(30));
    let c = captured_task("note".into());
    assert_eq!((c.title.as_str(), c.kind.as_str(), c.energy.as_str()), ("note", "other", "mid"));
    assert!(c.direction_id.is_none() && c.parent_task_id.is_none() && c.est_minutes.is_none());
}

#[test]
fn proposals_are_announced_when_they_change_something() {
    one(
        submit_proposal("p", Ok(())),
        r#"proposal.submitted {"id":"p"}"#,
        202,
        r#"{"id":"p","status":"pending"}"#,
    );
    let e = submitted_event("p", true).unwrap();
    assert_eq!((e.kind, render(&e.payload)), ("proposal.submitted", r#"{"id":"p"}"#.into()));
    let accepted = |applied_now| AcceptOutcome {
        applied_now,
        proposal_id: "p".into(),
        receipt: doc(),
    };
    one(
        accept_proposal(Ok(accepted(true))),
        r#"proposal.applied {"proposal_id":"p"}"#,
        200,
        DOC,
    );
    assert_eq!(seen(accept_proposal(Ok(accepted(false)))), (vec![], 200, DOC.into()));
    let rejected = || RejectOutcome {
        capability_source: Json::Null,
        ops_summary: Json::Text("1 op".into()),
    };
    one(
        reject_proposal("p", &Some("no".into()), Ok(rejected())),
        r#"proposal.rejected {"proposal_id":"p","capability_source":null,"ops_summary":"1 op","reason":"no"}"#,
        200,
        r#"{"id":"p","status":"rejected"}"#,
    );
}

#[test]
fn a_reject_reason_is_trimmed_and_limited() {
    let ok = |s: &str| normalize_reject_reason(Some(s.into())).unwrap();
    assert!(normalize_reject_reason(None).unwrap().is_none());
    assert_eq!(ok(""), None);
    assert_eq!(ok(" \t\n\u{3000}\u{a0}"), None);
    assert_eq!(ok("  too  vague \r\n").as_deref(), Some("too  vague"));
    assert_eq!(ok("\u{200b}x\u{200b}").as_deref(), Some("\u{200b}x\u{200b}"));
    let longest = "字".repeat(1000);
    assert_eq!(ok(&format!("  {longest}  ")), Some(longest.clone()));
    let r = normalize_reject_reason(Some(format!("{longest}!"))).unwrap_err();
    assert_eq!(r.status, 400);
    assert!(render(&r.body).contains("reason must be at most 1000 characters"));
}

#[test]
fn a_rejection_may_come_without_a_body() {
    assert!(reject_reason(true, Err("EOF".into())).unwrap().is_none());
    let r = reject_reason(false, Err("EOF".into())).unwrap_err();
    assert!(render(&r.body).contains("invalid proposal reject: EOF"));
    assert_eq!(
        reject_reason(false, Ok(Some(" x ".into()))).unwrap().as_deref(),
        Some("x")
    );
    assert!(reject_reason(false, Ok(Some("y".repeat(1001)))).is_err());
}

#[test]
fn routines_announce_what_happened() {
    let r = |status| RoutineRow {
        id: "r".into(),
        area_id: Some("a".into()),
        direction_id: None,
        status,
        doc: doc(),
    };
    one(
        create_routine(Ok(r(RoutineStatus::Active))),
        r#"routine.created {"id":"r","area_id":"a","direction_id":null,"status":"active"}"#,
        201,
        DOC,
    );
    for (status, kind) in [
        (RoutineStatus::Paused, "routine.paused"),
        (RoutineStatus::Active, "routine.resumed"),
        (RoutineStatus::Retired, "routine.retired"),
    ] {
        one(
            transition_routine(Ok(r(status))),
            &format!(r#"{kind} {{"routine_id":"r"}}"#),
            200,
            DOC,
        );
    }
}

#[test]
fn a_patch_that_changes_nothing_emits_nothing() {
    let update = |changed: &[&str]| {
        update_routine(Ok(RoutineUpdate {
            changed: changed.iter().map(|s| s.to_string()).collect(),
            doc: doc(),
        }))
    };
    one(
        update(&["cron", "title"]),
        r#"routine.updated {"doc":1,"changed":["cron","title"]}"#,
        200,
        DOC,
    );
    assert_eq!(seen(update(&[])), (vec![], 200, DOC.into()));
    // A field of that name is replaced.
    let odd = update_routine(Ok(RoutineUpdate {
        changed: vec!["cron".into()],
        doc: Json::Object(vec![
            ("changed".into(), Json::Null),
            ("id".into(), Json::Text("r".into())),
        ]),
    }));
    assert_eq!(seen(odd).0, [r#"routine.updated {"changed":["cron"],"id":"r"}"#]);
    let bare = update_routine(Ok(RoutineUpdate {
        changed: vec!["cron".into()],
        doc: Json::Null,
    }));
    assert!(bare.events.is_empty());
}

#[test]
fn reviews_announce_what_happened() {
    let v = || ReviewRow {
        id: "v".into(),
        kind: "weekly".into(),
        period: "2026-W39".into(),
        status: "draft".into(),
        body: "text".into(),
        doc: doc(),
    };
    one(
        create_review(Ok(v())),
        r#"review.created {"id":"v","kind":"weekly","period":"2026-W39","status":"draft","source":"human"}"#,
        201,
        DOC,
    );
    one(
        update_review(Ok(ReviewUpdate {
            changed: true,
            review: v(),
        })),
        r#"review.updated {"review_id":"v","body":"text"}"#,
        200,
        DOC,
    );
    let same = update_review(Ok(ReviewUpdate {
        changed: false,
        review: v(),
    }));
    assert_eq!(seen(same), (vec![], 200, DOC.into()));
    one(
        finalize_review(Ok(v())),
        r#"review.finalized {"review_id":"v"}"#,
        200,
        DOC,
    );
}

#[test]
fn settings_show_one_switch() {
    assert_eq!(
        error_body(&get_ai_settings(Ok(false))),
        (200, r#"{"executive_enabled":false}"#.into())
    );
    one(
        put_ai_settings(Ok(true)),
        r#"setting.changed {"key":"ai.executive_enabled","value":true}"#,
        200,
        r#"{"executive_enabled":true}"#,
    );
}

fn fired() -> FiredReq {
    FiredReq {
        key: "k".into(),
        scheduled_for: "2026-09-21T08:00:00Z".into(),
        fired_at: "2026-09-21T08:00:01Z".into(),
        trigger: "scheduled".into(),
    }
}

#[test]
fn a_recorded_firing_is_announced_with_the_review_it_made() {
    let event = r#"routine.fired {"routine_id":"r","fire_id":"f","scheduled_for":"2026-09-21T08:00:00Z","trigger":"scheduled"}"#;
    one(
        scheduler_fired(
            "f",
            &fired(),
            Ok(RoutineFireOutcome::Recorded {
                routine_id: "r".into(),
                auto_review: None,
            }),
        ),
        event,
        200,
        r#"{"status":"recorded","routine_id":"r","review_created":null}"#,
    );
    let both = scheduler_fired(
        "f",
        &fired(),
        Ok(RoutineFireOutcome::Recorded {
            routine_id: "r".into(),
            auto_review: Some(AutoReviewCreated {
                review_id: "v".into(),
                period: "2026-W38".into(),
            }),
        }),
    );
    assert_eq!(
        seen(both),
        (
            vec![
                event.to_string(),
                r#"review.created {"id":"v","kind":"weekly","period":"2026-W38","status":"draft","source":"routine"}"#
                    .to_string()
            ],
            200,
            r#"{"status":"recorded","routine_id":"r","review_created":"v"}"#.to_string()
        )
    );
}

#[test]
fn other_firings_succeed_quietly() {
    for (outcome, body) in [
        (
            RoutineFireOutcome::Duplicate { routine_id: "r".into() },
            r#"{"status":"duplicate","routine_id":"r"}"#,
        ),
        (RoutineFireOutcome::UnknownKey, r#"{"status":"unknown_key"}"#),
        (
            RoutineFireOutcome::RoutineRetired { routine_id: "r".into() },
            r#"{"status":"routine_retired","routine_id":"r"}"#,
        ),
    ] {
        let o = scheduler_fired("f", &fired(), Ok(outcome));
        assert_eq!(seen(o), (vec![], 200, body.to_string()));
    }
    let o = scheduler_fired("f", &fired(), Err(StoreError::Internal("x".into())));
    assert_eq!(o.reply.status, 500);
}

#[test]
fn a_firing_needs_an_id_a_body_and_times() {
    let id = |v: &'static str| {
        let mut h = HeaderMap::new();
        h.insert("x-a24-fire-id", HeaderValue::from_static(v));
        h
    };
    assert_eq!(require_fire_id(&id("fire-1")).unwrap(), "fire-1");
    for h in [HeaderMap::new(), id("")] {
        let r = fired_request(&h, Err("x".into()), false).unwrap_err();
        assert_eq!(r.status, 400);
        assert!(render(&r.body).contains("missing required header X-A24-Fire-Id"));
    }
    let r = fired_request(&id("f"), Err("x".into()), false).unwrap_err();
    assert!(render(&r.body).contains("invalid fired: x"));
    let r = fired_request(&id("f"), Ok(fired()), false).unwrap_err();
    assert!(render(&r.body).contains("scheduled_for and fired_at must be fixed-width ISO-8601"));
    let (fire_id, req) = fired_request(&id("f"), Ok(fired()), true).unwrap();
    assert_eq!((fire_id.as_str(), req.key.as_str()), ("f", "k"));
}

#[derive(Default)]
struct Recording(RefCell<Vec<String>>);

impl EventSink for Recording {
    fn emit(&self, kind: &str, payload: &Vec<(String, Json)>) {
        let names: Vec<_> = payload.iter().map(|(k, _)| k.as_str()).collect();
        self.0.borrow_mut().push(format!("{kind} {}", names.join(",")));
    }
}

#[test]
fn events_reach_the_sink_in_order_and_only_objects_are_delivered() {
    let s = Sin90State::new(ActorKeys {
        human: "h".into(),
        automation: "a".into(),
    });
    let sink = Recording::default();
    let reply = s.deliver(&sink, install_pack(Ok(vec![area("a"), area("b")])));
    assert_eq!(reply.status, 201);
    assert!(!s.emit(&sink, "odd", &Json::List(vec![])));
    assert!(s.emit(&sink, "even", &doc()));
    assert_eq!(
        *sink.0.borrow(),
        ["area.created id,title", "area.created id,title", "even doc"]
    );
    assert!(s.emit(&NullEventSink, "dropped", &doc()));
}
