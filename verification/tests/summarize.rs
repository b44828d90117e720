use axum::http::{HeaderMap, HeaderValue};
use sin90::http::actor::ActorKeys;
use sin90::http::ai_summarize::{
    dedup_summarize, item_result_str, pending_body_drafts, summarize_end, summarize_input_error,
    summarize_plan, trigger_summarize, SummarizeInputError, SummarizeItemResult, SummarizeOutcome,
    SummarizeReads, SummarizeReq,
};
use sin90::http::state::Sin90State;
use sin90::json::Json;
use sin90::model::{
    Capability, ProposalStatus, RejectedOpsRow, Sin90Op, Sin90Proposal, StoreError,
};

fn draft(review: &str, base: &str) -> Sin90Op {
    Sin90Op::DraftReviewBody {
        review_id: review.into(),
        base_body_sha256: base.into(),
        body: "text".into(),
    }
}

fn pending(id: &str, ops: Vec<Sin90Op>) -> Sin90Proposal {
    Sin90Proposal {
        id: id.into(),
        status: ProposalStatus::Pending,
        ops,
        rationale: Some("why".into()),
    }
}

fn rejected(review: &str, base: &str) -> RejectedOpsRow {
    RejectedOpsRow {
        ops: vec![draft(review, base)],
        proposed_at: "2026-09-24T00:00:00Z".into(),
    }
}

fn reads(
    pending: Vec<Sin90Proposal>,
    valid: Vec<bool>,
    rejected: Vec<RejectedOpsRow>,
    current: &str,
) -> SummarizeReads {
    SummarizeReads {
        pending: Ok(pending),
        valid,
        rejected: Ok(rejected),
        current_body_sha256: Ok(current.into()),
    }
}

#[test]
fn a_pending_draft_that_still_applies_blocks() {
    let p = || {
        vec![
            pending("p1", vec![draft("other", "h")]),
            pending("p2", vec![draft("r", "h")]),
            pending("p3", vec![draft("r", "h"), draft("r", "h")]),
        ]
    };
    let drafts = pending_body_drafts("r", &p());
    assert_eq!(drafts.len(), 1);
    assert_eq!(drafts[0].id, "p2");
    assert_eq!(drafts[0].rationale.as_deref(), Some("why"));
    let run = |valid: Vec<bool>| dedup_summarize("r", reads(p(), valid, vec![], "h")).unwrap();
    assert_eq!(run(vec![true]), Some("dedup"));
    assert_eq!(run(vec![false]), None);
    assert_eq!(run(vec![]), None);
}

#[test]
fn a_rejection_blocks_until_the_body_is_edited() {
    let run = |current: &str| {
        dedup_summarize("r", reads(vec![], vec![], vec![rejected("r", "h1")], current)).unwrap()
    };
    assert_eq!(run("h1"), Some("suppressed_rejected"));
    assert_eq!(run("h2"), None);
}

#[test]
fn the_most_recent_rejection_of_this_review_counts() {
    let rows = || vec![rejected("r", "h1"), rejected("r", "h2"), rejected("other", "h3")];
    let run = |current: &str| dedup_summarize("r", reads(vec![], vec![], rows(), current)).unwrap();
    assert_eq!(run("h2"), Some("suppressed_rejected"));
    assert_eq!(run("h1"), None);
    assert_eq!(run("h3"), None);
}

#[test]
fn failed_reads_count_only_when_they_are_needed() {
    let mut r = reads(vec![pending("p", vec![draft("r", "h")])], vec![true], vec![], "h");
    r.rejected = Err(StoreError::Migrate);
    r.current_body_sha256 = Err(StoreError::Migrate);
    assert_eq!(dedup_summarize("r", r).unwrap(), Some("dedup"));
    let mut r = reads(vec![], vec![], vec![], "h");
    r.current_body_sha256 = Err(StoreError::Migrate);
    assert_eq!(dedup_summarize("r", r).unwrap(), None);
    let mut r = reads(vec![], vec![], vec![rejected("r", "h")], "h");
    r.current_body_sha256 = Err(StoreError::Serde);
    assert!(matches!(dedup_summarize("r", r), Err(StoreError::Serde)));
    let mut r = reads(vec![], vec![], vec![], "h");
    r.pending = Err(StoreError::Migrate);
    assert_eq!(summarize_plan("r", r), None);
}

#[test]
fn a_run_shows_its_review() {
    let run = |o: SummarizeOutcome| {
        let (word, items) = summarize_end("r".into(), Some(o));
        assert_eq!(items.len(), 1);
        assert_eq!(items[0].target, "r");
        (word, items[0].result.clone(), items[0].reason)
    };
    let ran = SummarizeOutcome::Ran;
    assert_eq!(
        run(SummarizeOutcome::LeftAlone("suppressed_rejected")),
        ("done", "skipped".into(), Some("suppressed_rejected"))
    );
    assert_eq!(
        run(ran(SummarizeItemResult::Skipped)),
        ("done", "skipped".into(), Some("human_text"))
    );
    assert_eq!(
        run(ran(SummarizeItemResult::Proposed("p".into()))),
        ("done", "proposed".into(), None)
    );
    assert_eq!(
        run(ran(SummarizeItemResult::ReadFailed("m".into()))),
        ("aborted", "aborted".into(), None)
    );
    assert_eq!(run(ran(SummarizeItemResult::Aborted)).0, "aborted");
    assert_eq!(item_result_str(&SummarizeItemResult::Nothing), "nothing");
    assert_eq!(item_result_str(&SummarizeItemResult::Deferred), "deferred");
    assert_eq!(item_result_str(&SummarizeItemResult::Rejected), "rejected");
}

fn message(body: &Json) -> (String, String) {
    let Json::Object(outer) = body else { panic!() };
    let Json::Object(inner) = &outer[0].1 else { panic!() };
    match (&inner[0].1, &inner[1].1) {
        (Json::Text(c), Json::Text(m)) => (c.clone(), m.clone()),
        _ => panic!(),
    }
}

#[test]
fn refused_reviews_are_answered_with_the_reason() {
    for (e, status, code, text) in [
        (
            SummarizeInputError::UnknownReview("r".into()),
            404,
            "not_found",
            "review r does not exist",
        ),
        (
            SummarizeInputError::UnsupportedKind("Daily".into()),
            400,
            "unsupported_kind",
            "summarize only supports weekly reviews, got Daily",
        ),
        (
            SummarizeInputError::NotDraft("r".into(), "Finalized".into()),
            409,
            "conflict",
            "review r is not a draft (status Finalized)",
        ),
        (SummarizeInputError::ReadFailed("m".into()), 500, "internal", "m"),
    ] {
        let r = summarize_input_error(e);
        assert_eq!(r.status, status);
        assert_eq!(message(&r.body), (code.to_string(), text.to_string()));
    }
}

#[test]
fn triggering_while_busy_names_the_run() {
    let mut s = Sin90State::new(ActorKeys {
        human: "human-secret".into(),
        automation: "auto-secret".into(),
    });
    let mut auto = HeaderMap::new();
    auto.insert("x-sin90-actor-key", HeaderValue::from_static("auto-secret"));
    s.ai_runs.start(Capability::Summarize, "run-already-going");
    let req = || Ok(SummarizeReq { review_id: "r".into() });
    let r = trigger_summarize(&mut s, &auto, req(), Ok("r".into()), "1");
    assert_eq!(r.reply.status, 409);
    let Json::Object(f) = &r.reply.body else { panic!() };
    assert!(matches!(&f[0].1, Json::Text(t) if t == "ai_busy"));
    assert!(matches!(&f[1].1, Json::Text(t) if t == "run-already-going"));
    let r = trigger_summarize(&mut s, &HeaderMap::new(), req(), Ok("r".into()), "1");
    assert_eq!(r.reply.status, 403);
    let r = trigger_summarize(&mut s, &auto, Err("x".into()), Ok("r".into()), "1");
    assert_eq!(message(&r.reply.body).1, "invalid ai summarize request: x");
    let missing = Err(SummarizeInputError::UnknownReview("r".into()));
    assert_eq!(trigger_summarize(&mut s, &auto, req(), missing, "1").reply.status, 404);
}

#[test]
fn a_run_past_its_deadline_is_aborted_and_the_next_one_starts() {
    let mut s = Sin90State::new(ActorKeys {
        human: "human-secret".into(),
        automation: "auto-secret".into(),
    });
    let mut auto = HeaderMap::new();
    auto.insert("x-sin90-actor-key", HeaderValue::from_static("auto-secret"));
    let req = || Ok(SummarizeReq { review_id: "r".into() });
    let first = trigger_summarize(&mut s, &auto, req(), Ok("r".into()), "1");
    assert_eq!(first.reply.status, 202);
    let mut run = first.started.unwrap();
    let (word, items) = summarize_end(run.input, None);
    run.guard.finish(&mut s.ai_runs, word, items);
    let rec = s.ai_runs.get("run-1").unwrap();
    assert_eq!(rec.state, "aborted");
    assert!(rec.items.is_empty());
    assert_eq!(s.ai_runs.busy_run(Capability::Summarize), None);
    let second = trigger_summarize(&mut s, &auto, req(), Ok("r".into()), "2");
    assert_eq!(second.reply.status, 202);
}
