use axum::http::{HeaderMap, HeaderValue};
use sin90::http::actor::ActorKeys;
use sin90::http::route::{all_routes, parse, router, Gate, Method, Route};
use sin90::http::state::Sin90State;
use sin90::json::Json;
use sin90::routes::ROUTES;

#[test]
fn routes_are_relative_not_namespaced() {
    for (_, path) in ROUTES {
        assert!(path.starts_with('/'), "{path}");
        assert!(
            !path.starts_with("/api/"),
            "{path} 带了命名空间前缀；内核会再加一次"
        );
    }
    assert!("/api/v1/sin90/directions".starts_with("/api/"));
}

fn state() -> Sin90State {
    Sin90State::new(ActorKeys {
        human: "human-secret".into(),
        automation: "auto-secret".into(),
    })
}

fn key(value: &'static str) -> HeaderMap {
    let mut h = HeaderMap::new();
    h.insert("x-sin90-actor-key", HeaderValue::from_static(value));
    h
}

fn message(body: &Json) -> String {
    let Json::Object(outer) = body else { panic!() };
    let Json::Object(inner) = &outer[0].1 else { panic!() };
    let Json::Text(m) = &inner[1].1 else { panic!() };
    m.clone()
}

#[test]
fn every_declared_route_is_served() {
    let table = router(true);
    for (methods, path) in ROUTES {
        for m in methods.split('|') {
            let method = match m {
                "GET" => Method::Get,
                "POST" => Method::Post,
                "PATCH" => Method::Patch,
                _ => Method::Put,
            };
            assert!(
                table.iter().any(|e| e.method == method && e.path == path),
                "{m} {path}"
            );
        }
    }
}

#[test]
fn the_scheduler_callback_is_only_there_when_mounted() {
    let path = "/_a24/scheduler/fired";
    assert!(router(true).iter().any(|e| e.path == path));
    assert!(!router(false).iter().any(|e| e.path == path));
    assert_eq!(all_routes(true).len(), all_routes(false).len() + 1);
}

#[test]
fn no_two_entries_collide() {
    let table = router(true);
    for (i, a) in table.iter().enumerate() {
        assert!(a.path.starts_with('/') && !a.path.starts_with("/api/"));
        for b in &table[i + 1..] {
            assert!(a.method != b.method || a.path != b.path, "{}", a.path);
        }
    }
}

#[test]
fn the_automation_key_proposes_captures_and_triggers_but_never_decides() {
    let s = state();
    let auto = key("auto-secret");
    for r in [
        Route::SubmitProposal,
        Route::Capture,
        Route::TriggerClassify,
        Route::TriggerPropose,
        Route::TriggerSummarize,
        Route::ListProposals,
        Route::GetAiRun,
    ] {
        assert!(s.pass(r, &auto).is_ok(), "{r:?}");
    }
    for r in [
        Route::AcceptProposal,
        Route::RejectProposal,
        Route::CreateArea,
        Route::TransitionTask,
        Route::UpdateRoutine,
        Route::PutAiSettings,
        Route::InstallPack,
    ] {
        let reply = s.pass(r, &auto).unwrap_err();
        assert_eq!(reply.status, 403);
        // Nothing tells the wrong kind of key from a missing or unknown one.
        assert_eq!(message(&reply.body), "missing or unrecognized actor key");
        assert_eq!(r.gate(), Gate::Human);
    }
}

#[test]
fn the_human_key_opens_everything_and_no_key_only_reads() {
    let s = state();
    for r in all_routes(true) {
        assert!(s.pass(r, &key("human-secret")).is_ok(), "{r:?}");
        for nobody in [HeaderMap::new(), key("nope")] {
            match s.pass(r, &nobody) {
                Ok(()) => assert!(r.method() == Method::Get || r == Route::SchedulerFired),
                Err(reply) => {
                    assert_eq!(reply.status, 403);
                    assert_eq!(message(&reply.body), "missing or unrecognized actor key");
                }
            }
        }
    }
}

#[test]
fn the_sender_is_looked_at_before_the_body() {
    let s = state();
    let bad: Result<u8, String> = Err("expected value at line 1".into());
    let refused = s.receive(Route::CreateArea, &key("auto-secret"), bad.clone());
    assert_eq!(refused.unwrap_err().status, 403);
    let unparsed = s.receive(Route::CreateArea, &key("human-secret"), bad).unwrap_err();
    assert_eq!(unparsed.status, 400);
    assert_eq!(
        message(&unparsed.body),
        "invalid area: expected value at line 1"
    );
    assert_eq!(
        s.receive(Route::CreateArea, &key("human-secret"), Ok(5u8)).unwrap(),
        5
    );
}

#[test]
fn a_body_that_parses_is_handed_on() {
    assert_eq!(parse(Ok(3), "x").unwrap(), 3);
    let failed: Result<i32, String> = Err("bad".into());
    assert_eq!(message(&parse(failed, "x").unwrap_err().body), "invalid x: bad");
}
