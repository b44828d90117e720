//! `POST /_a24/scheduler/fired`: the kernel's scheduler reports that a
//! routine's time has come.
use super::actor::{get_header, header_contents, header_text};
use super::handlers::{refused, review_created, review_payload};
use super::route::{parse, parse_error, Route};
use super::{
    error, error_response, map_err, ok, quiet, Event, EventV, Outcome, OutcomeV, Reply,
    ReplyV,
};
use crate::json::{obj1, obj2, obj3, obj4, text, Fields, Json, JsonV};
use crate::model::StoreError;
use axum::http::{HeaderMap, HeaderValue};
use vstd::prelude::*;
use vstd::utf8::encode_utf8;

verus! {

/// The header that names the firing.
pub const FIRE_ID_HEADER: &'static str = "x-a24-fire-id";

/// The reply to a firing without an id.
pub open spec fn missing_fire_id() -> ReplyV {
    error(400, "invalid_request"@, "missing required header X-A24-Fire-Id"@)
}

/// The id of the firing: required, and not empty.
pub open spec fn fire_id(headers: HeaderMap<HeaderValue>) -> Option<Seq<u8>> {
    match header_text(header_contents(headers), FIRE_ID_HEADER@) {
        Some(id) => if id.len() > 0 {
            Some(id)
        } else {
            None
        },
        None => None,
    }
}

/// The id of the firing, or the reply to a request without one.
pub fn require_fire_id<'a>(headers: &'a HeaderMap<HeaderValue>) -> (r: Result<&'a str, Reply>)
    ensures
        match r {
            Ok(id) => fire_id(*headers) == Some(encode_utf8(id@)),
            Err(reply) => fire_id(*headers) is None && reply@ == missing_fire_id(),
        },
{
    proof {
        reveal_strlit("x-a24-fire-id");
    }
    match get_header(headers, FIRE_ID_HEADER) {
        Some(id) => if id.as_bytes().len() > 0 {
            Ok(id)
        } else {
            Err(error_response(400, "invalid_request", "missing required header X-A24-Fire-Id"))
        },
        None => Err(
            error_response(400, "invalid_request", "missing required header X-A24-Fire-Id"),
        ),
    }
}

/// The body of a firing.
#[derive(Debug)]
pub struct FiredReq {
    pub key: String,
    pub scheduled_for: String,
    pub fired_at: String,
    /// What set the firing off, by its wire name.
    pub trigger: String,
}

/// The reply to times that are not fixed-width.
pub open spec fn bad_times() -> ReplyV {
    error(
        400,
        "invalid_request"@,
        "scheduled_for and fired_at must be fixed-width ISO-8601 (YYYY-MM-DDThh:mm:ssZ)"@,
    )
}

/// Why a firing is refused before the store is asked, if it is. The id is
/// checked first, then the body, then its times.
pub open spec fn fired_fault(
    headers: HeaderMap<HeaderValue>,
    parsed: Result<FiredReq, String>,
    times_ok: bool,
) -> Option<ReplyV> {
    if fire_id(headers) is None {
        Some(missing_fire_id())
    } else if let Err(why) = parsed {
        Some(parse_error("fired"@, why@))
    } else if !times_ok {
        Some(bad_times())
    } else {
        None
    }
}

/// Checks a firing before the store is asked. `times_ok` says whether both
/// times have the fixed-width form. Gives the id and the body.
pub fn fired_request(
    headers: &HeaderMap<HeaderValue>,
    parsed: Result<FiredReq, String>,
    times_ok: bool,
) -> (r: Result<(String, FiredReq), Reply>)
    ensures
        match r {
            Ok(accepted) => {
                &&& fired_fault(*headers, parsed, times_ok) is None
                &&& fire_id(*headers) == Some(encode_utf8(accepted.0@))
                &&& parsed == Ok::<FiredReq, String>(accepted.1)
            },
            Err(reply) => fired_fault(*headers, parsed, times_ok) == Some(reply@),
        },
{
    let id = match require_fire_id(headers) {
        Ok(id) => id.to_owned(),
        Err(reply) => return Err(reply),
    };
    let req = match parse(parsed, Route::SchedulerFired.body_name()) {
        Ok(req) => req,
        Err(reply) => return Err(reply),
    };
    if !times_ok {
        return Err(
            error_response(
                400,
                "invalid_request",
                "scheduled_for and fired_at must be fixed-width ISO-8601 (YYYY-MM-DDThh:mm:ssZ)",
            ),
        );
    }
    Ok((id, req))
}

/// A weekly review the firing created.
#[derive(Debug)]
pub struct AutoReviewCreated {
    pub review_id: String,
    pub period: String,
}

/// What recording a firing gave.
#[derive(Debug)]
pub enum RoutineFireOutcome {
    Recorded { routine_id: String, auto_review: Option<AutoReviewCreated> },
    /// This firing was recorded before.
    Duplicate { routine_id: String },
    /// No routine has this key.
    UnknownKey,
    RoutineRetired { routine_id: String },
}

/// The events of a firing: one when it is recorded, and one more for the
/// review it created. A firing that was recorded before, or that belongs to
/// no live routine, emits none.
pub open spec fn fired_events(
    fire_id: Seq<char>,
    req: FiredReq,
    outcome: RoutineFireOutcome,
) -> Seq<EventV> {
    match outcome {
        RoutineFireOutcome::Recorded { routine_id, auto_review } => {
            let fired = Seq::empty().push(
                EventV {
                    kind: "routine.fired"@,
                    payload: obj4(
                        "routine_id"@,
                        JsonV::Text(routine_id@),
                        "fire_id"@,
                        JsonV::Text(fire_id),
                        "scheduled_for"@,
                        JsonV::Text(req.scheduled_for@),
                        "trigger"@,
                        JsonV::Text(req.trigger@),
                    ),
                },
            );
            match auto_review {
                Some(review) => fired.push(
                    EventV {
                        kind: "review.created"@,
                        payload: review_payload(
                            review.review_id@,
                            "weekly"@,
                            review.period@,
                            "draft"@,
                            "routine"@,
                        ),
                    },
                ),
                None => fired,
            }
        },
        _ => Seq::empty(),
    }
}

/// The reply to a firing: always a success once the store has answered, so
/// that the scheduler does not deliver it again.
pub open spec fn fired_reply(outcome: RoutineFireOutcome) -> ReplyV {
    ok(
        match outcome {
            RoutineFireOutcome::Recorded { routine_id, auto_review } => obj3(
                "status"@,
                JsonV::Text("recorded"@),
                "routine_id"@,
                JsonV::Text(routine_id@),
                "review_created"@,
                match auto_review {
                    Some(review) => JsonV::Text(review.review_id@),
                    None => JsonV::Null,
                },
            ),
            RoutineFireOutcome::Duplicate { routine_id } => obj2(
                "status"@,
                JsonV::Text("duplicate"@),
                "routine_id"@,
                JsonV::Text(routine_id@),
            ),
            RoutineFireOutcome::UnknownKey => obj1("status"@, JsonV::Text("unknown_key"@)),
            RoutineFireOutcome::RoutineRetired { routine_id } => obj2(
                "status"@,
                JsonV::Text("routine_retired"@),
                "routine_id"@,
                JsonV::Text(routine_id@),
            ),
        },
    )
}

/// `{"status": status, "routine_id": id}` with status 200.
fn status_of(status: &str, routine_id: &str) -> (r: Reply)
    ensures
        r@ == ok(
            obj2("status"@, JsonV::Text(status@), "routine_id"@, JsonV::Text(routine_id@)),
        ),
{
    let body = Fields::new().with("status", text(status)).with(
        "routine_id",
        text(routine_id),
    ).object();
    Reply { status: 200, body }
}

/// The outcome of a firing, once the store has recorded it.
pub fn scheduler_fired(
    fire_id: &str,
    req: &FiredReq,
    stored: Result<RoutineFireOutcome, StoreError>,
) -> (r: Outcome)
    ensures
        r@.objects_only(),
        r@ == match stored {
            Ok(outcome) => OutcomeV {
                events: fired_events(fire_id@, *req, outcome),
                reply: fired_reply(outcome),
            },
            Err(e) => refused(e),
        },
{
    match stored {
        Ok(RoutineFireOutcome::Recorded { routine_id, auto_review }) => {
            let payload = Fields::new().with("routine_id", text(routine_id.as_str())).with(
                "fire_id",
                text(fire_id),
            ).with("scheduled_for", text(req.scheduled_for.as_str())).with(
                "trigger",
                text(req.trigger.as_str()),
            ).object();
            let mut events: Vec<Event> = Vec::new();
            events.push(Event { kind: "routine.fired", payload });
            let made = match &auto_review {
                Some(review) => {
                    let payload = review_created(
                        review.review_id.as_str(),
                        "weekly",
                        review.period.as_str(),
                        "draft",
                        "routine",
                    );
                    events.push(Event { kind: "review.created", payload });
                    text(review.review_id.as_str())
                },
                None => Json::Null,
            };
            let body = Fields::new().with("status", text("recorded")).with(
                "routine_id",
                text(routine_id.as_str()),
            ).with("review_created", made).object();
            let r = Outcome { events, reply: Reply { status: 200, body } };
            assert(r@.events =~= fired_events(
                fire_id@,
                *req,
                RoutineFireOutcome::Recorded { routine_id, auto_review },
            ));
            r
        },
        Ok(RoutineFireOutcome::Duplicate { routine_id }) => quiet(
            status_of("duplicate", routine_id.as_str()),
        ),
        Ok(RoutineFireOutcome::UnknownKey) => {
            let body = Fields::new().with("status", text("unknown_key")).object();
            quiet(Reply { status: 200, body })
        },
        Ok(RoutineFireOutcome::RoutineRetired { routine_id }) => quiet(
            status_of("routine_retired", routine_id.as_str()),
        ),
        Err(e) => quiet(map_err(e)),
    }
}

/// Once the store has answered, a firing is answered with success whatever
/// became of it, and only a recorded one emits events.
pub proof fn law_only_recorded_firings_emit(
    fire_id: Seq<char>,
    req: FiredReq,
    outcome: RoutineFireOutcome,
)
    ensures
        fired_reply(outcome).status == 200,
        outcome is Recorded <==> fired_events(fire_id, req, outcome).len() > 0,
        outcome matches RoutineFireOutcome::Recorded { auto_review, .. } ==> fired_events(
            fire_id,
            req,
            outcome,
        ).len() == if auto_review is Some {
            2nat
        } else {
            1nat
        },
{
}

/// The id of a firing is what its header holds, byte for byte; a header that
/// is missing, empty or not text gives none.
pub proof fn law_the_fire_id_is_the_header(headers: HeaderMap<HeaderValue>, id: Seq<u8>)
    ensures
        fire_id(headers) == Some(id) <==> {
            let contents = header_contents(headers);
            &&& contents.contains_key("x-a24-fire-id"@)
            &&& contents["x-a24-fire-id"@] == id
            &&& id.len() > 0
            &&& forall|i: int| 0 <= i < id.len() ==> (32 <= #[trigger] id[i] < 127 || id[i] == 9)
        },
{
}

/// A firing is accepted exactly when it has an id, its body parses and its
/// times are well formed. Of several faults the first in that order is told.
pub proof fn law_what_a_firing_is_refused_for(
    headers: HeaderMap<HeaderValue>,
    parsed: Result<FiredReq, String>,
    times_ok: bool,
)
    ensures
        fired_fault(headers, parsed, times_ok) is None <==> fire_id(headers) is Some && parsed is Ok
            && times_ok,
        fire_id(headers) is None ==> fired_fault(headers, parsed, times_ok) == Some(
            error(400, "invalid_request"@, "missing required header X-A24-Fire-Id"@),
        ),
        fire_id(headers) is Some ==> (parsed matches Err(why) ==> fired_fault(
            headers,
            parsed,
            times_ok,
        ) == Some(error(400, "invalid_request"@, "invalid "@ + "fired"@ + ": "@ + why@))),
        fire_id(headers) is Some && parsed is Ok && !times_ok ==> fired_fault(
            headers,
            parsed,
            times_ok,
        ) == Some(
            error(
                400,
                "invalid_request"@,
                "scheduled_for and fired_at must be fixed-width ISO-8601 (YYYY-MM-DDThh:mm:ssZ)"@,
            ),
        ),
{
}

/// What is told of a recorded firing: the routine, the firing's id, the time
/// it was due and what set it off, and after it the review it created.
pub proof fn law_what_a_recorded_firing_tells(
    id: Seq<char>,
    req: FiredReq,
    routine_id: String,
    review: AutoReviewCreated,
)
    ensures
        ({
            let alone = fired_events(
                id,
                req,
                RoutineFireOutcome::Recorded { routine_id, auto_review: None },
            );
            let both = fired_events(
                id,
                req,
                RoutineFireOutcome::Recorded { routine_id, auto_review: Some(review) },
            );
            &&& alone.len() == 1
            &&& both.len() == 2
            &&& both[0] == alone[0]
            &&& alone[0].kind == "routine.fired"@
            &&& alone[0].payload == obj4(
                "routine_id"@,
                JsonV::Text(routine_id@),
                "fire_id"@,
                JsonV::Text(id),
                "scheduled_for"@,
                JsonV::Text(req.scheduled_for@),
                "trigger"@,
                JsonV::Text(req.trigger@),
            )
            &&& both[1].kind == "review.created"@
            &&& both[1].payload == review_payload(
                review.review_id@,
                "weekly"@,
                review.period@,
                "draft"@,
                "routine"@,
            )
        }),
{
}

/// What each firing is answered.
pub proof fn law_what_a_firing_is_answered(routine_id: String, review: AutoReviewCreated)
    ensures
        fired_reply(RoutineFireOutcome::Recorded { routine_id, auto_review: None }) == ok(
            obj3(
                "status"@,
                JsonV::Text("recorded"@),
                "routine_id"@,
                JsonV::Text(routine_id@),
                "review_created"@,
                JsonV::Null,
            ),
        ),
        fired_reply(RoutineFireOutcome::Recorded { routine_id, auto_review: Some(review) }) == ok(
            obj3(
                "status"@,
                JsonV::Text("recorded"@),
                "routine_id"@,
                JsonV::Text(routine_id@),
                "review_created"@,
                JsonV::Text(review.review_id@),
            ),
        ),
        fired_reply(RoutineFireOutcome::Duplicate { routine_id }) == ok(
            obj2("status"@, JsonV::Text("duplicate"@), "routine_id"@, JsonV::Text(routine_id@)),
        ),
        fired_reply(RoutineFireOutcome::UnknownKey) == ok(
            obj1("status"@, JsonV::Text("unknown_key"@)),
        ),
        fired_reply(RoutineFireOutcome::RoutineRetired { routine_id }) == ok(
            obj2(
                "status"@,
                JsonV::Text("routine_retired"@),
                "routine_id"@,
                JsonV::Text(routine_id@),
            ),
        ),
{
}

} // verus!
