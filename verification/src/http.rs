//! The HTTP layer: what each request is answered, and which events it emits.
pub mod actor;
pub mod ai_classify;
pub mod ai_propose;
pub mod ai_runs;
pub mod ai_summarize;
pub mod handlers;
pub mod route;
pub mod scheduler;
pub mod state;

use crate::json::{obj1, obj2, text, Fields, Json, JsonV};
use crate::model::{StoreError, StoreErrorV};
use crate::text::join3;
use vstd::prelude::*;

pub use actor::{Actor, ActorKeys};
pub use route::router;
pub use state::{EventSink, NullEventSink, Sin90State, MODEL_MAX_IN_FLIGHT_PER_MODULE};

verus! {

/// What a request is answered.
#[derive(Debug)]
pub struct Reply {
    pub status: u16,
    pub body: Json,
}

#[verifier::ext_equal]
pub struct ReplyV {
    pub status: u16,
    pub body: JsonV,
}

impl View for Reply {
    type V = ReplyV;

    open spec fn view(&self) -> ReplyV {
        ReplyV { status: self.status, body: self.body@ }
    }
}

/// An event for whoever listens.
#[derive(Debug)]
pub struct Event {
    pub kind: &'static str,
    pub payload: Json,
}

#[verifier::ext_equal]
pub struct EventV {
    pub kind: Seq<char>,
    pub payload: JsonV,
}

impl View for Event {
    type V = EventV;

    open spec fn view(&self) -> EventV {
        EventV { kind: self.kind@, payload: self.payload@ }
    }
}

/// The answer to a request, and the events it emits first, in order.
#[derive(Debug)]
pub struct Outcome {
    pub events: Vec<Event>,
    pub reply: Reply,
}

#[verifier::ext_equal]
pub struct OutcomeV {
    pub events: Seq<EventV>,
    pub reply: ReplyV,
}

impl View for Outcome {
    type V = OutcomeV;

    open spec fn view(&self) -> OutcomeV {
        OutcomeV { events: self.events@.map_values(|e: Event| e@), reply: self.reply@ }
    }
}

/// A successful reply.
pub open spec fn ok(body: JsonV) -> ReplyV {
    ReplyV { status: 200, body }
}

/// An error reply: `{"error": {"code", "message"}}`.
pub open spec fn error(status: u16, code: Seq<char>, message: Seq<char>) -> ReplyV {
    ReplyV {
        status,
        body: obj1(
            "error"@,
            obj2("code"@, JsonV::Text(code), "message"@, JsonV::Text(message)),
        ),
    }
}

/// An error reply.
pub fn error_response(status: u16, code: &str, message: &str) -> (r: Reply)
    ensures
        r@ == error(status, code@, message@),
{
    let detail = Fields::new().with("code", text(code)).with("message", text(message)).object();
    Reply { status, body: Fields::new().with("error", detail).object() }
}

/// The reply to a failure of the store.
pub open spec fn store_reply(err: StoreErrorV) -> ReplyV {
    match err {
        StoreErrorV::NotFound(m) => error(404, "not_found"@, m),
        StoreErrorV::Transition(m) => error(409, "conflict"@, m),
        StoreErrorV::Proposal(m) => error(422, "unprocessable"@, m),
        StoreErrorV::Conflict(m) => error(409, "conflict"@, m),
        StoreErrorV::Invalid(m) => error(400, "invalid_request"@, m),
        StoreErrorV::WeekNotOpen(task) => error(
            409,
            "conflict"@,
            "task "@ + task + "'s week is not open"@,
        ),
        StoreErrorV::SameWeekCarry(task) => error(
            409,
            "conflict"@,
            "cannot carry task "@ + task + " into its own week"@,
        ),
        StoreErrorV::Sqlx { fk_violation } => if fk_violation {
            error(404, "not_found"@, "a referenced entity does not exist"@)
        } else {
            error(500, "internal"@, "store error"@)
        },
        StoreErrorV::Internal(_) | StoreErrorV::Migrate | StoreErrorV::Serde => error(
            500,
            "internal"@,
            "store error"@,
        ),
    }
}

/// The reply to a failure of the store.
pub fn map_err(err: StoreError) -> (r: Reply)
    ensures
        r@ == store_reply(err.deep_view()),
{
    if err.is_fk_violation() {
        return error_response(404, "not_found", "a referenced entity does not exist");
    }
    match err {
        StoreError::NotFound(m) => error_response(404, "not_found", m.as_str()),
        StoreError::Transition(m) => error_response(409, "conflict", m.as_str()),
        StoreError::Proposal(m) => error_response(422, "unprocessable", m.as_str()),
        StoreError::Conflict(m) => error_response(409, "conflict", m.as_str()),
        StoreError::Invalid(m) => error_response(400, "invalid_request", m.as_str()),
        StoreError::WeekNotOpen(task) => {
            let message = join3("task ", task.as_str(), "'s week is not open");
            error_response(409, "conflict", message.as_str())
        },
        StoreError::SameWeekCarry(task) => {
            let message = join3("cannot carry task ", task.as_str(), " into its own week");
            error_response(409, "conflict", message.as_str())
        },
        StoreError::Internal(_) | StoreError::Sqlx { .. } | StoreError::Migrate
        | StoreError::Serde => error_response(500, "internal", "store error"),
    }
}

/// A reply without events.
pub open spec fn silent(reply: ReplyV) -> OutcomeV {
    OutcomeV { events: Seq::empty(), reply }
}

/// A reply without events.
pub fn quiet(reply: Reply) -> (r: Outcome)
    ensures
        r@ == silent(reply@),
{
    let r = Outcome { events: Vec::new(), reply };
    assert(r@.events =~= Seq::empty());
    r
}

/// A reply after one event. The payload of an event is an object.
pub fn loud(kind: &'static str, payload: Json, reply: Reply) -> (r: Outcome)
    requires
        payload@ is Object,
    ensures
        r@ == (OutcomeV {
            events: Seq::empty().push(EventV { kind: kind@, payload: payload@ }),
            reply: reply@,
        }),
{
    let mut events: Vec<Event> = Vec::new();
    events.push(Event { kind, payload });
    let r = Outcome { events, reply };
    assert(r@.events =~= Seq::empty().push(EventV { kind: kind@, payload: payload@ }));
    r
}

impl OutcomeV {
    /// The payload of every event is an object.
    pub open spec fn objects_only(self) -> bool {
        forall|i: int| 0 <= i < self.events.len() ==> (#[trigger] self.events[i]).payload is Object
    }

    /// The request succeeded.
    pub open spec fn succeeded(self) -> bool {
        200 <= self.reply.status < 300
    }
}

/// An error reply has the status and, under `error`, the code and the message.
pub proof fn law_an_error_reply_says_what_it_was_given(
    status: u16,
    code: Seq<char>,
    message: Seq<char>,
)
    ensures
        error(status, code, message).status == status,
        error(status, code, message).body matches JsonV::Object(outer) && outer.len() == 1
            && outer[0].0 == "error"@ && (outer[0].1 matches JsonV::Object(inner) && inner.len()
            == 2 && inner[0] == ("code"@, JsonV::Text(code)) && inner[1] == (
            "message"@,
            JsonV::Text(message),
        )),
{
}

/// Each failure of the store is answered with its own status and code: what is
/// missing is a 404, what conflicts a 409, what does not apply a 422, what is
/// malformed a 400, and the store's own trouble a 500 that tells nothing of it.
pub proof fn law_each_store_failure_has_its_status(m: Seq<char>)
    ensures
        store_reply(StoreErrorV::NotFound(m)) == error(404, "not_found"@, m),
        store_reply(StoreErrorV::Transition(m)) == error(409, "conflict"@, m),
        store_reply(StoreErrorV::Proposal(m)) == error(422, "unprocessable"@, m),
        store_reply(StoreErrorV::Conflict(m)) == error(409, "conflict"@, m),
        store_reply(StoreErrorV::Invalid(m)) == error(400, "invalid_request"@, m),
        store_reply(StoreErrorV::WeekNotOpen(m)) == error(
            409,
            "conflict"@,
            "task "@ + m + "'s week is not open"@,
        ),
        store_reply(StoreErrorV::SameWeekCarry(m)) == error(
            409,
            "conflict"@,
            "cannot carry task "@ + m + " into its own week"@,
        ),
        store_reply(StoreErrorV::Sqlx { fk_violation: true }) == error(
            404,
            "not_found"@,
            "a referenced entity does not exist"@,
        ),
        store_reply(StoreErrorV::Sqlx { fk_violation: false }) == error(
            500,
            "internal"@,
            "store error"@,
        ),
        store_reply(StoreErrorV::Internal(m)) == error(500, "internal"@, "store error"@),
        store_reply(StoreErrorV::Migrate) == error(500, "internal"@, "store error"@),
        store_reply(StoreErrorV::Serde) == error(500, "internal"@, "store error"@),
{
}

/// A failure is seen as the kind it is, with its text.
pub proof fn law_a_store_failure_is_seen_as_it_is(e: StoreError)
    ensures
        e matches StoreError::NotFound(m) ==> e.deep_view() == StoreErrorV::NotFound(m@),
        e matches StoreError::Transition(m) ==> e.deep_view() == StoreErrorV::Transition(m@),
        e matches StoreError::Proposal(m) ==> e.deep_view() == StoreErrorV::Proposal(m@),
        e matches StoreError::Conflict(m) ==> e.deep_view() == StoreErrorV::Conflict(m@),
        e matches StoreError::Invalid(m) ==> e.deep_view() == StoreErrorV::Invalid(m@),
        e matches StoreError::WeekNotOpen(m) ==> e.deep_view() == StoreErrorV::WeekNotOpen(m@),
        e matches StoreError::SameWeekCarry(m) ==> e.deep_view() == StoreErrorV::SameWeekCarry(m@),
        e matches StoreError::Internal(m) ==> e.deep_view() == StoreErrorV::Internal(m@),
        e matches StoreError::Sqlx { fk_violation } ==> e.deep_view() == (StoreErrorV::Sqlx {
            fk_violation,
        }),
        e is Migrate ==> e.deep_view() is Migrate,
        e is Serde ==> e.deep_view() is Serde,
{
}

/// A plain reply is a 200 with its body and no event; an outcome is seen by
/// its events, in order, and its reply.
pub proof fn law_an_outcome_is_seen_by_its_events_and_reply(outcome: Outcome, body: JsonV, i: int)
    ensures
        ok(body).status == 200,
        ok(body).body == body,
        silent(ok(body)).events.len() == 0,
        silent(ok(body)).reply == ok(body),
        outcome@.reply.status == outcome.reply.status,
        outcome@.reply.body == outcome.reply.body@,
        outcome@.events.len() == outcome.events@.len(),
        0 <= i < outcome.events@.len() ==> outcome@.events[i].kind == outcome.events@[i].kind@
            && outcome@.events[i].payload == outcome.events@[i].payload@,
{
}

} // verus!
