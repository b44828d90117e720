//! The service's state: the actor keys and the AI runs, who may call
//! what, and the way events leave.
use super::actor::{forbidden, Actor, ActorKeys};
use super::ai_runs::{RegistryV, RunRegistry};
use super::{error, Event, Outcome, Reply, ReplyV};
use crate::json::{fields_value, Json, JsonV};
use axum::http::{HeaderMap, HeaderValue};
use vstd::prelude::*;

verus! {

/// How many model calls this module keeps in flight at once.
pub const MODEL_MAX_IN_FLIGHT_PER_MODULE: usize = 2;

/// Whoever collects the emitted events.
pub trait EventSink {
    /// The events the sink may be given, by kind and payload: any, unless an
    /// implementation says otherwise.
    open spec fn takes(&self, kind: Seq<char>, payload: Seq<(Seq<char>, JsonV)>) -> bool {
        true
    }

    /// The sink was given this event, as far as an implementation tells.
    open spec fn told(&self, kind: Seq<char>, payload: Seq<(Seq<char>, JsonV)>) -> bool {
        true
    }

    /// Takes an event: its kind and the fields of its payload.
    fn emit(&self, kind: &str, payload: &Vec<(String, Json)>)
        requires
            self.takes(kind@, fields_value(payload@)),
        ensures
            self.told(kind@, fields_value(payload@)),
    ;
}

/// Drops every event.
pub struct NullEventSink;

impl EventSink for NullEventSink {
    fn emit(&self, _kind: &str, _payload: &Vec<(String, Json)>) {
    }
}

/// The state the routes share.
pub struct Sin90State {
    pub actor_keys: ActorKeys,
    pub ai_runs: RunRegistry,
}

/// The reply to a caller who is turned away. It does not say whether the key
/// is missing, unknown or of the wrong kind.
pub open spec fn unknown_caller() -> ReplyV {
    error(403, "forbidden"@, "missing or unrecognized actor key"@)
}

/// The reply that turns a caller away from a direct write, if it does.
pub open spec fn human_gate(sender: Option<Actor>) -> Option<ReplyV> {
    if sender == Some(Actor::Human) {
        None
    } else {
        Some(unknown_caller())
    }
}

/// The reply that turns a caller without a known key away, if it does.
pub open spec fn any_actor_gate(sender: Option<Actor>) -> Option<ReplyV> {
    match sender {
        Some(_) => None,
        None => Some(unknown_caller()),
    }
}

/// The sink was told the first `n` of `events`.
pub open spec fn told_up_to<S: EventSink>(sink: &S, events: Seq<Event>, n: int) -> bool {
    forall|i: int|
        0 <= i < n ==> ((#[trigger] events[i]).payload@ matches JsonV::Object(fields) ==> sink.told(
            events[i].kind@,
            fields,
        ))
}

impl Sin90State {
    /// A state in which no run was started yet.
    pub fn new(actor_keys: ActorKeys) -> (r: Self)
        ensures
            r.actor_keys == actor_keys,
            r.ai_runs@ == RegistryV::empty(),
    {
        Sin90State { actor_keys, ai_runs: RunRegistry::default() }
    }

    /// Hands an event to `sink`: its kind and the fields of its payload, and
    /// nothing else. The payload of an event is an object; anything else is
    /// dropped.
    pub fn emit<S: EventSink>(&self, sink: &S, kind: &str, payload: &Json) -> (delivered: bool)
        requires
            payload@ matches JsonV::Object(fields) ==> sink.takes(kind@, fields),
        ensures
            delivered == (payload@ is Object),
            payload@ matches JsonV::Object(fields) ==> sink.told(kind@, fields),
    {
        match payload {
            Json::Object(fields) => {
                sink.emit(kind, fields);
                true
            },
            _ => false,
        }
    }

    /// Hands the events of an outcome to `sink`, in order, and gives the
    /// reply. The sink has to take an event only once it was told all the
    /// earlier ones.
    pub fn deliver<S: EventSink>(&self, sink: &S, outcome: Outcome) -> (r: Reply)
        requires
            forall|i: int|
                0 <= i < outcome.events@.len() && told_up_to(sink, outcome.events@, i) ==> ((
                #[trigger] outcome.events@[i]).payload@ matches JsonV::Object(fields) ==> sink.takes(
                    outcome.events@[i].kind@,
                    fields,
                )),
        ensures
            r == outcome.reply,
            told_up_to(sink, outcome.events@, outcome.events@.len() as int),
    {
        let mut i: usize = 0;
        while i < outcome.events.len()
            invariant
                i <= outcome.events@.len(),
                forall|i: int|
                    0 <= i < outcome.events@.len() && told_up_to(sink, outcome.events@, i) ==> ((
                    #[trigger] outcome.events@[i]).payload@ matches JsonV::Object(fields)
                        ==> sink.takes(outcome.events@[i].kind@, fields)),
                told_up_to(sink, outcome.events@, i as int),
            decreases outcome.events@.len() - i,
        {
            let event = &outcome.events[i];
            self.emit(sink, event.kind, &event.payload);
            i = i + 1;
        }
        outcome.reply
    }

    /// Lets only the human key through.
    pub fn require_human(&self, headers: &HeaderMap<HeaderValue>) -> (r: Result<(), Reply>)
        ensures
            match r {
                Ok(_) => human_gate(self.actor_keys.sender(*headers)) is None,
                Err(reply) => human_gate(self.actor_keys.sender(*headers)) == Some(reply@),
            },
    {
        match self.actor_keys.identify(headers) {
            Some(Actor::Human) => Ok(()),
            _ => Err(forbidden("missing or unrecognized actor key")),
        }
    }

    /// Lets either key through.
    pub fn require_any_actor(&self, headers: &HeaderMap<HeaderValue>) -> (r: Result<(), Reply>)
        ensures
            match r {
                Ok(_) => any_actor_gate(self.actor_keys.sender(*headers)) is None,
                Err(reply) => any_actor_gate(self.actor_keys.sender(*headers)) == Some(reply@),
            },
    {
        match self.actor_keys.identify(headers) {
            Some(_) => Ok(()),
            None => Err(forbidden("missing or unrecognized actor key")),
        }
    }
}

/// Only the human passes where the human key is needed, anyone with a known
/// key passes where any key does, and everyone else gets one and the same 403.
pub proof fn law_who_passes(sender: Option<Actor>)
    ensures
        human_gate(sender) is None <==> sender == Some(Actor::Human),
        any_actor_gate(sender) is None <==> sender is Some,
        human_gate(sender) matches Some(reply) ==> reply == error(
            403,
            "forbidden"@,
            "missing or unrecognized actor key"@,
        ),
        any_actor_gate(sender) matches Some(reply) ==> reply == error(
            403,
            "forbidden"@,
            "missing or unrecognized actor key"@,
        ),
{
}

/// A sink that was told so many events was told each one of them: its kind and
/// the fields of its payload.
pub proof fn law_each_event_was_told<S: EventSink>(
    sink: &S,
    events: Seq<Event>,
    n: int,
    i: int,
    fields: Seq<(Seq<char>, JsonV)>,
)
    requires
        told_up_to(sink, events, n),
        0 <= i < n,
        events[i].payload@ == JsonV::Object(fields),
    ensures
        sink.told(events[i].kind@, fields),
{
}

} // verus!
