//! The routes: where each one is mounted, and who may call it.
use super::state::{any_actor_gate, human_gate, Sin90State};
use super::{error, error_response, Reply, ReplyV};
use crate::http::actor::Actor;
use crate::text::join3;
use axum::http::{HeaderMap, HeaderValue};
use vstd::prelude::*;

verus! {

#[derive(Debug, Clone, Copy, PartialEq, Eq, Structural)]
pub enum Method {
    Get,
    Post,
    Patch,
    Put,
}

/// Who may call a route.
#[derive(Debug, Clone, Copy, PartialEq, Eq, Structural)]
pub enum Gate {
    /// Everyone.
    Open,
    /// Holders of either key.
    AnyActor,
    /// Holders of the human key.
    Human,
}

/// The routes.
#[derive(Debug, Clone, Copy, PartialEq, Eq, Structural)]
pub enum Route {
    CreateArea,
    ListAreas,
    TransitionArea,
    CreateDirection,
    ListDirections,
    CreateTask,
    ListTasks,
    TransitionTask,
    CreateBlock,
    ListBlocks,
    TransitionBlock,
    CreateWeek,
    ListWeeks,
    TransitionWeek,
    WeekAttention,
    CreateRhythm,
    ListRhythms,
    GetRhythm,
    SubmitProposal,
    ListProposals,
    GetProposal,
    AcceptProposal,
    RejectProposal,
    Attention,
    ListEvents,
    InstallPack,
    Capture,
    Today,
    CreateRoutine,
    ListRoutines,
    GetRoutine,
    UpdateRoutine,
    TransitionRoutine,
    CreateReview,
    ListReviews,
    GetReview,
    UpdateReview,
    FinalizeReview,
    WeeklyReviewDraft,
    GetAiSettings,
    PutAiSettings,
    TriggerClassify,
    TriggerPropose,
    TriggerSummarize,
    GetAiRun,
    SchedulerFired,
}

impl Route {
    /// Where the route is mounted, relative to the module.
    pub open spec fn path_text(self) -> Seq<char> {
        match self {
            Route::CreateArea | Route::ListAreas => "/areas"@,
            Route::TransitionArea => "/areas/{id}"@,
            Route::CreateDirection | Route::ListDirections => "/directions"@,
            Route::CreateTask | Route::ListTasks => "/tasks"@,
            Route::TransitionTask => "/tasks/{id}"@,
            Route::CreateBlock | Route::ListBlocks => "/schedule-blocks"@,
            Route::TransitionBlock => "/schedule-blocks/{id}"@,
            Route::CreateWeek | Route::ListWeeks => "/weeks"@,
            Route::TransitionWeek => "/weeks/{id}"@,
            Route::WeekAttention => "/weeks/{id}/attention"@,
            Route::CreateRhythm | Route::ListRhythms => "/rhythms"@,
            Route::GetRhythm => "/rhythms/{id}"@,
            Route::SubmitProposal | Route::ListProposals => "/proposals"@,
            Route::GetProposal => "/proposals/{id}"@,
            Route::AcceptProposal => "/proposals/{id}/accept"@,
            Route::RejectProposal => "/proposals/{id}/reject"@,
            Route::Attention => "/attention"@,
            Route::ListEvents => "/events"@,
            Route::InstallPack => "/packs/install"@,
            Route::Capture => "/capture"@,
            Route::Today => "/today"@,
            Route::CreateRoutine | Route::ListRoutines => "/routines"@,
            Route::GetRoutine | Route::UpdateRoutine => "/routines/{id}"@,
            Route::TransitionRoutine => "/routines/{id}/transition"@,
            Route::CreateReview | Route::ListReviews => "/reviews"@,
            Route::GetReview | Route::UpdateReview => "/reviews/{id}"@,
            Route::FinalizeReview => "/reviews/{id}/finalize"@,
            Route::WeeklyReviewDraft => "/review/weekly/draft"@,
            Route::GetAiSettings | Route::PutAiSettings => "/settings/ai"@,
            Route::TriggerClassify => "/ai/classify"@,
            Route::TriggerPropose => "/ai/propose"@,
            Route::TriggerSummarize => "/ai/summarize"@,
            Route::GetAiRun => "/ai/runs/{run_id}"@,
            Route::SchedulerFired => "/_a24/scheduler/fired"@,
        }
    }

    /// Where the route is mounted, relative to the module.
    pub fn path(self) -> (r: &'static str)
        ensures
            r@ == self.path_text(),
    {
        match self {
            Route::CreateArea | Route::ListAreas => "/areas",
            Route::TransitionArea => "/areas/{id}",
            Route::CreateDirection | Route::ListDirections => "/directions",
            Route::CreateTask | Route::ListTasks => "/tasks",
            Route::TransitionTask => "/tasks/{id}",
            Route::CreateBlock | Route::ListBlocks => "/schedule-blocks",
            Route::TransitionBlock => "/schedule-blocks/{id}",
            Route::CreateWeek | Route::ListWeeks => "/weeks",
            Route::TransitionWeek => "/weeks/{id}",
            Route::WeekAttention => "/weeks/{id}/attention",
            Route::CreateRhythm | Route::ListRhythms => "/rhythms",
            Route::GetRhythm => "/rhythms/{id}",
            Route::SubmitProposal | Route::ListProposals => "/proposals",
            Route::GetProposal => "/proposals/{id}",
            Route::AcceptProposal => "/proposals/{id}/accept",
            Route::RejectProposal => "/proposals/{id}/reject",
            Route::Attention => "/attention",
            Route::ListEvents => "/events",
            Route::InstallPack => "/packs/install",
            Route::Capture => "/capture",
            Route::Today => "/today",
            Route::CreateRoutine | Route::ListRoutines => "/routines",
            Route::GetRoutine | Route::UpdateRoutine => "/routines/{id}",
            Route::TransitionRoutine => "/routines/{id}/transition",
            Route::CreateReview | Route::ListReviews => "/reviews",
            Route::GetReview | Route::UpdateReview => "/reviews/{id}",
            Route::FinalizeReview => "/reviews/{id}/finalize",
            Route::WeeklyReviewDraft => "/review/weekly/draft",
            Route::GetAiSettings | Route::PutAiSettings => "/settings/ai",
            Route::TriggerClassify => "/ai/classify",
            Route::TriggerPropose => "/ai/propose",
            Route::TriggerSummarize => "/ai/summarize",
            Route::GetAiRun => "/ai/runs/{run_id}",
            Route::SchedulerFired => "/_a24/scheduler/fired",
        }
    }

    /// The method the route answers.
    pub open spec fn spec_method(self) -> Method {
        match self {
            Route::CreateArea
            | Route::CreateDirection
            | Route::CreateTask
            | Route::CreateBlock
            | Route::CreateWeek
            | Route::CreateRhythm
            | Route::SubmitProposal
            | Route::AcceptProposal
            | Route::RejectProposal
            | Route::InstallPack
            | Route::Capture
            | Route::CreateRoutine
            | Route::TransitionRoutine
            | Route::CreateReview
            | Route::FinalizeReview
            | Route::TriggerClassify
            | Route::TriggerPropose
            | Route::TriggerSummarize
            | Route::SchedulerFired => Method::Post,
            Route::TransitionArea
            | Route::TransitionTask
            | Route::TransitionBlock
            | Route::TransitionWeek
            | Route::UpdateRoutine
            | Route::UpdateReview => Method::Patch,
            Route::PutAiSettings => Method::Put,
            _ => Method::Get,
        }
    }

    /// The method the route answers.
    #[verifier::when_used_as_spec(spec_method)]
    pub fn method(self) -> (r: Method)
        ensures
            r == self.method(),
    {
        match self {
            Route::CreateArea
            | Route::CreateDirection
            | Route::CreateTask
            | Route::CreateBlock
            | Route::CreateWeek
            | Route::CreateRhythm
            | Route::SubmitProposal
            | Route::AcceptProposal
            | Route::RejectProposal
            | Route::InstallPack
            | Route::Capture
            | Route::CreateRoutine
            | Route::TransitionRoutine
            | Route::CreateReview
            | Route::FinalizeReview
            | Route::TriggerClassify
            | Route::TriggerPropose
            | Route::TriggerSummarize
            | Route::SchedulerFired => Method::Post,
            Route::TransitionArea
            | Route::TransitionTask
            | Route::TransitionBlock
            | Route::TransitionWeek
            | Route::UpdateRoutine
            | Route::UpdateReview => Method::Patch,
            Route::PutAiSettings => Method::Put,
            _ => Method::Get,
        }
    }

    /// Who may call the route: reading is open to everyone; proposing,
    /// capturing and triggering AI runs takes any key; everything else that
    /// writes takes the human key. The scheduler's callback carries no actor
    /// key.
    pub open spec fn spec_gate(self) -> Gate {
        if self.method() == Method::Get || self == Route::SchedulerFired {
            Gate::Open
        } else if self == Route::SubmitProposal || self == Route::Capture || self
            == Route::TriggerClassify || self == Route::TriggerPropose || self
            == Route::TriggerSummarize {
            Gate::AnyActor
        } else {
            Gate::Human
        }
    }

    /// Who may call the route.
    #[verifier::when_used_as_spec(spec_gate)]
    pub fn gate(self) -> (r: Gate)
        ensures
            r == self.gate(),
    {
        match self {
            Route::SubmitProposal
            | Route::Capture
            | Route::TriggerClassify
            | Route::TriggerPropose
            | Route::TriggerSummarize => Gate::AnyActor,
            Route::CreateArea
            | Route::TransitionArea
            | Route::CreateDirection
            | Route::CreateTask
            | Route::TransitionTask
            | Route::CreateBlock
            | Route::TransitionBlock
            | Route::CreateWeek
            | Route::TransitionWeek
            | Route::CreateRhythm
            | Route::AcceptProposal
            | Route::RejectProposal
            | Route::InstallPack
            | Route::CreateRoutine
            | Route::UpdateRoutine
            | Route::TransitionRoutine
            | Route::CreateReview
            | Route::UpdateReview
            | Route::FinalizeReview
            | Route::PutAiSettings => Gate::Human,
            _ => Gate::Open,
        }
    }

    /// What the body of the route's requests is called in an error message.
    pub open spec fn body_text(self) -> Seq<char> {
        match self {
            Route::CreateArea => "area"@,
            Route::TransitionArea => "area transition"@,
            Route::CreateDirection => "direction"@,
            Route::CreateTask => "task"@,
            Route::TransitionTask => "task transition"@,
            Route::CreateBlock => "block"@,
            Route::TransitionBlock => "transition"@,
            Route::CreateWeek => "week"@,
            Route::TransitionWeek => "week transition"@,
            Route::CreateRhythm => "rhythm"@,
            Route::SubmitProposal => "proposal"@,
            Route::RejectProposal => "proposal reject"@,
            Route::Capture => "capture"@,
            Route::CreateRoutine => "routine"@,
            Route::UpdateRoutine => "routine patch"@,
            Route::TransitionRoutine => "routine transition"@,
            Route::CreateReview => "review"@,
            Route::UpdateReview => "review patch"@,
            Route::PutAiSettings => "ai settings patch"@,
            Route::TriggerClassify => "ai classify request"@,
            Route::TriggerPropose => "ai propose request"@,
            Route::TriggerSummarize => "ai summarize request"@,
            Route::SchedulerFired => "fired"@,
            _ => "request"@,
        }
    }

    /// What the body of the route's requests is called in an error message.
    pub fn body_name(self) -> (r: &'static str)
        ensures
            r@ == self.body_text(),
    {
        match self {
            Route::CreateArea => "area",
            Route::TransitionArea => "area transition",
            Route::CreateDirection => "direction",
            Route::CreateTask => "task",
            Route::TransitionTask => "task transition",
            Route::CreateBlock => "block",
            Route::TransitionBlock => "transition",
            Route::CreateWeek => "week",
            Route::TransitionWeek => "week transition",
            Route::CreateRhythm => "rhythm",
            Route::SubmitProposal => "proposal",
            Route::RejectProposal => "proposal reject",
            Route::Capture => "capture",
            Route::CreateRoutine => "routine",
            Route::UpdateRoutine => "routine patch",
            Route::TransitionRoutine => "routine transition",
            Route::CreateReview => "review",
            Route::UpdateReview => "review patch",
            Route::PutAiSettings => "ai settings patch",
            Route::TriggerClassify => "ai classify request",
            Route::TriggerPropose => "ai propose request",
            Route::TriggerSummarize => "ai summarize request",
            Route::SchedulerFired => "fired",
            _ => "request",
        }
    }

    spec fn number(self) -> int {
        match self {
            Route::CreateArea => 0,
            Route::ListAreas => 1,
            Route::TransitionArea => 2,
            Route::CreateDirection => 3,
            Route::ListDirections => 4,
            Route::CreateTask => 5,
            Route::ListTasks => 6,
            Route::TransitionTask => 7,
            Route::CreateBlock => 8,
            Route::ListBlocks => 9,
            Route::TransitionBlock => 10,
            Route::CreateWeek => 11,
            Route::ListWeeks => 12,
            Route::TransitionWeek => 13,
            Route::WeekAttention => 14,
            Route::CreateRhythm => 15,
            Route::ListRhythms => 16,
            Route::GetRhythm => 17,
            Route::SubmitProposal => 18,
            Route::ListProposals => 19,
            Route::GetProposal => 20,
            Route::AcceptProposal => 21,
            Route::RejectProposal => 22,
            Route::Attention => 23,
            Route::ListEvents => 24,
            Route::InstallPack => 25,
            Route::Capture => 26,
            Route::Today => 27,
            Route::CreateRoutine => 28,
            Route::ListRoutines => 29,
            Route::GetRoutine => 30,
            Route::UpdateRoutine => 31,
            Route::TransitionRoutine => 32,
            Route::CreateReview => 33,
            Route::ListReviews => 34,
            Route::GetReview => 35,
            Route::UpdateReview => 36,
            Route::FinalizeReview => 37,
            Route::WeeklyReviewDraft => 38,
            Route::GetAiSettings => 39,
            Route::PutAiSettings => 40,
            Route::TriggerClassify => 41,
            Route::TriggerPropose => 42,
            Route::TriggerSummarize => 43,
            Route::GetAiRun => 44,
            Route::SchedulerFired => 45,
        }
    }
}

/// Every route, in the order of registration. The scheduler's callback is
/// there only when the module is mounted.
pub fn all_routes(mounted: bool) -> (r: Vec<Route>)
    ensures
        r@.no_duplicates(),
        forall|route: Route| #[trigger]
            r@.contains(route) == (mounted || route != Route::SchedulerFired),
{
    let mut routes: Vec<Route> = vec![
        Route::CreateArea,
        Route::ListAreas,
        Route::TransitionArea,
        Route::CreateDirection,
        Route::ListDirections,
        Route::CreateTask,
        Route::ListTasks,
        Route::TransitionTask,
        Route::CreateBlock,
        Route::ListBlocks,
        Route::TransitionBlock,
        Route::CreateWeek,
        Route::ListWeeks,
        Route::TransitionWeek,
        Route::WeekAttention,
        Route::CreateRhythm,
        Route::ListRhythms,
        Route::GetRhythm,
        Route::SubmitProposal,
        Route::ListProposals,
        Route::GetProposal,
        Route::AcceptProposal,
        Route::RejectProposal,
        Route::Attention,
        Route::ListEvents,
        Route::InstallPack,
        Route::Capture,
        Route::Today,
        Route::CreateRoutine,
        Route::ListRoutines,
        Route::GetRoutine,
        Route::UpdateRoutine,
        Route::TransitionRoutine,
        Route::CreateReview,
        Route::ListReviews,
        Route::GetReview,
        Route::UpdateReview,
        Route::FinalizeReview,
        Route::WeeklyReviewDraft,
        Route::GetAiSettings,
        Route::PutAiSettings,
        Route::TriggerClassify,
        Route::TriggerPropose,
        Route::TriggerSummarize,
        Route::GetAiRun,
    ];
    if mounted {
        routes.push(Route::SchedulerFired);
    }
    proof {
        assert(routes@.len() == if mounted { 46int } else { 45 });
        assert(forall|i: int| 0 <= i < routes@.len() ==> (#[trigger] routes@[i]).number() == i);
        assert forall|route: Route| #[trigger]
            routes@.contains(route) == (mounted || route != Route::SchedulerFired) by {
            if mounted || route != Route::SchedulerFired {
                let i = route.number();
                assert(routes@[i].number() == i);
                assert(routes@[i] == route);
            }
            if routes@.contains(route) {
                let i = choose|i: int| 0 <= i < routes@.len() && routes@[i] == route;
                assert(routes@[i].number() == i);
            }
        }
        assert(routes@.no_duplicates());
    }
    routes
}

/// One entry of the route table.
#[derive(Debug, Clone, Copy)]
pub struct Entry {
    pub route: Route,
    pub method: Method,
    pub path: &'static str,
}

/// The table has an entry for `route`.
pub open spec fn lists(table: Seq<Entry>, route: Route) -> bool {
    exists|i: int| 0 <= i < table.len() && (#[trigger] table[i]).route == route
}

/// The route table: every route, at its method and path.
pub fn router(mounted: bool) -> (r: Vec<Entry>)
    ensures
        forall|i: int|
            0 <= i < r@.len() ==> (#[trigger] r@[i]).method == r@[i].route.method()
                && r@[i].path@ == r@[i].route.path_text(),
        forall|i: int, j: int|
            0 <= i < j < r@.len() ==> (#[trigger] r@[i]).route != (#[trigger] r@[j]).route,
        forall|route: Route| #[trigger]
            lists(r@, route) == (mounted || route != Route::SchedulerFired),
{
    let routes = all_routes(mounted);
    let mut table: Vec<Entry> = Vec::new();
    let mut i: usize = 0;
    while i < routes.len()
        invariant
            i <= routes@.len(),
            table@.len() == i,
            forall|j: int|
                0 <= j < i ==> (#[trigger] table@[j]).route == routes@[j] && table@[j].method
                    == routes@[j].method() && table@[j].path@ == routes@[j].path_text(),
        decreases routes@.len() - i,
    {
        let route = routes[i];
        table.push(Entry { route, method: route.method(), path: route.path() });
        i = i + 1;
    }
    assert forall|route: Route| #[trigger]
        lists(table@, route) == (mounted || route != Route::SchedulerFired) by {
        assert(routes@.contains(route) == (mounted || route != Route::SchedulerFired));
        if routes@.contains(route) {
            let i = choose|i: int| 0 <= i < routes@.len() && routes@[i] == route;
            assert(table@[i].route == route);
        }
        if lists(table@, route) {
            let i = choose|i: int| 0 <= i < table@.len() && (#[trigger] table@[i]).route == route;
            assert(routes@[i] == route);
        }
    }
    table
}

impl Route {
    /// The length of the route's path, and three of its characters.
    spec fn shape(self) -> (int, char, char, char) {
        match self {
            Route::CreateArea | Route::ListAreas => (6, 'a', 'r', 'a'),
            Route::TransitionArea => (11, 'a', 'r', 'd'),
            Route::CreateDirection | Route::ListDirections => (11, 'd', 'i', 'n'),
            Route::CreateTask | Route::ListTasks => (6, 't', 'a', 'k'),
            Route::TransitionTask => (11, 't', 'a', 'd'),
            Route::CreateBlock | Route::ListBlocks => (16, 's', 'c', 'k'),
            Route::TransitionBlock => (21, 's', 'c', 'd'),
            Route::CreateWeek | Route::ListWeeks => (6, 'w', 'e', 'k'),
            Route::TransitionWeek => (11, 'w', 'e', 'd'),
            Route::WeekAttention => (21, 'w', 'e', 'o'),
            Route::CreateRhythm | Route::ListRhythms => (8, 'r', 'h', 'm'),
            Route::GetRhythm => (13, 'r', 'h', 'd'),
            Route::SubmitProposal | Route::ListProposals => (10, 'p', 'r', 'l'),
            Route::GetProposal => (15, 'p', 'r', 'd'),
            Route::AcceptProposal => (22, 'p', 'r', 'p'),
            Route::RejectProposal => (22, 'p', 'r', 'c'),
            Route::Attention => (10, 'a', 't', 'o'),
            Route::ListEvents => (7, 'e', 'v', 't'),
            Route::InstallPack => (14, 'p', 'a', 'l'),
            Route::Capture => (8, 'c', 'a', 'r'),
            Route::Today => (6, 't', 'o', 'a'),
            Route::CreateRoutine | Route::ListRoutines => (9, 'r', 'o', 'e'),
            Route::GetRoutine | Route::UpdateRoutine => (14, 'r', 'o', 'd'),
            Route::TransitionRoutine => (25, 'r', 'o', 'o'),
            Route::CreateReview | Route::ListReviews => (8, 'r', 'e', 'w'),
            Route::GetReview | Route::UpdateReview => (13, 'r', 'e', 'd'),
            Route::FinalizeReview => (22, 'r', 'e', 'z'),
            Route::WeeklyReviewDraft => (20, 'r', 'e', 'f'),
            Route::GetAiSettings | Route::PutAiSettings => (12, 's', 'e', 'a'),
            Route::TriggerClassify => (12, 'a', 'i', 'f'),
            Route::TriggerPropose => (11, 'a', 'i', 's'),
            Route::TriggerSummarize => (13, 'a', 'i', 'z'),
            Route::GetAiRun => (17, 'a', 'i', 'd'),
            Route::SchedulerFired => (21, '_', 'a', 'e'),
        }
    }
}

proof fn lemma_shape(route: Route)
    ensures
        ({
            let p = route.path_text();
            route.shape() == (p.len() as int, p[1], p[2], p[p.len() - 2])
        }),
        route.path_text()[0] == '/',
        route.path_text().subrange(0, 5) != "/api/"@,
{
    reveal_strlit("/api/");
    reveal_strlit("/areas");
    reveal_strlit("/areas/{id}");
    reveal_strlit("/directions");
    reveal_strlit("/tasks");
    reveal_strlit("/tasks/{id}");
    reveal_strlit("/schedule-blocks");
    reveal_strlit("/schedule-blocks/{id}");
    reveal_strlit("/weeks");
    reveal_strlit("/weeks/{id}");
    reveal_strlit("/weeks/{id}/attention");
    reveal_strlit("/rhythms");
    reveal_strlit("/rhythms/{id}");
    reveal_strlit("/proposals");
    reveal_strlit("/proposals/{id}");
    reveal_strlit("/proposals/{id}/accept");
    reveal_strlit("/proposals/{id}/reject");
    reveal_strlit("/attention");
    reveal_strlit("/events");
    reveal_strlit("/packs/install");
    reveal_strlit("/capture");
    reveal_strlit("/today");
    reveal_strlit("/routines");
    reveal_strlit("/routines/{id}");
    reveal_strlit("/routines/{id}/transition");
    reveal_strlit("/reviews");
    reveal_strlit("/reviews/{id}");
    reveal_strlit("/reviews/{id}/finalize");
    reveal_strlit("/review/weekly/draft");
    reveal_strlit("/settings/ai");
    reveal_strlit("/ai/classify");
    reveal_strlit("/ai/propose");
    reveal_strlit("/ai/summarize");
    reveal_strlit("/ai/runs/{run_id}");
    reveal_strlit("/_a24/scheduler/fired");
    let p = route.path_text();
    assert(p.subrange(0, 5)[1] == p[1] && p.subrange(0, 5)[2] == p[2]);
}

/// Every path is relative: it starts with a slash and is not under `/api/`,
/// which whoever mounts the module puts in front.
pub proof fn law_paths_are_relative(route: Route)
    ensures
        route.path_text()[0] == '/',
        route.path_text().subrange(0, 5) != "/api/"@,
{
    lemma_shape(route);
}

/// No two routes answer the same method at the same path.
pub proof fn law_no_two_routes_collide(a: Route, b: Route)
    requires
        a.method() == b.method(),
        a.path_text() == b.path_text(),
    ensures
        a == b,
{
    lemma_shape(a);
    lemma_shape(b);
}

/// The reply that turns a caller away from a route, if it does.
pub open spec fn turned_away(route: Route, sender: Option<Actor>) -> Option<ReplyV> {
    match route.gate() {
        Gate::Open => None,
        Gate::AnyActor => any_actor_gate(sender),
        Gate::Human => human_gate(sender),
    }
}

/// The reply to a body that does not parse.
pub open spec fn parse_error(what: Seq<char>, why: Seq<char>) -> ReplyV {
    error(400, "invalid_request"@, "invalid "@ + what + ": "@ + why)
}

/// A parsed body, or the reply to one that did not parse.
pub fn parse<T>(parsed: Result<T, String>, what: &str) -> (r: Result<T, Reply>)
    ensures
        match parsed {
            Ok(v) => r == Ok::<T, Reply>(v),
            Err(why) => r matches Err(reply) && reply@ == parse_error(what@, why@),
        },
{
    match parsed {
        Ok(v) => Ok(v),
        Err(why) => {
            let mut message: String = join3("invalid ", what, ": ");
            message.append(why.as_str());
            Err(error_response(400, "invalid_request", message.as_str()))
        },
    }
}

impl Sin90State {
    /// Whether the sender of a request may call its route, or else the reply
    /// that turns the request away.
    pub fn pass(&self, route: Route, headers: &HeaderMap<HeaderValue>) -> (r: Result<(), Reply>)
        ensures
            match r {
                Ok(_) => turned_away(route, self.actor_keys.sender(*headers)) is None,
                Err(reply) => turned_away(route, self.actor_keys.sender(*headers)) == Some(reply@),
            },
    {
        match route.gate() {
            Gate::Open => Ok(()),
            Gate::AnyActor => self.require_any_actor(headers),
            Gate::Human => self.require_human(headers),
        }
    }

    /// Takes a request with a body: the sender has to be allowed to call the
    /// route, and then the body has to parse.
    pub fn receive<T>(
        &self,
        route: Route,
        headers: &HeaderMap<HeaderValue>,
        parsed: Result<T, String>,
    ) -> (r: Result<T, Reply>)
        ensures
            match turned_away(route, self.actor_keys.sender(*headers)) {
                Some(refusal) => r matches Err(reply) && reply@ == refusal,
                None => match parsed {
                    Ok(v) => r == Ok::<T, Reply>(v),
                    Err(why) => r matches Err(reply) && reply@ == parse_error(
                        route.body_text(),
                        why@,
                    ),
                },
            },
    {
        match self.pass(route, headers) {
            Ok(()) => parse(parsed, route.body_name()),
            Err(reply) => Err(reply),
        }
    }
}

/// The human key opens every route.
pub proof fn law_the_human_key_opens_every_route(route: Route)
    ensures
        turned_away(route, Some(Actor::Human)) is None,
{
}

/// Among the routes that write, the automation key opens exactly those that
/// propose, capture or trigger an AI run: it can neither write directly nor
/// accept or reject a proposal. It can read.
pub proof fn law_the_automation_key_only_proposes(route: Route)
    ensures
        turned_away(route, Some(Actor::Automation)) is None <==> {
            ||| route.method() == Method::Get
            ||| route == Route::SchedulerFired
            ||| route == Route::SubmitProposal
            ||| route == Route::Capture
            ||| route == Route::TriggerClassify
            ||| route == Route::TriggerPropose
            ||| route == Route::TriggerSummarize
        },
        turned_away(Route::AcceptProposal, Some(Actor::Automation)) is Some,
        turned_away(Route::RejectProposal, Some(Actor::Automation)) is Some,
{
}

/// A caller who is turned away is told the same whatever was wrong: a missing
/// key, an unknown one, or the automation key where the human key is needed.
pub proof fn law_a_refusal_does_not_tell_why(
    route: Route,
    other_route: Route,
    sender: Option<Actor>,
    other_sender: Option<Actor>,
)
    requires
        turned_away(route, sender) is Some,
        turned_away(other_route, other_sender) is Some,
    ensures
        turned_away(route, sender) == turned_away(other_route, other_sender),
        turned_away(route, sender) == Some(super::state::unknown_caller()),
{
}

/// Without a known key nothing is written, apart from what the scheduler
/// reports; reading needs no key.
pub proof fn law_without_a_key_only_reads(route: Route)
    ensures
        turned_away(route, None) is None <==> route.method() == Method::Get || route
            == Route::SchedulerFired,
        turned_away(route, None) matches Some(reply) ==> reply == super::state::unknown_caller(),
{
}

/// Each route is served where its name says.
pub proof fn law_each_route_has_its_path()
    ensures
        Route::CreateArea.path_text() == "/areas"@,
        Route::ListAreas.path_text() == "/areas"@,
        Route::TransitionArea.path_text() == "/areas/{id}"@,
        Route::CreateDirection.path_text() == "/directions"@,
        Route::ListDirections.path_text() == "/directions"@,
        Route::CreateTask.path_text() == "/tasks"@,
        Route::ListTasks.path_text() == "/tasks"@,
        Route::TransitionTask.path_text() == "/tasks/{id}"@,
        Route::CreateBlock.path_text() == "/schedule-blocks"@,
        Route::ListBlocks.path_text() == "/schedule-blocks"@,
        Route::TransitionBlock.path_text() == "/schedule-blocks/{id}"@,
        Route::CreateWeek.path_text() == "/weeks"@,
        Route::ListWeeks.path_text() == "/weeks"@,
        Route::TransitionWeek.path_text() == "/weeks/{id}"@,
        Route::WeekAttention.path_text() == "/weeks/{id}/attention"@,
        Route::CreateRhythm.path_text() == "/rhythms"@,
        Route::ListRhythms.path_text() == "/rhythms"@,
        Route::GetRhythm.path_text() == "/rhythms/{id}"@,
        Route::SubmitProposal.path_text() == "/proposals"@,
        Route::ListProposals.path_text() == "/proposals"@,
        Route::GetProposal.path_text() == "/proposals/{id}"@,
        Route::AcceptProposal.path_text() == "/proposals/{id}/accept"@,
        Route::RejectProposal.path_text() == "/proposals/{id}/reject"@,
        Route::Attention.path_text() == "/attention"@,
        Route::ListEvents.path_text() == "/events"@,
        Route::InstallPack.path_text() == "/packs/install"@,
        Route::Capture.path_text() == "/capture"@,
        Route::Today.path_text() == "/today"@,
        Route::CreateRoutine.path_text() == "/routines"@,
        Route::ListRoutines.path_text() == "/routines"@,
        Route::GetRoutine.path_text() == "/routines/{id}"@,
        Route::UpdateRoutine.path_text() == "/routines/{id}"@,
        Route::TransitionRoutine.path_text() == "/routines/{id}/transition"@,
        Route::CreateReview.path_text() == "/reviews"@,
        Route::ListReviews.path_text() == "/reviews"@,
        Route::GetReview.path_text() == "/reviews/{id}"@,
        Route::UpdateReview.path_text() == "/reviews/{id}"@,
        Route::FinalizeReview.path_text() == "/reviews/{id}/finalize"@,
        Route::WeeklyReviewDraft.path_text() == "/review/weekly/draft"@,
        Route::GetAiSettings.path_text() == "/settings/ai"@,
        Route::PutAiSettings.path_text() == "/settings/ai"@,
        Route::TriggerClassify.path_text() == "/ai/classify"@,
        Route::TriggerPropose.path_text() == "/ai/propose"@,
        Route::TriggerSummarize.path_text() == "/ai/summarize"@,
        Route::GetAiRun.path_text() == "/ai/runs/{run_id}"@,
        Route::SchedulerFired.path_text() == "/_a24/scheduler/fired"@,
{
}

/// Each route answers the method its name says: what lists, gets or shows is
/// read with GET, what creates, decides or triggers is a POST, and what changes
/// an entity in place a PATCH or a PUT.
pub proof fn law_each_route_has_its_method()
    ensures
        Route::CreateArea.method() == Method::Post,
        Route::ListAreas.method() == Method::Get,
        Route::TransitionArea.method() == Method::Patch,
        Route::CreateDirection.method() == Method::Post,
        Route::ListDirections.method() == Method::Get,
        Route::CreateTask.method() == Method::Post,
        Route::ListTasks.method() == Method::Get,
        Route::TransitionTask.method() == Method::Patch,
        Route::CreateBlock.method() == Method::Post,
        Route::ListBlocks.method() == Method::Get,
        Route::TransitionBlock.method() == Method::Patch,
        Route::CreateWeek.method() == Method::Post,
        Route::ListWeeks.method() == Method::Get,
        Route::TransitionWeek.method() == Method::Patch,
        Route::WeekAttention.method() == Method::Get,
        Route::CreateRhythm.method() == Method::Post,
        Route::ListRhythms.method() == Method::Get,
        Route::GetRhythm.method() == Method::Get,
        Route::SubmitProposal.method() == Method::Post,
        Route::ListProposals.method() == Method::Get,
        Route::GetProposal.method() == Method::Get,
        Route::AcceptProposal.method() == Method::Post,
        Route::RejectProposal.method() == Method::Post,
        Route::Attention.method() == Method::Get,
        Route::ListEvents.method() == Method::Get,
        Route::InstallPack.method() == Method::Post,
        Route::Capture.method() == Method::Post,
        Route::Today.method() == Method::Get,
        Route::CreateRoutine.method() == Method::Post,
        Route::ListRoutines.method() == Method::Get,
        Route::GetRoutine.method() == Method::Get,
        Route::UpdateRoutine.method() == Method::Patch,
        Route::TransitionRoutine.method() == Method::Post,
        Route::CreateReview.method() == Method::Post,
        Route::ListReviews.method() == Method::Get,
        Route::GetReview.method() == Method::Get,
        Route::UpdateReview.method() == Method::Patch,
        Route::FinalizeReview.method() == Method::Post,
        Route::WeeklyReviewDraft.method() == Method::Get,
        Route::GetAiSettings.method() == Method::Get,
        Route::PutAiSettings.method() == Method::Put,
        Route::TriggerClassify.method() == Method::Post,
        Route::TriggerPropose.method() == Method::Post,
        Route::TriggerSummarize.method() == Method::Post,
        Route::GetAiRun.method() == Method::Get,
        Route::SchedulerFired.method() == Method::Post,
{
}

/// Each body is called by its own name where it does not parse.
pub proof fn law_each_body_has_its_name()
    ensures
        Route::CreateArea.body_text() == "area"@,
        Route::TransitionArea.body_text() == "area transition"@,
        Route::CreateDirection.body_text() == "direction"@,
        Route::CreateTask.body_text() == "task"@,
        Route::TransitionTask.body_text() == "task transition"@,
        Route::CreateBlock.body_text() == "block"@,
        Route::TransitionBlock.body_text() == "transition"@,
        Route::CreateWeek.body_text() == "week"@,
        Route::TransitionWeek.body_text() == "week transition"@,
        Route::CreateRhythm.body_text() == "rhythm"@,
        Route::SubmitProposal.body_text() == "proposal"@,
        Route::RejectProposal.body_text() == "proposal reject"@,
        Route::Capture.body_text() == "capture"@,
        Route::CreateRoutine.body_text() == "routine"@,
        Route::UpdateRoutine.body_text() == "routine patch"@,
        Route::TransitionRoutine.body_text() == "routine transition"@,
        Route::CreateReview.body_text() == "review"@,
        Route::UpdateReview.body_text() == "review patch"@,
        Route::PutAiSettings.body_text() == "ai settings patch"@,
        Route::TriggerClassify.body_text() == "ai classify request"@,
        Route::TriggerPropose.body_text() == "ai propose request"@,
        Route::TriggerSummarize.body_text() == "ai summarize request"@,
        Route::SchedulerFired.body_text() == "fired"@,
{
}

/// A body that does not parse is answered with 400, what it should have been
/// and why it is not.
pub proof fn law_a_parse_error_names_the_body_and_the_reason(what: Seq<char>, why: Seq<char>)
    ensures
        parse_error(what, why).status == 400,
        parse_error(what, why) == error(
            400,
            "invalid_request"@,
            "invalid "@ + what + ": "@ + why,
        ),
{
}

/// Who may call which route. Everything that reads, and the scheduler, needs no
/// key; proposing, capturing and triggering a run need any known key; every
/// other write needs the human's. Who may not is answered 403.
pub proof fn law_who_may_call_which_route(route: Route, sender: Option<Actor>)
    ensures
        route is ListAreas || route is ListDirections || route is ListTasks
            || route is ListBlocks || route is ListWeeks || route is WeekAttention
            || route is ListRhythms || route is GetRhythm || route is ListProposals
            || route is GetProposal || route is Attention || route is ListEvents
            || route is Today || route is ListRoutines || route is GetRoutine
            || route is ListReviews || route is GetReview || route is WeeklyReviewDraft
            || route is GetAiSettings || route is GetAiRun || route is SchedulerFired
            ==> turned_away(route, sender) is None,
        route is SubmitProposal || route is Capture || route is TriggerClassify
            || route is TriggerPropose || route is TriggerSummarize
            ==> (turned_away(route, sender) is None <==> sender is Some),
        route is CreateArea || route is TransitionArea || route is CreateDirection
            || route is CreateTask || route is TransitionTask || route is CreateBlock
            || route is TransitionBlock || route is CreateWeek || route is TransitionWeek
            || route is CreateRhythm || route is AcceptProposal || route is RejectProposal
            || route is InstallPack || route is CreateRoutine || route is UpdateRoutine
            || route is TransitionRoutine || route is CreateReview || route is UpdateReview
            || route is FinalizeReview || route is PutAiSettings
            ==> (turned_away(route, sender) is None <==> sender == Some(Actor::Human)),
        turned_away(route, sender) matches Some(reply) ==> reply == error(
            403,
            "forbidden"@,
            "missing or unrecognized actor key"@,
        ),
{
}

/// A table lists a route exactly when one of its entries, whichever it is, is
/// for that route.
pub proof fn law_a_table_lists_what_it_has(table: Seq<Entry>, route: Route, i: int)
    requires
        0 <= i < table.len(),
    ensures
        table[i].route == route ==> lists(table, route),
        lists(table, route) ==> lists(table.take(i), route) || table[i].route == route || lists(
            table.skip(i + 1),
            route,
        ),
        !lists(Seq::<Entry>::empty(), route),
{
    if lists(table, route) {
        let k = choose|k: int| 0 <= k < table.len() && (#[trigger] table[k]).route == route;
        if k < i {
            assert(table.take(i)[k].route == route);
        } else if k > i {
            assert(table.skip(i + 1)[k - i - 1].route == route);
        }
    }
}

} // verus!
