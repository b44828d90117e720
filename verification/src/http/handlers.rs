//! What each route answers, and which events it emits, once the store has
//! answered it.
use super::{
    error, error_response, loud, map_err, ok, quiet, silent, store_reply, Event, EventV, Outcome,
    OutcomeV, Reply, ReplyV,
};
use super::route::{parse, parse_error, Route};
use crate::json::{
    list_value, obj1, obj2, obj3, obj4, obj5, opt_text, set_field, text, text_list,
    text_or_null, texts, Fields, Json, JsonV,
};
use crate::model::StoreError;
use crate::text::{
    is_before, law_texts_are_totally_ordered, law_the_first_difference_decides,
    law_trimming_takes_white_space_off_the_ends, text_lt, trim_text, trimmed, white_space,
};
use vstd::prelude::*;
use vstd::string::*;

verus! {

/// A created entity is answered with 201.
pub open spec fn created(body: JsonV) -> ReplyV {
    ReplyV { status: 201, body }
}

/// One event, then the reply.
pub open spec fn announced(kind: Seq<char>, payload: JsonV, reply: ReplyV) -> OutcomeV {
    OutcomeV { events: Seq::empty().push(EventV { kind, payload }), reply }
}

/// The outcome when the store failed: the mapped error, and no events.
pub open spec fn refused(e: StoreError) -> OutcomeV {
    silent(store_reply(e.deep_view()))
}

// ---- reading ----

/// `{name: rows}`, or the mapped error.
pub open spec fn listed(name: Seq<char>, rows: Result<Vec<Json>, StoreError>) -> ReplyV {
    match rows {
        Ok(v) => ok(obj1(name, JsonV::List(list_value(v@)))),
        Err(e) => store_reply(e.deep_view()),
    }
}

fn listing(name: &str, rows: Result<Vec<Json>, StoreError>) -> (r: Reply)
    ensures
        r@ == listed(name@, rows),
{
    match rows {
        Ok(v) => Reply { status: 200, body: Fields::new().with(name, Json::List(v)).object() },
        Err(e) => map_err(e),
    }
}

pub fn list_areas(rows: Result<Vec<Json>, StoreError>) -> (r: Reply)
    ensures
        r@ == listed("areas"@, rows),
{
    listing("areas", rows)
}

pub fn list_directions(rows: Result<Vec<Json>, StoreError>) -> (r: Reply)
    ensures
        r@ == listed("directions"@, rows),
{
    listing("directions", rows)
}

pub fn list_tasks(rows: Result<Vec<Json>, StoreError>) -> (r: Reply)
    ensures
        r@ == listed("tasks"@, rows),
{
    listing("tasks", rows)
}

pub fn list_blocks(rows: Result<Vec<Json>, StoreError>) -> (r: Reply)
    ensures
        r@ == listed("blocks"@, rows),
{
    listing("blocks", rows)
}

pub fn list_weeks(rows: Result<Vec<Json>, StoreError>) -> (r: Reply)
    ensures
        r@ == listed("weeks"@, rows),
{
    listing("weeks", rows)
}

pub fn list_rhythms(rows: Result<Vec<Json>, StoreError>) -> (r: Reply)
    ensures
        r@ == listed("rhythms"@, rows),
{
    listing("rhythms", rows)
}

pub fn list_proposals(rows: Result<Vec<Json>, StoreError>) -> (r: Reply)
    ensures
        r@ == listed("proposals"@, rows),
{
    listing("proposals", rows)
}

pub fn list_events(rows: Result<Vec<Json>, StoreError>) -> (r: Reply)
    ensures
        r@ == listed("events"@, rows),
{
    listing("events", rows)
}

pub fn list_routines(rows: Result<Vec<Json>, StoreError>) -> (r: Reply)
    ensures
        r@ == listed("routines"@, rows),
{
    listing("routines", rows)
}

pub fn list_reviews(rows: Result<Vec<Json>, StoreError>) -> (r: Reply)
    ensures
        r@ == listed("reviews"@, rows),
{
    listing("reviews", rows)
}

/// The reply to a request for one document: a rhythm, proposal, routine or
/// review, a week's attention, today's view, or a weekly review draft.
pub fn show(doc: Result<Json, StoreError>) -> (r: Reply)
    ensures
        r@ == match doc {
            Ok(body) => ok(body@),
            Err(e) => store_reply(e.deep_view()),
        },
{
    match doc {
        Ok(body) => Reply { status: 200, body },
        Err(e) => map_err(e),
    }
}

/// Why a time range is refused, if it is.
pub open spec fn range_fault(
    start: Seq<char>,
    end: Seq<char>,
    both_fixed_width: bool,
) -> Option<ReplyV> {
    if !both_fixed_width {
        Some(
            error(
                400,
                "invalid_request"@,
                "start and end must be fixed-width ISO-8601 (YYYY-MM-DDThh:mm:ssZ)"@,
            ),
        )
    } else if !text_lt(start, end) {
        Some(error(400, "invalid_request"@, "start must be strictly before end"@))
    } else {
        None
    }
}

/// Checks the range of `GET /attention` before the store is asked.
/// `start_ok` and `end_ok` say whether each bound has the fixed-width form.
pub fn attention_range(start: &str, end: &str, start_ok: bool, end_ok: bool) -> (r: Result<
    (),
    Reply,
>)
    ensures
        match r {
            Ok(_) => range_fault(start@, end@, start_ok && end_ok) is None,
            Err(reply) => range_fault(start@, end@, start_ok && end_ok) == Some(reply@),
        },
{
    if !start_ok || !end_ok {
        return Err(
            error_response(
                400,
                "invalid_request",
                "start and end must be fixed-width ISO-8601 (YYYY-MM-DDThh:mm:ssZ)",
            ),
        );
    }
    if !is_before(start, end) {
        return Err(error_response(400, "invalid_request", "start must be strictly before end"));
    }
    Ok(())
}

/// The reply of `GET /attention`.
pub fn attention(rows: Result<Vec<Json>, StoreError>) -> (r: Reply)
    ensures
        r@ == listed("attention"@, rows),
{
    listing("attention", rows)
}

// ---- areas, directions, tasks, blocks, weeks, rhythms ----

/// An area, and the document that shows it.
#[derive(Debug)]
pub struct AreaRow {
    pub id: String,
    pub title: String,
    pub status: String,
    pub doc: Json,
}

pub open spec fn area_payload(a: AreaRow) -> JsonV {
    obj2("id"@, JsonV::Text(a.id@), "title"@, JsonV::Text(a.title@))
}

fn area_event(a: &AreaRow) -> (r: Json)
    ensures
        r@ == area_payload(*a),
        r is Object,
{
    Fields::new().with("id", text(a.id.as_str())).with("title", text(a.title.as_str())).object()
}

pub fn create_area(stored: Result<AreaRow, StoreError>) -> (r: Outcome)
    ensures
        r@.objects_only(),
        r@ == match stored {
            Ok(a) => announced("area.created"@, area_payload(a), created(a.doc@)),
            Err(e) => refused(e),
        },
{
    match stored {
        Ok(a) => {
            let payload = area_event(&a);
            loud("area.created", payload, Reply { status: 201, body: a.doc })
        },
        Err(e) => quiet(map_err(e)),
    }
}

/// `{name: id, "to": status}`.
pub open spec fn moved(name: Seq<char>, id: Seq<char>, status: Seq<char>) -> JsonV {
    obj2(name, JsonV::Text(id), "to"@, JsonV::Text(status))
}

fn move_event(name: &str, id: &str, status: &str) -> (r: Json)
    ensures
        r@ == moved(name@, id@, status@),
        r is Object,
{
    Fields::new().with(name, text(id)).with("to", text(status)).object()
}

pub fn transition_area(stored: Result<AreaRow, StoreError>) -> (r: Outcome)
    ensures
        r@.objects_only(),
        r@ == match stored {
            Ok(a) => announced(
                "area.transitioned"@,
                moved("area_id"@, a.id@, a.status@),
                ok(a.doc@),
            ),
            Err(e) => refused(e),
        },
{
    match stored {
        Ok(a) => {
            let payload = move_event("area_id", a.id.as_str(), a.status.as_str());
            loud("area.transitioned", payload, Reply { status: 200, body: a.doc })
        },
        Err(e) => quiet(map_err(e)),
    }
}

/// A direction, and the document that shows it.
#[derive(Debug)]
pub struct DirectionRow {
    pub id: String,
    pub title: String,
    pub area_id: Option<String>,
    pub doc: Json,
}

pub open spec fn direction_payload(d: DirectionRow) -> JsonV {
    obj3(
        "id"@,
        JsonV::Text(d.id@),
        "title"@,
        JsonV::Text(d.title@),
        "area_id"@,
        opt_text(d.area_id.deep_view()),
    )
}

pub fn create_direction(stored: Result<DirectionRow, StoreError>) -> (r: Outcome)
    ensures
        r@.objects_only(),
        r@ == match stored {
            Ok(d) => announced("direction.created"@, direction_payload(d), created(d.doc@)),
            Err(e) => refused(e),
        },
{
    match stored {
        Ok(d) => {
            let payload = Fields::new().with("id", text(d.id.as_str())).with(
                "title",
                text(d.title.as_str()),
            ).with("area_id", text_or_null(&d.area_id)).object();
            loud("direction.created", payload, Reply { status: 201, body: d.doc })
        },
        Err(e) => quiet(map_err(e)),
    }
}

/// The body of `POST /tasks`.
#[derive(Debug)]
pub struct NewTaskReq {
    pub title: String,
    pub direction_id: Option<String>,
    pub parent_task_id: Option<String>,
    pub kind: Option<String>,
    pub energy: Option<String>,
    pub est_minutes: Option<u32>,
}

/// A task to be stored.
#[derive(Debug)]
pub struct TaskArgs {
    pub title: String,
    pub direction_id: Option<String>,
    pub parent_task_id: Option<String>,
    pub kind: String,
    pub energy: String,
    pub est_minutes: Option<u32>,
}

/// The kind of a task that does not name one.
pub const DEFAULT_TASK_KIND: &'static str = "other";

/// The energy of a task that does not name one.
pub const DEFAULT_ENERGY: &'static str = "mid";

/// The task a request asks for, with the defaults filled in.
pub fn new_task(req: NewTaskReq) -> (r: TaskArgs)
    ensures
        r.title == req.title,
        r.direction_id == req.direction_id,
        r.parent_task_id == req.parent_task_id,
        r.kind@ == match req.kind {
            Some(k) => k@,
            None => DEFAULT_TASK_KIND@,
        },
        r.energy@ == match req.energy {
            Some(e) => e@,
            None => DEFAULT_ENERGY@,
        },
        r.est_minutes == req.est_minutes,
{
    let kind = match req.kind {
        Some(k) => k,
        None => DEFAULT_TASK_KIND.to_owned(),
    };
    let energy = match req.energy {
        Some(e) => e,
        None => DEFAULT_ENERGY.to_owned(),
    };
    TaskArgs {
        title: req.title,
        direction_id: req.direction_id,
        parent_task_id: req.parent_task_id,
        kind,
        energy,
        est_minutes: req.est_minutes,
    }
}

/// The inbox task a captured text becomes: no direction, no parent, the
/// defaults for the rest.
pub fn captured_task(content: String) -> (r: TaskArgs)
    ensures
        r.title == content,
        r.direction_id is None,
        r.parent_task_id is None,
        r.kind@ == DEFAULT_TASK_KIND@,
        r.energy@ == DEFAULT_ENERGY@,
        r.est_minutes is None,
{
    TaskArgs {
        title: content,
        direction_id: None,
        parent_task_id: None,
        kind: DEFAULT_TASK_KIND.to_owned(),
        energy: DEFAULT_ENERGY.to_owned(),
        est_minutes: None,
    }
}

/// A task, and the document that shows it.
#[derive(Debug)]
pub struct TaskRow {
    pub id: String,
    pub direction_id: Option<String>,
    pub parent_task_id: Option<String>,
    pub status: String,
    pub doc: Json,
}

pub open spec fn task_payload(t: TaskRow) -> JsonV {
    obj3(
        "id"@,
        JsonV::Text(t.id@),
        "direction_id"@,
        opt_text(t.direction_id.deep_view()),
        "parent_task_id"@,
        opt_text(t.parent_task_id.deep_view()),
    )
}

/// The outcome of `POST /tasks`.
pub fn create_task(stored: Result<TaskRow, StoreError>) -> (r: Outcome)
    ensures
        r@.objects_only(),
        r@ == match stored {
            Ok(t) => announced("task.created"@, task_payload(t), created(t.doc@)),
            Err(e) => refused(e),
        },
{
    match stored {
        Ok(t) => {
            let payload = Fields::new().with("id", text(t.id.as_str())).with(
                "direction_id",
                text_or_null(&t.direction_id),
            ).with("parent_task_id", text_or_null(&t.parent_task_id)).object();
            loud("task.created", payload, Reply { status: 201, body: t.doc })
        },
        Err(e) => quiet(map_err(e)),
    }
}

/// The outcome of `POST /capture`: that of creating the task.
pub fn capture(stored: Result<TaskRow, StoreError>) -> (r: Outcome)
    ensures
        r@.objects_only(),
        r@ == match stored {
            Ok(t) => announced("task.created"@, task_payload(t), created(t.doc@)),
            Err(e) => refused(e),
        },
{
    create_task(stored)
}

pub fn transition_task(stored: Result<TaskRow, StoreError>) -> (r: Outcome)
    ensures
        r@.objects_only(),
        r@ == match stored {
            Ok(t) => announced(
                "task.transitioned"@,
                moved("task_id"@, t.id@, t.status@),
                ok(t.doc@),
            ),
            Err(e) => refused(e),
        },
{
    match stored {
        Ok(t) => {
            let payload = move_event("task_id", t.id.as_str(), t.status.as_str());
            loud("task.transitioned", payload, Reply { status: 200, body: t.doc })
        },
        Err(e) => quiet(map_err(e)),
    }
}

/// A schedule block, and the document that shows it.
#[derive(Debug)]
pub struct BlockRow {
    pub id: String,
    pub direction_id: Option<String>,
    pub status: String,
    pub doc: Json,
}

pub open spec fn block_payload(b: BlockRow) -> JsonV {
    obj2(
        "block_id"@,
        JsonV::Text(b.id@),
        "direction_id"@,
        opt_text(b.direction_id.deep_view()),
    )
}

pub fn create_block(stored: Result<BlockRow, StoreError>) -> (r: Outcome)
    ensures
        r@.objects_only(),
        r@ == match stored {
            Ok(b) => announced("block.created"@, block_payload(b), created(b.doc@)),
            Err(e) => refused(e),
        },
{
    match stored {
        Ok(b) => {
            let payload = Fields::new().with("block_id", text(b.id.as_str())).with(
                "direction_id",
                text_or_null(&b.direction_id),
            ).object();
            loud("block.created", payload, Reply { status: 201, body: b.doc })
        },
        Err(e) => quiet(map_err(e)),
    }
}

pub fn transition_block(stored: Result<BlockRow, StoreError>) -> (r: Outcome)
    ensures
        r@.objects_only(),
        r@ == match stored {
            Ok(b) => announced(
                "block.transitioned"@,
                moved("block_id"@, b.id@, b.status@),
                ok(b.doc@),
            ),
            Err(e) => refused(e),
        },
{
    match stored {
        Ok(b) => {
            let payload = move_event("block_id", b.id.as_str(), b.status.as_str());
            loud("block.transitioned", payload, Reply { status: 200, body: b.doc })
        },
        Err(e) => quiet(map_err(e)),
    }
}

/// A week, and the document that shows it.
#[derive(Debug)]
pub struct WeekRow {
    pub id: String,
    pub iso_week: String,
    pub status: String,
    pub doc: Json,
}

pub fn create_week(stored: Result<WeekRow, StoreError>) -> (r: Outcome)
    ensures
        r@.objects_only(),
        r@ == match stored {
            Ok(w) => announced(
                "week.created"@,
                obj2("id"@, JsonV::Text(w.id@), "iso_week"@, JsonV::Text(w.iso_week@)),
                created(w.doc@),
            ),
            Err(e) => refused(e),
        },
{
    match stored {
        Ok(w) => {
            let payload = Fields::new().with("id", text(w.id.as_str())).with(
                "iso_week",
                text(w.iso_week.as_str()),
            ).object();
            loud("week.created", payload, Reply { status: 201, body: w.doc })
        },
        Err(e) => quiet(map_err(e)),
    }
}

pub fn transition_week(stored: Result<WeekRow, StoreError>) -> (r: Outcome)
    ensures
        r@.objects_only(),
        r@ == match stored {
            Ok(w) => announced(
                "week.transitioned"@,
                moved("week_id"@, w.id@, w.status@),
                ok(w.doc@),
            ),
            Err(e) => refused(e),
        },
{
    match stored {
        Ok(w) => {
            let payload = move_event("week_id", w.id.as_str(), w.status.as_str());
            loud("week.transitioned", payload, Reply { status: 200, body: w.doc })
        },
        Err(e) => quiet(map_err(e)),
    }
}

/// A rhythm, and the document that shows it.
#[derive(Debug)]
pub struct RhythmRow {
    pub id: String,
    pub allocations: Json,
    pub doc: Json,
}

pub fn create_rhythm(stored: Result<RhythmRow, StoreError>) -> (r: Outcome)
    ensures
        r@.objects_only(),
        r@ == match stored {
            Ok(rh) => announced(
                "rhythm.created"@,
                obj2("id"@, JsonV::Text(rh.id@), "allocations"@, rh.allocations@),
                created(rh.doc@),
            ),
            Err(e) => refused(e),
        },
{
    match stored {
        Ok(rh) => {
            let payload = Fields::new().with("id", text(rh.id.as_str())).with(
                "allocations",
                rh.allocations,
            ).object();
            loud("rhythm.created", payload, Reply { status: 201, body: rh.doc })
        },
        Err(e) => quiet(map_err(e)),
    }
}

/// The event each installed area emits.
pub open spec fn area_created(a: AreaRow) -> EventV {
    EventV { kind: "area.created"@, payload: area_payload(a) }
}

/// The outcome of `POST /packs/install`: one event per installed area.
pub fn install_pack(stored: Result<Vec<AreaRow>, StoreError>) -> (r: Outcome)
    ensures
        r@.objects_only(),
        r@ == match stored {
            Ok(areas) => OutcomeV {
                events: areas@.map_values(|a: AreaRow| area_created(a)),
                reply: created(
                    obj1("areas"@, JsonV::List(areas@.map_values(|a: AreaRow| a.doc@))),
                ),
            },
            Err(e) => refused(e),
        },
{
    let areas = match stored {
        Ok(v) => v,
        Err(e) => return quiet(map_err(e)),
    };
    let ghost all = areas@;
    let mut events: Vec<Event> = Vec::new();
    let mut docs: Vec<Json> = Vec::new();
    for area in it: areas
        invariant
            it.seq() == all,
            events@.len() == it.index(),
            docs@.len() == it.index(),
            forall|j: int|
                0 <= j < events@.len() ==> (#[trigger] events@[j])@ == area_created(all[j]),
            forall|j: int| 0 <= j < docs@.len() ==> (#[trigger] docs@[j])@ == all[j].doc@,
    {
        events.push(Event { kind: "area.created", payload: area_event(&area) });
        docs.push(area.doc);
    }
    let ghost want = all.map_values(|a: AreaRow| a.doc@);
    assert forall|j: int| 0 <= j < docs@.len() implies list_value(docs@)[j] == want[j] by {
        assert(docs@[j]@ == all[j].doc@);
    }
    assert(list_value(docs@) =~= want);
    let reply = Reply {
        status: 201,
        body: Fields::new().with("areas", Json::List(docs)).object(),
    };
    let r = Outcome { events, reply };
    assert(r@.events =~= all.map_values(|a: AreaRow| area_created(a)));
    r
}

// ---- proposals ----

/// The outcome of `POST /proposals`.
pub fn submit_proposal(id: &str, stored: Result<(), StoreError>) -> (r: Outcome)
    ensures
        r@.objects_only(),
        r@ == match stored {
            Ok(_) => announced(
                "proposal.submitted"@,
                obj1("id"@, JsonV::Text(id@)),
                ReplyV {
                    status: 202,
                    body: obj2("id"@, JsonV::Text(id@), "status"@, JsonV::Text("pending"@)),
                },
            ),
            Err(e) => refused(e),
        },
{
    match stored {
        Ok(()) => {
            let payload = Fields::new().with("id", text(id)).object();
            let body = Fields::new().with("id", text(id)).with(
                "status",
                text("pending"),
            ).object();
            loud("proposal.submitted", payload, Reply { status: 202, body })
        },
        Err(e) => quiet(map_err(e)),
    }
}

/// The event a run emits when it submits draft `id`: one on success, none
/// when the store refused it.
pub fn submitted_event(id: &str, stored: bool) -> (r: Option<Event>)
    ensures
        match r {
            Some(e) => stored && e@ == (EventV {
                kind: "proposal.submitted"@,
                payload: obj1("id"@, JsonV::Text(id@)),
            }),
            None => !stored,
        },
{
    if stored {
        Some(
            Event {
                kind: "proposal.submitted",
                payload: Fields::new().with("id", text(id)).object(),
            },
        )
    } else {
        None
    }
}

/// What accepting a proposal gave.
#[derive(Debug)]
pub struct AcceptOutcome {
    /// Whether this request applied it, and not an earlier one.
    pub applied_now: bool,
    pub proposal_id: String,
    /// The receipt as it is shown.
    pub receipt: Json,
}

/// The outcome of `POST /proposals/{id}/accept`. Accepting again emits nothing.
pub fn accept_proposal(stored: Result<AcceptOutcome, StoreError>) -> (r: Outcome)
    ensures
        r@.objects_only(),
        r@ == match stored {
            Ok(o) => if o.applied_now {
                announced(
                    "proposal.applied"@,
                    obj1("proposal_id"@, JsonV::Text(o.proposal_id@)),
                    ok(o.receipt@),
                )
            } else {
                silent(ok(o.receipt@))
            },
            Err(e) => refused(e),
        },
{
    match stored {
        Ok(o) => {
            let reply = Reply { status: 200, body: o.receipt };
            if o.applied_now {
                let payload = Fields::new().with(
                    "proposal_id",
                    text(o.proposal_id.as_str()),
                ).object();
                loud("proposal.applied", payload, reply)
            } else {
                quiet(reply)
            }
        },
        Err(e) => quiet(map_err(e)),
    }
}

/// The longest reason for a rejection, in characters.
pub const MAX_REJECT_REASON_CHARS: usize = 1000;

/// The reason that is kept: trimmed, and none when nothing is left.
pub open spec fn kept_reason(raw: Option<Seq<char>>) -> Option<Seq<char>> {
    match raw {
        Some(s) => if trimmed(s).len() == 0 {
            None
        } else {
            Some(trimmed(s))
        },
        None => None,
    }
}

proof fn lemma_trimmed(s: Seq<char>)
    ensures
        trimmed(s).len() > 0 ==> !white_space(trimmed(s)[0]) && !white_space(trimmed(s).last()),
        trimmed(trimmed(s)) == trimmed(s),
    decreases s.len(),
{
    if s.len() > 0 {
        if white_space(s[0]) {
            lemma_trimmed(s.drop_first());
        } else if white_space(s.last()) {
            lemma_trimmed(s.drop_last());
        }
    }
}

/// A kept reason is not empty, neither starts nor ends with white space, and
/// is kept as it is when it is given again.
pub proof fn law_a_kept_reason_is_trimmed(raw: Option<Seq<char>>)
    ensures
        kept_reason(raw) matches Some(s) ==> s.len() > 0 && !white_space(s[0]) && !white_space(
            s.last(),
        ),
        kept_reason(kept_reason(raw)) == kept_reason(raw),
{
    if let Some(s) = raw {
        lemma_trimmed(s);
    }
}

/// The reply to a reason that is too long.
pub open spec fn reason_too_long() -> ReplyV {
    error(400, "invalid_request"@, "reason must be at most 1000 characters"@)
}

/// Trims a reason and checks its length.
pub fn normalize_reject_reason(raw: Option<String>) -> (r: Result<Option<String>, Reply>)
    ensures
        match r {
            Ok(reason) => {
                &&& reason.deep_view() == kept_reason(raw.deep_view())
                &&& reason matches Some(s) ==> s@.len() <= MAX_REJECT_REASON_CHARS
            },
            Err(reply) => {
                &&& kept_reason(raw.deep_view()) matches Some(s) && s.len()
                    > MAX_REJECT_REASON_CHARS
                &&& reply@ == reason_too_long()
            },
        },
{
    let raw = match raw {
        Some(s) => s,
        None => return Ok(None),
    };
    let kept = trim_text(raw.as_str());
    let n: usize = kept.unicode_len();
    if n == 0 {
        return Ok(None);
    }
    if n > MAX_REJECT_REASON_CHARS {
        return Err(
            error_response(400, "invalid_request", "reason must be at most 1000 characters"),
        );
    }
    Ok(Some(kept.to_owned()))
}

/// The reason a rejection gives. A request without a body gives none; the
/// body of any other has to parse, and the reason in it is trimmed and its
/// length limited.
pub fn reject_reason(empty_body: bool, parsed: Result<Option<String>, String>) -> (r: Result<
    Option<String>,
    Reply,
>)
    ensures
        if empty_body {
            r == Ok::<Option<String>, Reply>(None)
        } else {
            match parsed {
                Err(why) => r matches Err(reply) && reply@ == parse_error(
                    "proposal reject"@,
                    why@,
                ),
                Ok(raw) => match r {
                    Ok(reason) => {
                        &&& reason.deep_view() == kept_reason(raw.deep_view())
                        &&& reason matches Some(s) ==> s@.len() <= MAX_REJECT_REASON_CHARS
                    },
                    Err(reply) => {
                        &&& kept_reason(raw.deep_view()) matches Some(s) && s.len()
                            > MAX_REJECT_REASON_CHARS
                        &&& reply@ == reason_too_long()
                    },
                },
            }
        },
{
    if empty_body {
        return Ok(None);
    }
    match parse(parsed, Route::RejectProposal.body_name()) {
        Ok(raw) => normalize_reject_reason(raw),
        Err(reply) => Err(reply),
    }
}

/// What the store tells about a rejected proposal.
#[derive(Debug)]
pub struct RejectOutcome {
    pub capability_source: Json,
    pub ops_summary: Json,
}

/// The outcome of `POST /proposals/{id}/reject`.
pub fn reject_proposal(
    id: &str,
    reason: &Option<String>,
    stored: Result<RejectOutcome, StoreError>,
) -> (r: Outcome)
    ensures
        r@.objects_only(),
        r@ == match stored {
            Ok(o) => announced(
                "proposal.rejected"@,
                obj4(
                    "proposal_id"@,
                    JsonV::Text(id@),
                    "capability_source"@,
                    o.capability_source@,
                    "ops_summary"@,
                    o.ops_summary@,
                    "reason"@,
                    opt_text(reason.deep_view()),
                ),
                ok(obj2("id"@, JsonV::Text(id@), "status"@, JsonV::Text("rejected"@))),
            ),
            Err(e) => refused(e),
        },
{
    match stored {
        Ok(o) => {
            let payload = Fields::new().with("proposal_id", text(id)).with(
                "capability_source",
                o.capability_source,
            ).with("ops_summary", o.ops_summary).with("reason", text_or_null(reason)).object();
            let body = Fields::new().with("id", text(id)).with(
                "status",
                text("rejected"),
            ).object();
            loud("proposal.rejected", payload, Reply { status: 200, body })
        },
        Err(e) => quiet(map_err(e)),
    }
}

// ---- routines ----

#[derive(Debug, Clone, Copy, PartialEq, Eq, Structural)]
pub enum RoutineStatus {
    Active,
    Paused,
    Retired,
}

impl RoutineStatus {
    pub open spec fn name(self) -> Seq<char> {
        match self {
            RoutineStatus::Active => "active"@,
            RoutineStatus::Paused => "paused"@,
            RoutineStatus::Retired => "retired"@,
        }
    }

    pub fn as_str(self) -> (r: &'static str)
        ensures
            r@ == self.name(),
    {
        match self {
            RoutineStatus::Active => "active",
            RoutineStatus::Paused => "paused",
            RoutineStatus::Retired => "retired",
        }
    }
}

/// A routine, and the document that shows it.
#[derive(Debug)]
pub struct RoutineRow {
    pub id: String,
    pub area_id: Option<String>,
    pub direction_id: Option<String>,
    pub status: RoutineStatus,
    pub doc: Json,
}

pub fn create_routine(stored: Result<RoutineRow, StoreError>) -> (r: Outcome)
    ensures
        r@.objects_only(),
        r@ == match stored {
            Ok(t) => announced(
                "routine.created"@,
                obj4(
                    "id"@,
                    JsonV::Text(t.id@),
                    "area_id"@,
                    opt_text(t.area_id.deep_view()),
                    "direction_id"@,
                    opt_text(t.direction_id.deep_view()),
                    "status"@,
                    JsonV::Text(t.status.name()),
                ),
                created(t.doc@),
            ),
            Err(e) => refused(e),
        },
{
    match stored {
        Ok(t) => {
            let payload = Fields::new().with("id", text(t.id.as_str())).with(
                "area_id",
                text_or_null(&t.area_id),
            ).with("direction_id", text_or_null(&t.direction_id)).with(
                "status",
                text(t.status.as_str()),
            ).object();
            loud("routine.created", payload, Reply { status: 201, body: t.doc })
        },
        Err(e) => quiet(map_err(e)),
    }
}

/// What patching a routine gave: which fields changed, and the routine's
/// document.
#[derive(Debug)]
pub struct RoutineUpdate {
    pub changed: Vec<String>,
    pub doc: Json,
}

/// The outcome of `PATCH /routines/{id}`. The event is the whole routine with
/// the changed fields named; a patch that changes nothing emits none.
pub fn update_routine(stored: Result<RoutineUpdate, StoreError>) -> (r: Outcome)
    ensures
        r@.objects_only(),
        r@ == match stored {
            Ok(u) => match u.doc@ {
                JsonV::Object(fields) => if u.changed@.len() > 0 {
                    announced(
                        "routine.updated"@,
                        JsonV::Object(
                            set_field(fields, "changed"@, text_list(u.changed.deep_view())),
                        ),
                        ok(u.doc@),
                    )
                } else {
                    silent(ok(u.doc@))
                },
                _ => silent(ok(u.doc@)),
            },
            Err(e) => refused(e),
        },
{
    match stored {
        Ok(u) => {
            let reply = Reply { status: 200, body: u.doc.copy() };
            if u.changed.len() == 0 {
                return quiet(reply);
            }
            match u.doc {
                Json::Object(fields) => {
                    let payload = Fields::of(fields).set("changed", texts(&u.changed)).object();
                    loud("routine.updated", payload, reply)
                },
                _ => quiet(reply),
            }
        },
        Err(e) => quiet(map_err(e)),
    }
}

/// The event a routine's new status is announced with.
pub open spec fn routine_event(status: RoutineStatus) -> Seq<char> {
    match status {
        RoutineStatus::Paused => "routine.paused"@,
        RoutineStatus::Active => "routine.resumed"@,
        RoutineStatus::Retired => "routine.retired"@,
    }
}

pub fn transition_routine(stored: Result<RoutineRow, StoreError>) -> (r: Outcome)
    ensures
        r@.objects_only(),
        r@ == match stored {
            Ok(t) => announced(
                routine_event(t.status),
                obj1("routine_id"@, JsonV::Text(t.id@)),
                ok(t.doc@),
            ),
            Err(e) => refused(e),
        },
{
    match stored {
        Ok(t) => {
            let kind: &'static str = match t.status {
                RoutineStatus::Paused => "routine.paused",
                RoutineStatus::Active => "routine.resumed",
                RoutineStatus::Retired => "routine.retired",
            };
            let payload = Fields::new().with("routine_id", text(t.id.as_str())).object();
            loud(kind, payload, Reply { status: 200, body: t.doc })
        },
        Err(e) => quiet(map_err(e)),
    }
}

// ---- reviews ----

/// A review, and the document that shows it.
#[derive(Debug)]
pub struct ReviewRow {
    pub id: String,
    pub kind: String,
    pub period: String,
    pub status: String,
    pub body: String,
    pub doc: Json,
}

/// The payload of `review.created`.
pub open spec fn review_payload(
    id: Seq<char>,
    kind: Seq<char>,
    period: Seq<char>,
    status: Seq<char>,
    source: Seq<char>,
) -> JsonV {
    obj5(
        "id"@,
        JsonV::Text(id),
        "kind"@,
        JsonV::Text(kind),
        "period"@,
        JsonV::Text(period),
        "status"@,
        JsonV::Text(status),
        "source"@,
        JsonV::Text(source),
    )
}

/// The payload of `review.created`.
pub fn review_created(id: &str, kind: &str, period: &str, status: &str, source: &str) -> (r: Json)
    ensures
        r@ == review_payload(id@, kind@, period@, status@, source@),
        r is Object,
{
    Fields::new().with("id", text(id)).with("kind", text(kind)).with("period", text(period)).with(
        "status",
        text(status),
    ).with("source", text(source)).object()
}

pub fn create_review(stored: Result<ReviewRow, StoreError>) -> (r: Outcome)
    ensures
        r@.objects_only(),
        r@ == match stored {
            Ok(v) => announced(
                "review.created"@,
                review_payload(v.id@, v.kind@, v.period@, v.status@, "human"@),
                created(v.doc@),
            ),
            Err(e) => refused(e),
        },
{
    match stored {
        Ok(v) => {
            let payload = review_created(
                v.id.as_str(),
                v.kind.as_str(),
                v.period.as_str(),
                v.status.as_str(),
                "human",
            );
            loud("review.created", payload, Reply { status: 201, body: v.doc })
        },
        Err(e) => quiet(map_err(e)),
    }
}

/// What replacing a review's body gave.
#[derive(Debug)]
pub struct ReviewUpdate {
    pub changed: bool,
    pub review: ReviewRow,
}

/// The outcome of `PATCH /reviews/{id}`. The same body again emits nothing.
pub fn update_review(stored: Result<ReviewUpdate, StoreError>) -> (r: Outcome)
    ensures
        r@.objects_only(),
        r@ == match stored {
            Ok(u) => if u.changed {
                announced(
                    "review.updated"@,
                    obj2(
                        "review_id"@,
                        JsonV::Text(u.review.id@),
                        "body"@,
                        JsonV::Text(u.review.body@),
                    ),
                    ok(u.review.doc@),
                )
            } else {
                silent(ok(u.review.doc@))
            },
            Err(e) => refused(e),
        },
{
    match stored {
        Ok(u) => {
            let reply = Reply { status: 200, body: u.review.doc };
            if u.changed {
                let payload = Fields::new().with("review_id", text(u.review.id.as_str())).with(
                    "body",
                    text(u.review.body.as_str()),
                ).object();
                loud("review.updated", payload, reply)
            } else {
                quiet(reply)
            }
        },
        Err(e) => quiet(map_err(e)),
    }
}

pub fn finalize_review(stored: Result<ReviewRow, StoreError>) -> (r: Outcome)
    ensures
        r@.objects_only(),
        r@ == match stored {
            Ok(v) => announced(
                "review.finalized"@,
                obj1("review_id"@, JsonV::Text(v.id@)),
                ok(v.doc@),
            ),
            Err(e) => refused(e),
        },
{
    match stored {
        Ok(v) => {
            let payload = Fields::new().with("review_id", text(v.id.as_str())).object();
            loud("review.finalized", payload, Reply { status: 200, body: v.doc })
        },
        Err(e) => quiet(map_err(e)),
    }
}

// ---- settings ----

/// The AI settings as they are shown.
pub open spec fn settings_body(executive_enabled: bool) -> JsonV {
    obj1("executive_enabled"@, JsonV::Bool(executive_enabled))
}

fn show_settings(executive_enabled: bool) -> (r: Json)
    ensures
        r@ == settings_body(executive_enabled),
{
    Fields::new().with("executive_enabled", Json::Bool(executive_enabled)).object()
}

pub fn get_ai_settings(executive_enabled: Result<bool, StoreError>) -> (r: Reply)
    ensures
        r@ == match executive_enabled {
            Ok(on) => ok(settings_body(on)),
            Err(e) => store_reply(e.deep_view()),
        },
{
    match executive_enabled {
        Ok(on) => Reply { status: 200, body: show_settings(on) },
        Err(e) => map_err(e),
    }
}

pub fn put_ai_settings(executive_enabled: Result<bool, StoreError>) -> (r: Outcome)
    ensures
        r@.objects_only(),
        r@ == match executive_enabled {
            Ok(on) => announced(
                "setting.changed"@,
                obj2(
                    "key"@,
                    JsonV::Text("ai.executive_enabled"@),
                    "value"@,
                    JsonV::Bool(on),
                ),
                ok(settings_body(on)),
            ),
            Err(e) => refused(e),
        },
{
    match executive_enabled {
        Ok(on) => {
            let payload = Fields::new().with("key", text("ai.executive_enabled")).with(
                "value",
                Json::Bool(on),
            ).object();
            loud("setting.changed", payload, Reply { status: 200, body: show_settings(on) })
        },
        Err(e) => quiet(map_err(e)),
    }
}

/// A failure of the store is never answered as a success, and a request it
/// fails emits no event.
pub proof fn law_a_failed_request_emits_nothing(e: StoreError)
    ensures
        !refused(e).succeeded(),
        refused(e).events.len() == 0,
        refused(e).reply.status >= 400,
{
}

/// A range of well-formed times is accepted exactly when its start comes before
/// its end as a whole text: at the first byte in which the two differ, wherever
/// it stands, that of the start is the smaller. Equal times are refused.
pub proof fn law_a_range_is_decided_at_its_first_difference(
    start: Seq<char>,
    end: Seq<char>,
    i: int,
)
    requires
        0 <= i < vstd::utf8::encode_utf8(start).len(),
        i < vstd::utf8::encode_utf8(end).len(),
        forall|j: int|
            0 <= j < i ==> vstd::utf8::encode_utf8(start)[j] == vstd::utf8::encode_utf8(end)[j],
        vstd::utf8::encode_utf8(start)[i] != vstd::utf8::encode_utf8(end)[i],
    ensures
        range_fault(start, end, true) is None <==> vstd::utf8::encode_utf8(start)[i]
            < vstd::utf8::encode_utf8(end)[i],
        range_fault(start, end, true) is Some <==> range_fault(end, start, true) is None,
        range_fault(start, start, true) is Some,
{
    law_the_first_difference_decides(start, end, i);
    law_the_first_difference_decides(end, start, i);
    law_texts_are_totally_ordered(start, end);
    law_texts_are_totally_ordered(start, start);
}

/// A time that is not well formed is refused whatever the other is, and each
/// refusal is a 400 that says what is wrong.
pub proof fn law_a_refused_range_says_why(start: Seq<char>, end: Seq<char>)
    ensures
        range_fault(start, end, false) == Some(
            error(
                400,
                "invalid_request"@,
                "start and end must be fixed-width ISO-8601 (YYYY-MM-DDThh:mm:ssZ)"@,
            ),
        ),
        range_fault(start, end, true) matches Some(reply) ==> reply == error(
            400,
            "invalid_request"@,
            "start must be strictly before end"@,
        ),
{
}

/// A reason is dropped exactly when it is missing or all white space, and is
/// otherwise kept without the white space around it.
pub proof fn law_a_reason_is_kept_without_the_white_space_around_it(s: Seq<char>) -> (ends: (
    int,
    int,
))
    ensures
        kept_reason(None) is None,
        kept_reason(Some(s)) is None <==> forall|k: int|
            0 <= k < s.len() ==> white_space(#[trigger] s[k]),
        0 <= ends.0 <= ends.1 <= s.len(),
        kept_reason(Some(s)) matches Some(kept) ==> kept == s.subrange(ends.0, ends.1),
        forall|k: int| 0 <= k < ends.0 || ends.1 <= k < s.len() ==> white_space(#[trigger] s[k]),
        ends.0 < ends.1 ==> !white_space(s[ends.0]) && !white_space(s[ends.1 - 1]),
{
    let ends = law_trimming_takes_white_space_off_the_ends(s);
    if ends.0 < ends.1 {
        assert(!white_space(s[ends.0]));
    }
    ends
}

/// A listing is a 200 with the rows, in order, under its one name.
pub proof fn law_a_listing_has_the_rows(name: Seq<char>, rows: Vec<Json>, i: int)
    ensures
        ({
            let reply = listed(name, Ok::<Vec<Json>, StoreError>(rows));
            &&& reply.status == 200
            &&& reply.body matches JsonV::Object(fields)
            &&& fields.len() == 1
            &&& fields[0].0 == name
            &&& fields[0].1 matches JsonV::List(values)
            &&& values.len() == rows@.len()
            &&& 0 <= i < rows@.len() ==> values[i] == rows@[i]@
        }),
{
}

/// A failed request is answered as the failure of the store, without events,
/// and one that is announced with its one event.
pub proof fn law_what_is_announced(e: StoreError, kind: Seq<char>, payload: JsonV, reply: ReplyV)
    ensures
        refused(e).events.len() == 0,
        refused(e).reply == store_reply(e.deep_view()),
        announced(kind, payload, reply).events.len() == 1,
        announced(kind, payload, reply).events[0].kind == kind,
        announced(kind, payload, reply).events[0].payload == payload,
        announced(kind, payload, reply).reply == reply,
        created(payload).status == 201,
        created(payload).body == payload,
{
}

/// What the events tell of the entities they are about.
pub proof fn law_what_events_tell(
    area: AreaRow,
    direction: DirectionRow,
    task: TaskRow,
    block: BlockRow,
    name: Seq<char>,
    id: Seq<char>,
    status: Seq<char>,
)
    ensures
        area_payload(area) == obj2("id"@, JsonV::Text(area.id@), "title"@, JsonV::Text(area.title@)),
        area_created(area).kind == "area.created"@,
        area_created(area).payload == area_payload(area),
        moved(name, id, status) == obj2(name, JsonV::Text(id), "to"@, JsonV::Text(status)),
        direction_payload(direction) == obj3(
            "id"@,
            JsonV::Text(direction.id@),
            "title"@,
            JsonV::Text(direction.title@),
            "area_id"@,
            opt_text(direction.area_id.deep_view()),
        ),
        task_payload(task) == obj3(
            "id"@,
            JsonV::Text(task.id@),
            "direction_id"@,
            opt_text(task.direction_id.deep_view()),
            "parent_task_id"@,
            opt_text(task.parent_task_id.deep_view()),
        ),
        block_payload(block) == obj2(
            "block_id"@,
            JsonV::Text(block.id@),
            "direction_id"@,
            opt_text(block.direction_id.deep_view()),
        ),
{
}

/// What the events tell of routines, reviews and settings.
pub proof fn law_what_routine_and_review_events_tell(
    id: Seq<char>,
    kind: Seq<char>,
    period: Seq<char>,
    status: Seq<char>,
    source: Seq<char>,
    on: bool,
)
    ensures
        RoutineStatus::Active.name() == "active"@,
        RoutineStatus::Paused.name() == "paused"@,
        RoutineStatus::Retired.name() == "retired"@,
        routine_event(RoutineStatus::Active) == "routine.resumed"@,
        routine_event(RoutineStatus::Paused) == "routine.paused"@,
        routine_event(RoutineStatus::Retired) == "routine.retired"@,
        review_payload(id, kind, period, status, source) == obj5(
            "id"@,
            JsonV::Text(id),
            "kind"@,
            JsonV::Text(kind),
            "period"@,
            JsonV::Text(period),
            "status"@,
            JsonV::Text(status),
            "source"@,
            JsonV::Text(source),
        ),
        settings_body(on) == obj1("executive_enabled"@, JsonV::Bool(on)),
{
}

/// A range of ASCII times is accepted exactly when, at the first character in
/// which they differ, wherever it stands, that of the start is the smaller. A
/// start that only begins like a longer end comes before it.
pub proof fn law_an_ascii_range_is_decided_by_its_characters(
    start: Seq<char>,
    end: Seq<char>,
    i: int,
)
    requires
        vstd::utf8::is_ascii_chars(start),
        vstd::utf8::is_ascii_chars(end),
        0 <= i <= start.len(),
        i <= end.len(),
        forall|j: int| 0 <= j < i ==> start[j] == end[j],
    ensures
        i < start.len() && i < end.len() && start[i] != end[i] ==> (range_fault(start, end, true)
            is None <==> start[i] < end[i]),
        i == start.len() && i < end.len() ==> range_fault(start, end, true) is None && range_fault(
            end,
            start,
            true,
        ) is Some,
{
    let a = vstd::utf8::encode_utf8(start);
    let b = vstd::utf8::encode_utf8(end);
    vstd::utf8::is_ascii_chars_encode_utf8(start);
    vstd::utf8::is_ascii_chars_encode_utf8(end);
    assert forall|j: int| 0 <= j < i implies a[j] == b[j] by {
        assert(start[j] as u8 == a[j]);
        assert(end[j] as u8 == b[j]);
    }
    if i < start.len() {
        assert(start[i] as u8 == a[i]);
    }
    if i < end.len() {
        assert(end[i] as u8 == b[i]);
    }
    law_the_first_difference_decides(start, end, i);
    law_the_first_difference_decides(end, start, i);
    law_texts_are_totally_ordered(start, end);
}

/// A reason of up to a thousand characters, after trimming, is accepted.
pub proof fn law_how_long_a_reason_may_be()
    ensures
        MAX_REJECT_REASON_CHARS == 1000,
        reason_too_long() == error(
            400,
            "invalid_request"@,
            "reason must be at most 1000 characters"@,
        ),
        DEFAULT_TASK_KIND@ == "other"@,
        DEFAULT_ENERGY@ == "mid"@,
{
}

} // verus!
