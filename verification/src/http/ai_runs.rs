//! The AI runs of this process: which capability is busy, and what became of
//! the recent runs.
use super::{ok, Reply, ReplyV};
use crate::json::{list_value, obj2, obj3, obj5, text, text_or_null, Fields, Json, JsonV};
use crate::model::Capability;
use crate::text::same_text;
use vstd::hash_map::StringHashMap;
use vstd::prelude::*;

verus! {

/// How many runs are remembered before finished ones are forgotten.
pub const MAX_TRACKED_RUNS: usize = 64;

/// What became of one target of a run.
#[derive(Debug)]
pub struct AiRunItem {
    pub target: String,
    pub result: String,
    pub reason: Option<&'static str>,
}

#[verifier::ext_equal]
pub struct ItemV {
    pub target: Seq<char>,
    pub result: Seq<char>,
    pub reason: Option<Seq<char>>,
}

impl DeepView for AiRunItem {
    type V = ItemV;

    open spec fn deep_view(&self) -> ItemV {
        ItemV {
            target: self.target@,
            result: self.result@,
            reason: match self.reason {
                Some(why) => Some(why@),
                None => None,
            },
        }
    }
}

impl Clone for AiRunItem {
    fn clone(&self) -> (r: Self)
        ensures
            r.deep_view() == self.deep_view(),
    {
        AiRunItem { target: self.target.clone(), result: self.result.clone(), reason: self.reason }
    }
}

/// Copies a list of items.
fn copy_items(items: &Vec<AiRunItem>) -> (r: Vec<AiRunItem>)
    ensures
        r.deep_view() == items.deep_view(),
{
    let r = items.clone();
    assert(r.deep_view() =~= items.deep_view());
    r
}

/// One run.
#[derive(Debug)]
pub struct AiRunRecord {
    pub run_id: String,
    pub capability: &'static str,
    pub state: &'static str,
    pub items: Vec<AiRunItem>,
}

#[verifier::ext_equal]
pub struct RecordV {
    pub run_id: Seq<char>,
    pub capability: Seq<char>,
    pub state: Seq<char>,
    pub items: Seq<ItemV>,
}

impl DeepView for AiRunRecord {
    type V = RecordV;

    open spec fn deep_view(&self) -> RecordV {
        RecordV {
            run_id: self.run_id@,
            capability: self.capability@,
            state: self.state@,
            items: self.items.deep_view(),
        }
    }
}

impl Clone for AiRunRecord {
    fn clone(&self) -> (r: Self)
        ensures
            r.deep_view() == self.deep_view(),
    {
        AiRunRecord {
            run_id: self.run_id.clone(),
            capability: self.capability,
            state: self.state,
            items: copy_items(&self.items),
        }
    }
}

/// The run that holds each capability's slot.
struct Busy {
    classify: Option<String>,
    propose: Option<String>,
    summarize: Option<String>,
}

impl Busy {
    spec fn slot(&self, cap: Capability) -> Option<Seq<char>> {
        match cap {
            Capability::Classify => self.classify.deep_view(),
            Capability::Propose => self.propose.deep_view(),
            Capability::Summarize => self.summarize.deep_view(),
        }
    }

    fn get(&self, cap: Capability) -> (r: Option<String>)
        ensures
            r.deep_view() == self.slot(cap),
    {
        match cap {
            Capability::Classify => self.classify.clone(),
            Capability::Propose => self.propose.clone(),
            Capability::Summarize => self.summarize.clone(),
        }
    }

    fn set(&mut self, cap: Capability, run_id: Option<String>)
        ensures
            final(self).slot(cap) == run_id.deep_view(),
            forall|c: Capability| c != cap ==> final(self).slot(c) == old(self).slot(c),
    {
        match cap {
            Capability::Classify => {
                self.classify = run_id;
            },
            Capability::Propose => {
                self.propose = run_id;
            },
            Capability::Summarize => {
                self.summarize = run_id;
            },
        }
    }
}

/// The runs of this process. At most one run per capability is in flight.
pub struct RunRegistry {
    order: Vec<String>,
    runs: StringHashMap<AiRunRecord>,
    busy: Busy,
}

/// A registry: run ids in the order they were started, the remembered runs,
/// and the busy slots.
#[verifier::ext_equal]
pub struct RegistryV {
    pub order: Seq<Seq<char>>,
    pub runs: Map<Seq<char>, RecordV>,
    pub busy: Map<Capability, Seq<char>>,
}

impl View for RunRegistry {
    type V = RegistryV;

    closed spec fn view(&self) -> RegistryV {
        RegistryV {
            order: self.order.deep_view(),
            runs: self.runs@.map_values(|r: AiRunRecord| r.deep_view()),
            busy: Map::new(
                |c: Capability| self.busy.slot(c) is Some,
                |c: Capability| self.busy.slot(c)->0,
            ),
        }
    }
}

/// A run that has just been started.
pub open spec fn running(cap: Capability, run_id: Seq<char>) -> RecordV {
    RecordV { run_id, capability: cap.name(), state: "running"@, items: Seq::empty() }
}

impl RegistryV {
    /// Nothing was started yet.
    pub open spec fn empty() -> Self {
        RegistryV { order: Seq::empty(), runs: Map::empty(), busy: Map::empty() }
    }

    /// The id at position `i` of the order may be forgotten: its run is not
    /// remembered any more, or is not running.
    pub open spec fn evictable(self, i: int) -> bool {
        0 <= i < self.order.len() && (self.runs.contains_key(self.order[i])
            ==> self.runs[self.order[i]].state != "running"@)
    }

    /// Position `i` is the first that may be forgotten.
    pub open spec fn first_evictable(self, i: int) -> bool {
        self.evictable(i) && forall|j: int| 0 <= j < i ==> !self.evictable(j)
    }

    /// The registry without the oldest run that is not running. When every
    /// run is running, none is forgotten.
    pub open spec fn evict(self) -> Self {
        if exists|i: int| self.first_evictable(i) {
            let i = choose|i: int| self.first_evictable(i);
            RegistryV {
                order: self.order.remove(i),
                runs: self.runs.remove(self.order[i]),
                busy: self.busy,
            }
        } else {
            self
        }
    }

    /// `run_id` is started for `cap`.
    pub open spec fn start(self, cap: Capability, run_id: Seq<char>) -> Self {
        let room = if self.runs.len() >= MAX_TRACKED_RUNS {
            self.evict()
        } else {
            self
        };
        RegistryV {
            order: room.order.push(run_id),
            runs: room.runs.insert(run_id, running(cap, run_id)),
            busy: self.busy.insert(cap, run_id),
        }
    }

    /// `run_id` ends in `state` with `items`, and the slot of `cap` is free.
    pub open spec fn finish(
        self,
        cap: Capability,
        run_id: Seq<char>,
        state: Seq<char>,
        items: Seq<ItemV>,
    ) -> Self {
        RegistryV {
            order: self.order,
            runs: if self.runs.contains_key(run_id) {
                self.runs.insert(run_id, RecordV { state, items, ..self.runs[run_id] })
            } else {
                self.runs
            },
            busy: self.busy.remove(cap),
        }
    }
}

impl Default for RunRegistry {
    fn default() -> (r: Self)
        ensures
            r@ == RegistryV::empty(),
    {
        let r = RunRegistry {
            order: Vec::new(),
            runs: StringHashMap::new(),
            busy: Busy { classify: None, propose: None, summarize: None },
        };
        assert(r@ =~= RegistryV::empty());
        r
    }
}

impl RunRegistry {
    /// The run in flight for `cap`, if there is one.
    pub fn busy_run(&self, cap: Capability) -> (r: Option<String>)
        ensures
            match r {
                Some(id) => self@.busy.contains_key(cap) && self@.busy[cap] == id@,
                None => !self@.busy.contains_key(cap),
            },
    {
        self.busy.get(cap)
    }

    /// Takes the slot of `cap` for `run_id` and remembers it as running. When
    /// the registry is full, the oldest run that is not running is forgotten.
    pub fn start(&mut self, cap: Capability, run_id: &str)
        ensures
            final(self)@ == old(self)@.start(cap, run_id@),
    {
        let full = self.runs.len() >= MAX_TRACKED_RUNS;
        proof {
            lemma_map_values_len(self.runs@);
        }
        if full {
            self.evict_one_non_running();
        }
        let ghost room = self@;
        self.busy.set(cap, Some(run_id.to_owned()));
        self.order.push(run_id.to_owned());
        let record = AiRunRecord {
            run_id: run_id.to_owned(),
            capability: cap.as_str(),
            state: "running",
            items: Vec::new(),
        };
        assert(record.deep_view() =~= running(cap, run_id@));
        self.runs.insert(run_id.to_owned(), record);
        assert(self@.order =~= room.order.push(run_id@));
        assert(self@.runs =~= room.runs.insert(run_id@, running(cap, run_id@)));
        assert(self@.busy =~= room.busy.insert(cap, run_id@));
    }

    fn evict_one_non_running(&mut self)
        ensures
            final(self)@ == old(self)@.evict(),
    {
        let ghost before = self@;
        let mut i: usize = 0;
        while i < self.order.len()
            invariant
                before == old(self)@,
                self@ == before,
                i <= self.order@.len(),
                forall|j: int| 0 <= j < i ==> !before.evictable(j),
            decreases self.order@.len() - i,
        {
            assert(before.order[i as int] == self.order@[i as int]@);
            let forget = match self.runs.get(self.order[i].as_str()) {
                Some(record) => !same_text(record.state, "running"),
                None => true,
            };
            assert(forget == before.evictable(i as int));
            if forget {
                let id = self.order.remove(i);
                self.runs.remove(id.as_str());
                proof {
                    assert(before.first_evictable(i as int));
                    let k = choose|k: int| before.first_evictable(k);
                    assert(k == i) by {
                        if k < i {
                            assert(!before.evictable(k));
                        } else if k > i {
                            assert(!before.evictable(i as int));
                        }
                    }
                    assert(self@.order =~= before.order.remove(i as int));
                    assert(self@.runs =~= before.runs.remove(before.order[i as int]));
                    assert(self@.busy =~= before.busy);
                }
                return;
            }
            i = i + 1;
        }
        assert(!exists|k: int| before.first_evictable(k)) by {
            if exists|k: int| before.first_evictable(k) {
                let k = choose|k: int| before.first_evictable(k);
                assert(!before.evictable(k));
            }
        }
    }

    /// Ends a run: frees the slot of `cap` and, where `run_id` is remembered,
    /// records its state and items.
    pub fn finish(
        &mut self,
        cap: Capability,
        run_id: &str,
        state: &'static str,
        items: Vec<AiRunItem>,
    )
        ensures
            final(self)@ == old(self)@.finish(cap, run_id@, state@, items.deep_view()),
    {
        let ghost before = self@;
        self.busy.set(cap, None);
        let ended = match self.runs.get(run_id) {
            Some(record) => Some(
                AiRunRecord {
                    run_id: record.run_id.clone(),
                    capability: record.capability,
                    state,
                    items,
                },
            ),
            None => None,
        };
        if let Some(record) = ended {
            self.runs.insert(run_id.to_owned(), record);
        }
        assert(self@.order =~= before.order);
        assert(self@.runs =~= before.finish(cap, run_id@, state@, items.deep_view()).runs);
        assert(self@.busy =~= before.busy.remove(cap));
    }

    /// The remembered run `run_id`.
    pub fn get(&self, run_id: &str) -> (r: Option<AiRunRecord>)
        ensures
            match r {
                Some(record) => self@.runs.contains_key(run_id@) && record.deep_view()
                    == self@.runs[run_id@],
                None => !self@.runs.contains_key(run_id@),
            },
    {
        match self.runs.get(run_id) {
            Some(record) => Some(record.clone()),
            None => None,
        }
    }
}

proof fn lemma_map_values_len(runs: Map<Seq<char>, AiRunRecord>)
    ensures
        runs.map_values(|r: AiRunRecord| r.deep_view()).len() == runs.len(),
{
    assert(runs.map_values(|r: AiRunRecord| r.deep_view()).dom() =~= runs.dom());
}

/// Holds a capability's slot for one run until the run is reported.
#[derive(Debug)]
pub struct BusyGuard {
    cap: Capability,
    run_id: String,
    done: bool,
}

#[verifier::ext_equal]
pub struct GuardV {
    pub cap: Capability,
    pub run_id: Seq<char>,
    /// The run was reported already.
    pub done: bool,
}

impl GuardV {
    /// What reporting the run does to the registry. A run is reported once: a
    /// later report does nothing.
    pub open spec fn report(
        self,
        runs: RegistryV,
        state: Seq<char>,
        items: Seq<ItemV>,
    ) -> RegistryV {
        if self.done {
            runs
        } else {
            runs.finish(self.cap, self.run_id, state, items)
        }
    }

    /// What letting go of the guard does to the registry.
    pub open spec fn release(self, runs: RegistryV) -> RegistryV {
        self.report(runs, "aborted"@, Seq::empty())
    }
}

impl View for BusyGuard {
    type V = GuardV;

    closed spec fn view(&self) -> GuardV {
        GuardV { cap: self.cap, run_id: self.run_id@, done: self.done }
    }
}

impl BusyGuard {
    /// A guard for a run that has just been started.
    #[must_use]
    pub fn new(cap: Capability, run_id: String) -> (r: Self)
        ensures
            r@ == (GuardV { cap, run_id: run_id@, done: false }),
    {
        BusyGuard { cap, run_id, done: false }
    }

    /// Reports how the run ended and frees the slot, unless the run was
    /// reported before: the slot may be another run's by then.
    pub fn finish(&mut self, runs: &mut RunRegistry, state: &'static str, items: Vec<AiRunItem>)
        ensures
            final(self)@ == (GuardV { done: true, ..old(self)@ }),
            final(runs)@ == old(self)@.report(old(runs)@, state@, items.deep_view()),
    {
        if !self.done {
            self.done = true;
            runs.finish(self.cap, self.run_id.as_str(), state, items);
        }
    }

    /// What happens when the guard goes away: a run that was never reported
    /// ends as aborted, without items, and its slot is freed.
    pub fn release(&mut self, runs: &mut RunRegistry)
        ensures
            final(self)@ == (GuardV { done: true, ..old(self)@ }),
            final(runs)@ == old(self)@.release(old(runs)@),
    {
        let items: Vec<AiRunItem> = Vec::new();
        assert(items.deep_view() =~= Seq::empty());
        self.finish(runs, "aborted", items);
    }

    /// The id of the guarded run.
    pub fn run_id(&self) -> (r: &str)
        ensures
            r@ == self@.run_id,
    {
        self.run_id.as_str()
    }
}

/// The id of a run, from a unique suffix.
pub fn new_run_id(unique: &str) -> (r: String)
    ensures
        r@ == "run-"@ + unique@,
{
    let mut id: String = "run-".to_owned();
    id.append(unique);
    id
}

/// The reply when `run_id` already holds the slot.
pub open spec fn busy_reply(run_id: Seq<char>) -> ReplyV {
    ReplyV {
        status: 409,
        body: obj2("code"@, JsonV::Text("ai_busy"@), "run_id"@, JsonV::Text(run_id)),
    }
}

/// The reply when a run was started.
pub open spec fn started_reply(cap: Capability, run_id: Seq<char>) -> ReplyV {
    ReplyV {
        status: 202,
        body: obj2("run_id"@, JsonV::Text(run_id), "capability"@, JsonV::Text(cap.name())),
    }
}

/// Starts `run_id` unless a run of `cap` is in flight. Gives the reply and,
/// for a started run, the guard that holds the slot.
pub fn claim(runs: &mut RunRegistry, cap: Capability, run_id: String) -> (r: (
    Reply,
    Option<BusyGuard>,
))
    ensures
        if old(runs)@.busy.contains_key(cap) {
            &&& final(runs)@ == old(runs)@
            &&& r.0@ == busy_reply(old(runs)@.busy[cap])
            &&& r.1 is None
        } else {
            &&& final(runs)@ == old(runs)@.start(cap, run_id@)
            &&& r.0@ == started_reply(cap, run_id@)
            &&& r.1 matches Some(guard) && guard@ == (GuardV { cap, run_id: run_id@, done: false })
        },
{
    if let Some(existing) = runs.busy_run(cap) {
        let body = Fields::new().with("code", text("ai_busy")).with(
            "run_id",
            Json::Text(existing),
        ).object();
        return (Reply { status: 409, body }, None);
    }
    runs.start(cap, run_id.as_str());
    let body = Fields::new().with("run_id", text(run_id.as_str())).with(
        "capability",
        text(cap.as_str()),
    ).object();
    (Reply { status: 202, body }, Some(BusyGuard::new(cap, run_id)))
}

/// A run that was started, and what it works on.
#[derive(Debug)]
pub struct Started<T> {
    /// Holds the slot until the run is reported.
    pub guard: BusyGuard,
    pub input: T,
}

/// The answer to a request that triggers a run, and the run if one was started.
#[derive(Debug)]
pub struct Triggered<T> {
    pub reply: Reply,
    pub started: Option<Started<T>>,
}

/// A request that triggers a run of `cap`, and was refused or not before the
/// slot is looked at: a refused one changes nothing, one that finds the slot
/// taken is told by which run, and any other starts `run_id` on `input`.
pub open spec fn trigger_step<T>(
    before: RegistryV,
    after: RegistryV,
    refusal: Option<ReplyV>,
    cap: Capability,
    run_id: Seq<char>,
    input: T,
    r: Triggered<T>,
) -> bool {
    match refusal {
        Some(reply) => after == before && r.reply@ == reply && r.started is None,
        None => if before.busy.contains_key(cap) {
            &&& after == before
            &&& r.reply@ == busy_reply(before.busy[cap])
            &&& r.started is None
        } else {
            &&& after == before.start(cap, run_id)
            &&& r.reply@ == started_reply(cap, run_id)
            &&& r.started matches Some(run)
            &&& run.guard@ == (GuardV { cap, run_id, done: false })
            &&& run.input == input
        },
    }
}

/// Starts a run of `cap` on `input` under a new id, unless one is in flight.
pub fn start_run<T>(runs: &mut RunRegistry, cap: Capability, unique: &str, input: T) -> (r: Triggered<
    T,
>)
    ensures
        trigger_step(
            old(runs)@,
            final(runs)@,
            None,
            cap,
            "run-"@ + unique@,
            input,
            r,
        ),
{
    let (reply, guard) = claim(runs, cap, new_run_id(unique));
    match guard {
        Some(guard) => Triggered { reply, started: Some(Started { guard, input }) },
        None => Triggered { reply, started: None },
    }
}

/// The answer to a refused request.
pub fn not_triggered<T>(reply: Reply) -> (r: Triggered<T>)
    ensures
        r.reply == reply,
        r.started is None,
{
    Triggered { reply, started: None }
}

/// A recorded model call of a run.
#[derive(Debug)]
pub struct AiCall {
    pub task_kind: String,
    /// The call as it is shown.
    pub doc: Json,
}

pub open spec fn item_json(item: ItemV) -> JsonV {
    match item.reason {
        Some(why) => obj3(
            "target"@,
            JsonV::Text(item.target),
            "result"@,
            JsonV::Text(item.result),
            "reason"@,
            JsonV::Text(why),
        ),
        None => obj2(
            "target"@,
            JsonV::Text(item.target),
            "result"@,
            JsonV::Text(item.result),
        ),
    }
}

fn show_item(item: &AiRunItem) -> (r: Json)
    ensures
        r@ == item_json(item.deep_view()),
{
    let fields = Fields::new().with("target", text(item.target.as_str())).with(
        "result",
        text(item.result.as_str()),
    );
    match item.reason {
        Some(why) => fields.with("reason", text(why)).object(),
        None => fields.object(),
    }
}

fn show_items(items: &Vec<AiRunItem>) -> (r: Json)
    ensures
        r@ == JsonV::List(items.deep_view().map_values(|i: ItemV| item_json(i))),
{
    let mut out: Vec<Json> = Vec::new();
    let mut i: usize = 0;
    while i < items.len()
        invariant
            i <= items@.len(),
            out@.len() == i,
            forall|j: int| 0 <= j < i ==> #[trigger] out@[j]@ == item_json(items@[j].deep_view()),
        decreases items@.len() - i,
    {
        out.push(show_item(&items[i]));
        i = i + 1;
    }
    let ghost want = items.deep_view().map_values(|i: ItemV| item_json(i));
    assert forall|j: int| 0 <= j < out@.len() implies list_value(out@)[j] == want[j] by {
        assert(out@[j]@ == item_json(items@[j].deep_view()));
    }
    assert(list_value(out@) =~= want);
    Json::List(out)
}

/// What is shown of a run.
pub open spec fn run_body(
    run_id: Seq<char>,
    capability: JsonV,
    state: Seq<char>,
    items: Seq<ItemV>,
    calls: Seq<JsonV>,
) -> JsonV {
    obj5(
        "run_id"@,
        JsonV::Text(run_id),
        "capability"@,
        capability,
        "state"@,
        JsonV::Text(state),
        "items"@,
        JsonV::List(items.map_values(|i: ItemV| item_json(i))),
        "calls"@,
        JsonV::List(calls),
    )
}

/// The recorded calls, or none when the read failed.
pub open spec fn calls_or_none(calls: Option<Vec<AiCall>>) -> Seq<AiCall> {
    match calls {
        Some(v) => v@,
        None => Seq::empty(),
    }
}

/// The reply to `GET /ai/runs/{run_id}`. A run that is not remembered is
/// shown as unknown, with the capability of its first recorded call.
pub fn get_ai_run(runs: &RunRegistry, run_id: &str, calls: Option<Vec<AiCall>>) -> (r: Reply)
    ensures
        r@ == ok(
            {
                let recorded = calls_or_none(calls);
                let shown = recorded.map_values(|c: AiCall| c.doc@);
                if runs@.runs.contains_key(run_id@) {
                    let record = runs@.runs[run_id@];
                    run_body(
                        record.run_id,
                        JsonV::Text(record.capability),
                        record.state,
                        record.items,
                        shown,
                    )
                } else {
                    run_body(
                        run_id@,
                        if recorded.len() > 0 {
                            JsonV::Text(recorded[0].task_kind@)
                        } else {
                            JsonV::Null
                        },
                        "unknown"@,
                        Seq::empty(),
                        shown,
                    )
                }
            },
        ),
        r@.status == 200,
        r@.body matches JsonV::Object(fields) && fields.len() == 5 && fields[0].0 == "run_id"@
            && fields[1].0 == "capability"@ && fields[2].0 == "state"@ && fields[3].0 == "items"@
            && fields[4].0 == "calls"@,
        !runs@.runs.contains_key(run_id@) ==> (calls matches Some(v) ==> v@.len() > 0 ==> (
        r@.body->Object_0[0].1 == JsonV::Text(run_id@) && r@.body->Object_0[1].1 == JsonV::Text(
            v@[0].task_kind@,
        ) && r@.body->Object_0[2].1 == JsonV::Text("unknown"@))),
        runs@.runs.contains_key(run_id@) ==> r@.body->Object_0[2].1 == JsonV::Text(
            runs@.runs[run_id@].state,
        ),
{
    let ghost recorded = calls_or_none(calls);
    let list: Vec<AiCall> = match calls {
        Some(v) => v,
        None => Vec::new(),
    };
    let first = if list.len() > 0 {
        Some(list[0].task_kind.clone())
    } else {
        None
    };
    let shown = show_calls(list);
    match runs.get(run_id) {
        Some(record) => {
            let body = Fields::new().with("run_id", Json::Text(record.run_id)).with(
                "capability",
                text(record.capability),
            ).with("state", text(record.state)).with("items", show_items(&record.items)).with(
                "calls",
                shown,
            ).object();
            Reply { status: 200, body }
        },
        None => {
            let none: Vec<AiRunItem> = Vec::new();
            assert(none.deep_view() =~= Seq::empty());
            let body = Fields::new().with("run_id", text(run_id)).with(
                "capability",
                text_or_null(&first),
            ).with("state", text("unknown")).with("items", show_items(&none)).with(
                "calls",
                shown,
            ).object();
            Reply { status: 200, body }
        },
    }
}

fn show_calls(calls: Vec<AiCall>) -> (r: Json)
    ensures
        r@ == JsonV::List(calls@.map_values(|c: AiCall| c.doc@)),
{
    let ghost all = calls@;
    let mut out: Vec<Json> = Vec::new();
    for call in it: calls
        invariant
            it.seq() == all,
            out@.len() == it.index(),
            forall|j: int| 0 <= j < out@.len() ==> #[trigger] out@[j]@ == all[j].doc@,
    {
        out.push(call.doc);
    }
    let ghost want = all.map_values(|c: AiCall| c.doc@);
    assert forall|j: int| 0 <= j < out@.len() implies list_value(out@)[j] == want[j] by {
        assert(out@[j]@ == all[j].doc@);
    }
    assert(list_value(out@) =~= want);
    Json::List(out)
}

impl RegistryV {
    /// The order lists every remembered run once, and nothing else.
    pub open spec fn consistent(self) -> bool {
        &&& self.runs.dom().finite()
        &&& self.order.no_duplicates()
        &&& forall|id: Seq<char>| #[trigger] self.runs.contains_key(id) == self.order.contains(id)
    }

    /// `id` is remembered as running.
    pub open spec fn is_running(self, id: Seq<char>) -> bool {
        self.runs.contains_key(id) && self.runs[id].state == "running"@
    }

    /// `id` holds some capability's slot.
    pub open spec fn holds_a_slot(self, id: Seq<char>) -> bool {
        exists|c: Capability| #[trigger] self.busy.contains_key(c) && self.busy[c] == id
    }

    /// Every running run holds a slot.
    pub open spec fn single_flight(self) -> bool {
        forall|id: Seq<char>| #[trigger] self.is_running(id) ==> self.holds_a_slot(id)
    }
}

/// Starting a run takes its capability's slot, leaves the other slots alone,
/// and remembers the run as running without items.
pub proof fn law_start_takes_the_slot(s: RegistryV, cap: Capability, run_id: Seq<char>)
    ensures
        s.start(cap, run_id).busy.contains_key(cap),
        s.start(cap, run_id).busy[cap] == run_id,
        forall|c: Capability|
            c != cap ==> #[trigger] s.start(cap, run_id).busy.contains_key(c)
                == s.busy.contains_key(c) && (s.busy.contains_key(c) ==> s.start(
                cap,
                run_id,
            ).busy[c] == s.busy[c]),
        s.start(cap, run_id).runs.contains_key(run_id),
        s.start(cap, run_id).runs[run_id] == running(cap, run_id),
{
}

/// Finishing a run frees its capability's slot and no other, and a remembered
/// run then shows the reported state and items.
pub proof fn law_finish_frees_the_slot(
    s: RegistryV,
    cap: Capability,
    run_id: Seq<char>,
    state: Seq<char>,
    items: Seq<ItemV>,
)
    ensures
        ({
            let after = s.finish(cap, run_id, state, items);
            &&& !after.busy.contains_key(cap)
            &&& forall|c: Capability|
                c != cap ==> #[trigger] after.busy.contains_key(c) == s.busy.contains_key(c) && (
                s.busy.contains_key(c) ==> after.busy[c] == s.busy[c])
            &&& s.runs.contains_key(run_id) ==> after.runs.contains_key(run_id)
                && after.runs[run_id] == (RecordV { state, items, ..s.runs[run_id] })
            &&& forall|id: Seq<char>|
                id != run_id ==> #[trigger] after.runs.contains_key(id) == s.runs.contains_key(id)
                    && (s.runs.contains_key(id) ==> after.runs[id] == s.runs[id])
        }),
{
}

/// Reporting a run twice is the same as reporting it once.
pub proof fn law_finish_is_idempotent(
    s: RegistryV,
    cap: Capability,
    run_id: Seq<char>,
    state: Seq<char>,
    items: Seq<ItemV>,
)
    ensures
        s.finish(cap, run_id, state, items).finish(cap, run_id, state, items) == s.finish(
            cap,
            run_id,
            state,
            items,
        ),
{
    let once = s.finish(cap, run_id, state, items);
    let twice = once.finish(cap, run_id, state, items);
    assert(twice.runs =~= once.runs);
    assert(twice.busy =~= once.busy);
}

/// Reporting a run that is not remembered only frees the slot.
pub proof fn law_finish_of_an_unknown_run_only_frees_the_slot(
    s: RegistryV,
    cap: Capability,
    run_id: Seq<char>,
    state: Seq<char>,
    items: Seq<ItemV>,
)
    requires
        !s.runs.contains_key(run_id),
    ensures
        s.finish(cap, run_id, state, items) == (RegistryV { busy: s.busy.remove(cap), ..s }),
{
}

/// However full the registry is, starting a run never forgets another run
/// that is still running.
pub proof fn law_a_running_run_is_never_forgotten(
    s: RegistryV,
    cap: Capability,
    run_id: Seq<char>,
    other: Seq<char>,
)
    requires
        s.is_running(other),
        other != run_id,
    ensures
        s.start(cap, run_id).runs.contains_key(other),
        s.start(cap, run_id).runs[other] == s.runs[other],
{
}

/// In a service that starts a run only on a free slot and under a fresh id,
/// every running run holds a slot, the order matches the remembered runs, and
/// no more than `MAX_TRACKED_RUNS` runs are ever remembered.
pub proof fn law_the_registry_stays_bounded(s: RegistryV, cap: Capability, run_id: Seq<char>)
    requires
        s.consistent(),
        s.single_flight(),
        s.runs.len() <= MAX_TRACKED_RUNS,
        !s.busy.contains_key(cap),
        !s.runs.contains_key(run_id),
    ensures
        s.start(cap, run_id).consistent(),
        s.start(cap, run_id).single_flight(),
        s.start(cap, run_id).runs.len() <= MAX_TRACKED_RUNS,
{
    let room = if s.runs.len() >= MAX_TRACKED_RUNS {
        s.evict()
    } else {
        s
    };
    if s.runs.len() >= MAX_TRACKED_RUNS {
        lemma_some_run_is_evictable(s);
        let i = choose|i: int| s.first_evictable(i);
        let gone = s.order[i];
        assert(s.order.contains(gone));
        assert(s.runs.contains_key(gone));
        assert(room.runs.dom() =~= s.runs.dom().remove(gone));
        assert forall|id: Seq<char>| #[trigger]
            room.runs.contains_key(id) == room.order.contains(id) by {
            lemma_remove_contains(s.order, i, id);
        }
        assert(room.order.no_duplicates());
    }
    let after = s.start(cap, run_id);
    assert(!room.runs.contains_key(run_id));
    assert(after.runs.dom() =~= room.runs.dom().insert(run_id));
    assert forall|id: Seq<char>| #[trigger]
        after.runs.contains_key(id) == after.order.contains(id) by {
        lemma_push_contains(room.order, run_id, id);
        assert(room.runs.contains_key(id) == room.order.contains(id));
    }
    assert(!room.order.contains(run_id)) by {
        assert(room.runs.contains_key(run_id) == room.order.contains(run_id));
    }
    assert forall|id: Seq<char>| #[trigger] after.is_running(id) implies after.holds_a_slot(id) by {
        if id == run_id {
            assert(after.busy.contains_key(cap));
        } else {
            assert(s.is_running(id));
            let c = choose|c: Capability| #[trigger] s.busy.contains_key(c) && s.busy[c] == id;
            assert(after.busy.contains_key(c));
        }
    }
}

/// A registry in which nothing was started has those properties.
pub proof fn law_the_empty_registry_is_consistent()
    ensures
        RegistryV::empty().consistent(),
        RegistryV::empty().single_flight(),
        RegistryV::empty().runs.len() <= MAX_TRACKED_RUNS,
{
}

/// A run that ends leaves those properties in place.
pub proof fn law_the_registry_stays_consistent_when_a_run_ends(
    s: RegistryV,
    cap: Capability,
    run_id: Seq<char>,
    state: Seq<char>,
    items: Seq<ItemV>,
)
    requires
        s.consistent(),
        s.single_flight(),
        s.runs.len() <= MAX_TRACKED_RUNS,
        s.busy.contains_key(cap),
        s.busy[cap] == run_id,
        state != "running"@,
    ensures
        s.finish(cap, run_id, state, items).consistent(),
        s.finish(cap, run_id, state, items).single_flight(),
        s.finish(cap, run_id, state, items).runs.len() <= MAX_TRACKED_RUNS,
{
    let after = s.finish(cap, run_id, state, items);
    assert(after.runs.dom() =~= s.runs.dom());
    assert forall|id: Seq<char>| #[trigger]
        after.runs.contains_key(id) == after.order.contains(id) by {
        assert(s.runs.contains_key(id) == s.order.contains(id));
    }
    assert forall|id: Seq<char>| #[trigger] after.is_running(id) implies after.holds_a_slot(id) by {
        assert(id != run_id);
        assert(s.is_running(id));
        let c = choose|c: Capability| #[trigger] s.busy.contains_key(c) && s.busy[c] == id;
        assert(after.busy.contains_key(c));
    }
}

/// A guard that was reported does nothing more: neither when it is reported
/// again nor when it goes away. A later run that holds the slot keeps it.
pub proof fn law_a_reported_guard_is_inert(
    runs: RegistryV,
    guard: GuardV,
    state: Seq<char>,
    items: Seq<ItemV>,
)
    requires
        guard.done,
    ensures
        guard.report(runs, state, items) == runs,
        guard.release(runs) == runs,
{
}

/// A run whose guard goes away unreported frees its slot, and is shown as
/// aborted without items.
pub proof fn law_an_abandoned_run_is_aborted(s: RegistryV, cap: Capability, run_id: Seq<char>)
    ensures
        ({
            let after = (GuardV { cap, run_id, done: false }).release(s.start(cap, run_id));
            &&& !after.busy.contains_key(cap)
            &&& after.runs[run_id] == (RecordV { state: "aborted"@, ..running(cap, run_id) })
        }),
{
}

/// A run that is cancelled at its deadline, and so reported as aborted, is
/// shown as aborted with the items of the report, and the next request finds
/// the slot free.
pub proof fn law_a_cancelled_run_frees_its_slot(
    s: RegistryV,
    cap: Capability,
    run_id: Seq<char>,
    items: Seq<ItemV>,
)
    ensures
        ({
            let after = s.start(cap, run_id).finish(cap, run_id, "aborted"@, items);
            &&& !after.busy.contains_key(cap)
            &&& after.runs[run_id] == (RecordV {
                state: "aborted"@,
                items,
                ..running(cap, run_id)
            })
        }),
{
}

/// A request that finds the slot taken is told by which run and starts
/// nothing; once that run ends, by its report or by being abandoned, the next
/// request starts a run.
pub proof fn law_one_run_per_capability(
    s: RegistryV,
    cap: Capability,
    first: Seq<char>,
    state: Seq<char>,
    items: Seq<ItemV>,
)
    ensures
        s.start(cap, first).busy.contains_key(cap),
        s.start(cap, first).busy[cap] == first,
        !s.start(cap, first).finish(cap, first, state, items).busy.contains_key(cap),
        !(GuardV { cap, run_id: first, done: false }).release(
            s.start(cap, first),
        ).busy.contains_key(cap),
{
}

proof fn lemma_push_contains(ids: Seq<Seq<char>>, last: Seq<char>, id: Seq<char>)
    ensures
        ids.push(last).contains(id) == (ids.contains(id) || id == last),
{
    if ids.contains(id) {
        let k = choose|k: int| 0 <= k < ids.len() && ids[k] == id;
        assert(ids.push(last)[k] == id);
    }
    assert(ids.push(last)[ids.len() as int] == last);
}

proof fn lemma_remove_contains(ids: Seq<Seq<char>>, i: int, id: Seq<char>)
    requires
        0 <= i < ids.len(),
        ids.no_duplicates(),
    ensures
        ids.remove(i).contains(id) == (ids.contains(id) && id != ids[i]),
{
    if ids.contains(id) && id != ids[i] {
        let k = choose|k: int| 0 <= k < ids.len() && ids[k] == id;
        if k < i {
            assert(ids.remove(i)[k] == id);
        } else {
            assert(ids.remove(i)[k - 1] == id);
        }
    }
    if ids.remove(i).contains(id) {
        let k = choose|k: int| 0 <= k < ids.remove(i).len() && ids.remove(i)[k] == id;
        if k < i {
            assert(ids[k] == id);
        } else {
            assert(ids[k + 1] == id);
        }
    }
}

/// With three slots, more than three remembered runs cannot all be running.
proof fn lemma_some_run_is_evictable(s: RegistryV)
    requires
        s.consistent(),
        s.single_flight(),
        s.runs.len() > 3,
    ensures
        exists|i: int| s.first_evictable(i),
{
    if forall|i: int| !s.evictable(i) {
        let holders = Set::<Seq<char>>::empty().insert(s.busy[Capability::Classify]).insert(
            s.busy[Capability::Propose],
        ).insert(s.busy[Capability::Summarize]);
        assert forall|id: Seq<char>| s.runs.dom().contains(id) implies holders.contains(id) by {
            assert(s.runs.contains_key(id));
            assert(s.order.contains(id));
            let i = choose|i: int| 0 <= i < s.order.len() && s.order[i] == id;
            assert(!s.evictable(i));
            assert(s.is_running(id));
            let c = choose|c: Capability| #[trigger] s.busy.contains_key(c) && s.busy[c] == id;
            assert(c == Capability::Classify || c == Capability::Propose || c
                == Capability::Summarize);
        }
        vstd::set_lib::lemma_len_subset(s.runs.dom(), holders);
        assert(false);
    }
    let i = choose|i: int| s.evictable(i);
    lemma_first_evictable(s, i);
}

proof fn lemma_first_evictable(s: RegistryV, i: int)
    requires
        s.evictable(i),
    ensures
        exists|k: int| s.first_evictable(k),
    decreases i,
{
    if exists|j: int| 0 <= j < i && s.evictable(j) {
        let j = choose|j: int| 0 <= j < i && s.evictable(j);
        lemma_first_evictable(s, j);
    } else {
        assert(s.first_evictable(i));
    }
}

/// Below 64 remembered runs, starting one forgets nothing. From there on it
/// forgets one: the oldest, wherever in the order it stands, that is not
/// running or not remembered any more. The new run is the youngest either way.
pub proof fn law_which_run_is_forgotten(s: RegistryV, cap: Capability, run_id: Seq<char>, i: int)
    requires
        0 <= i < s.order.len(),
        !s.runs.contains_key(s.order[i]) || s.runs[s.order[i]].state != "running"@,
        forall|j: int|
            0 <= j < i ==> s.runs.contains_key(#[trigger] s.order[j]) && s.runs[s.order[j]].state
                == "running"@,
    ensures
        s.runs.len() < 64 ==> s.start(cap, run_id).order == s.order.push(run_id) && s.start(
            cap,
            run_id,
        ).runs == s.runs.insert(run_id, running(cap, run_id)),
        s.runs.len() >= 64 ==> s.start(cap, run_id).order == s.order.remove(i).push(run_id)
            && s.start(cap, run_id).runs == s.runs.remove(s.order[i]).insert(
            run_id,
            running(cap, run_id),
        ),
        s.start(cap, run_id).busy == s.busy.insert(cap, run_id),
        running(cap, run_id).run_id == run_id,
        running(cap, run_id).capability == cap.name(),
        running(cap, run_id).state == "running"@,
        running(cap, run_id).items.len() == 0,
        MAX_TRACKED_RUNS == 64,
{
    assert(s.evictable(i));
    assert forall|j: int| 0 <= j < i implies !s.evictable(j) by {
        assert(s.runs.contains_key(s.order[j]));
    }
    assert(s.first_evictable(i));
    let k = choose|k: int| s.first_evictable(k);
    assert(k == i) by {
        if k < i {
            assert(!s.evictable(k));
        } else if i < k {
            assert(!s.evictable(i));
        }
    }
}

/// Where every run is running, however many there are, starting one forgets
/// nothing.
pub proof fn law_running_runs_are_all_kept(s: RegistryV, cap: Capability, run_id: Seq<char>)
    requires
        forall|j: int|
            0 <= j < s.order.len() ==> s.runs.contains_key(#[trigger] s.order[j])
                && s.runs[s.order[j]].state == "running"@,
    ensures
        s.start(cap, run_id).order == s.order.push(run_id),
        s.start(cap, run_id).runs == s.runs.insert(run_id, running(cap, run_id)),
        s.start(cap, run_id).busy == s.busy.insert(cap, run_id),
{
    if exists|k: int| s.first_evictable(k) {
        let k = choose|k: int| s.first_evictable(k);
        assert(s.runs.contains_key(s.order[k]));
    }
}

/// Ending a run changes nothing but its own record, of which it keeps the id
/// and the capability, and its slot.
pub proof fn law_what_ending_a_run_changes(
    s: RegistryV,
    cap: Capability,
    run_id: Seq<char>,
    state: Seq<char>,
    items: Seq<ItemV>,
)
    ensures
        s.finish(cap, run_id, state, items).order == s.order,
        s.finish(cap, run_id, state, items).busy == s.busy.remove(cap),
        s.finish(cap, run_id, state, items).runs.dom() == s.runs.dom(),
        s.runs.contains_key(run_id) ==> {
            let ended = s.finish(cap, run_id, state, items).runs[run_id];
            &&& ended.run_id == s.runs[run_id].run_id
            &&& ended.capability == s.runs[run_id].capability
            &&& ended.state == state
            &&& ended.items == items
        },
        RegistryV::empty().order.len() == 0,
        RegistryV::empty().runs == Map::<Seq<char>, RecordV>::empty(),
        RegistryV::empty().busy == Map::<Capability, Seq<char>>::empty(),
{
    assert(s.finish(cap, run_id, state, items).runs.dom() =~= s.runs.dom());
}

/// A guard reports its own run under its own capability, once; going away
/// unreported is a report of an aborted run without items.
pub proof fn law_a_guard_reports_its_run(
    runs: RegistryV,
    cap: Capability,
    run_id: Seq<char>,
    state: Seq<char>,
    items: Seq<ItemV>,
)
    ensures
        (GuardV { cap, run_id, done: false }).report(runs, state, items) == runs.finish(
            cap,
            run_id,
            state,
            items,
        ),
        (GuardV { cap, run_id, done: false }).release(runs) == runs.finish(
            cap,
            run_id,
            "aborted"@,
            Seq::empty(),
        ),
{
}

/// What a request that triggers a run is answered and changes: a refused one
/// its refusal, one that finds the slot taken a 409 with the run that holds
/// it, and neither changes anything; any other a 202 with its own run, which
/// then holds the slot and works on what was asked for.
pub proof fn law_what_a_trigger_does<T>(
    before: RegistryV,
    after: RegistryV,
    refusal: Option<ReplyV>,
    cap: Capability,
    run_id: Seq<char>,
    input: T,
    r: Triggered<T>,
)
    requires
        trigger_step(before, after, refusal, cap, run_id, input, r),
    ensures
        r.started is Some <==> refusal is None && !before.busy.contains_key(cap),
        refusal matches Some(reply) ==> r.reply@ == reply && after == before,
        refusal is None && before.busy.contains_key(cap) ==> after == before && r.reply@.status
            == 409 && r.reply@.body == obj2(
            "code"@,
            JsonV::Text("ai_busy"@),
            "run_id"@,
            JsonV::Text(before.busy[cap]),
        ),
        r.started matches Some(run) ==> after == before.start(cap, run_id) && after.busy[cap]
            == run_id && r.reply@.status == 202 && r.reply@.body == obj2(
            "run_id"@,
            JsonV::Text(run_id),
            "capability"@,
            JsonV::Text(cap.name()),
        ) && run.guard@ == (GuardV { cap, run_id, done: false }) && run.input == input,
        busy_reply(run_id).status == 409,
        busy_reply(run_id).body == obj2(
            "code"@,
            JsonV::Text("ai_busy"@),
            "run_id"@,
            JsonV::Text(run_id),
        ),
        started_reply(cap, run_id).status == 202,
        started_reply(cap, run_id).body == obj2(
            "run_id"@,
            JsonV::Text(run_id),
            "capability"@,
            JsonV::Text(cap.name()),
        ),
{
}

/// How a run is shown: its id, capability and state, each of its items in
/// order, with the reason where there is one, and its calls.
pub proof fn law_how_a_run_is_shown(
    run_id: Seq<char>,
    capability: JsonV,
    state: Seq<char>,
    items: Seq<ItemV>,
    calls: Seq<JsonV>,
    i: int,
)
    ensures
        run_body(run_id, capability, state, items, calls) matches JsonV::Object(fields)
            && fields.len() == 5 && fields[0] == ("run_id"@, JsonV::Text(run_id)) && fields[1] == (
            "capability"@,
            capability,
        ) && fields[2] == ("state"@, JsonV::Text(state)) && fields[3].0 == "items"@ && (
        fields[3].1 matches JsonV::List(shown) && shown.len() == items.len() && (0 <= i
            < items.len() ==> shown[i] == if items[i].reason is Some {
            obj3(
                "target"@,
                JsonV::Text(items[i].target),
                "result"@,
                JsonV::Text(items[i].result),
                "reason"@,
                JsonV::Text(items[i].reason->0),
            )
        } else {
            obj2(
                "target"@,
                JsonV::Text(items[i].target),
                "result"@,
                JsonV::Text(items[i].result),
            )
        })) && fields[4] == ("calls"@, JsonV::List(calls)),
{
}

/// Items and records are seen by their fields, and a failed read of the calls
/// shows none.
pub proof fn law_runs_are_seen_by_their_fields(
    item: AiRunItem,
    record: AiRunRecord,
    calls: Vec<AiCall>,
)
    ensures
        item.deep_view().target == item.target@,
        item.deep_view().result == item.result@,
        item.reason is None <==> item.deep_view().reason is None,
        item.reason matches Some(why) ==> item.deep_view().reason == Some(why@),
        record.deep_view().run_id == record.run_id@,
        record.deep_view().capability == record.capability@,
        record.deep_view().state == record.state@,
        record.deep_view().items == record.items.deep_view(),
        calls_or_none(Some(calls)) == calls@,
        calls_or_none(None).len() == 0,
{
}

} // verus!
