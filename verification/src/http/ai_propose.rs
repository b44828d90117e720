//! `POST /ai/propose`: what earlier proposals, pending or rejected, keep a new
//! planning run from proposing again.
use super::actor::Actor;
use super::ai_runs::{not_triggered, start_run, trigger_step, AiRunItem, ItemV, Triggered};
use super::route::{parse_error, turned_away, Route};
use super::state::Sin90State;
use super::{error, error_response, Reply, ReplyV};
use crate::ids::{has_id, members, IdSet};
use crate::lists::{lemma_not_picked, lemma_pick_then_change};
use crate::model::{
    Capability, DirectionId, DraftV, NewTask, NewTaskV, OpV, ProposalDraft, ProposalV,
    RejectedOpsRow, RejectedV, Sin90Op, Sin90Proposal, StoreError, StoreErrorV, Task, TaskId,
    TaskV, WeekId,
};
use crate::text::{is_before, join3, join5, same_text, text_lt};
use axum::http::{HeaderMap, HeaderValue};
use vstd::prelude::*;

verus! {

/// What a planning run leaves out.
pub struct ProposeDedup {
    /// Tasks not to carry into the week again.
    pub excluded_carry_task_ids: IdSet,
    /// Whether to leave out the reordering.
    pub skip_reorder: bool,
    /// Directions not to create tasks for.
    pub excluded_create_direction_ids: IdSet,
    /// Whether to leave out creating tasks altogether.
    pub skip_create: bool,
}

#[verifier::ext_equal]
pub struct ProposeDedupV {
    pub excluded_carry_task_ids: Set<Seq<char>>,
    pub skip_reorder: bool,
    pub excluded_create_direction_ids: Set<Seq<char>>,
    pub skip_create: bool,
}

impl View for ProposeDedup {
    type V = ProposeDedupV;

    open spec fn view(&self) -> ProposeDedupV {
        ProposeDedupV {
            excluded_carry_task_ids: self.excluded_carry_task_ids@,
            skip_reorder: self.skip_reorder,
            excluded_create_direction_ids: self.excluded_create_direction_ids@,
            skip_create: self.skip_create,
        }
    }
}

impl ProposeDedupV {
    /// Nothing is left out.
    pub open spec fn none() -> Self {
        ProposeDedupV {
            excluded_carry_task_ids: Set::empty(),
            skip_reorder: false,
            excluded_create_direction_ids: Set::empty(),
            skip_create: false,
        }
    }
}

impl Default for ProposeDedup {
    fn default() -> (r: Self)
        ensures
            r@ == ProposeDedupV::none(),
    {
        ProposeDedup {
            excluded_carry_task_ids: IdSet::new(),
            skip_reorder: false,
            excluded_create_direction_ids: IdSet::new(),
            skip_create: false,
        }
    }
}

/// A non-empty batch that carries tasks into `week` and does nothing else.
pub open spec fn carry_batch(ops: Seq<OpV>, week: Seq<char>) -> bool {
    &&& ops.len() > 0
    &&& forall|i: int|
        0 <= i < ops.len() ==> (#[trigger] ops[i] matches OpV::CarryOverTask { to_week, .. }
            && to_week == week)
}

/// Some operation carries `task`.
pub open spec fn carries(ops: Seq<OpV>, task: Seq<char>) -> bool {
    exists|i: int|
        0 <= i < ops.len() && (#[trigger] ops[i] matches OpV::CarryOverTask { task_id, .. }
            && task_id == task)
}

/// The order a lone reordering of `week` asks for.
pub open spec fn reorder_of(ops: Seq<OpV>, week: Seq<char>) -> Option<Seq<Seq<char>>> {
    if ops.len() == 1 {
        match ops[0] {
            OpV::ReorderTasks { week_id, order } => if week_id == week {
                Some(order)
            } else {
                None
            },
            _ => None,
        }
    } else {
        None
    }
}

/// The tasks a lone creation in `week` asks for.
pub open spec fn create_of(ops: Seq<OpV>, week: Seq<char>) -> Option<Seq<NewTaskV>> {
    if ops.len() == 1 {
        match ops[0] {
            OpV::CreateTasks { week_id, tasks } => if week_id == week {
                Some(tasks)
            } else {
                None
            },
            _ => None,
        }
    } else {
        None
    }
}

/// Some of the tasks belongs to `direction`.
pub open spec fn creates_for(tasks: Seq<NewTaskV>, direction: Seq<char>) -> bool {
    exists|i: int| 0 <= i < tasks.len() && #[trigger] tasks[i].direction_id == Some(direction)
}

fn is_carry_batch(ops: &Vec<Sin90Op>, week: &str) -> (r: bool)
    ensures
        r == carry_batch(ops.deep_view(), week@),
{
    if ops.len() == 0 {
        return false;
    }
    let mut i: usize = 0;
    let ghost all = ops.deep_view();
    while i < ops.len()
        invariant
            all == ops.deep_view(),
            i <= all.len(),
            forall|j: int|
                0 <= j < i ==> (#[trigger] all[j] matches OpV::CarryOverTask { to_week, .. }
                    && to_week == week@),
        decreases all.len() - i,
    {
        let ok = match &ops[i] {
            Sin90Op::CarryOverTask { to_week, .. } => same_text(to_week.as_str(), week),
            _ => false,
        };
        if !ok {
            assert(!(all[i as int] matches OpV::CarryOverTask { to_week, .. } && to_week == week@));
            return false;
        }
        i = i + 1;
    }
    true
}

fn carried_ids(ops: &Vec<Sin90Op>) -> (r: Vec<TaskId>)
    ensures
        forall|t: Seq<char>| #[trigger]
            members(r.deep_view()).contains(t) == carries(ops.deep_view(), t),
{
    let mut out: Vec<TaskId> = Vec::new();
    let mut i: usize = 0;
    let ghost all = ops.deep_view();
    while i < ops.len()
        invariant
            all == ops.deep_view(),
            i <= all.len(),
            forall|t: Seq<char>| #[trigger]
                out.deep_view().contains(t) == carries(all.take(i as int), t),
        decreases all.len() - i,
    {
        let ghost before = out.deep_view();
        let ghost head = all.take(i as int);
        assert(all.take(i + 1) =~= head.push(all[i as int]));
        match &ops[i] {
            Sin90Op::CarryOverTask { task_id, .. } => {
                out.push(task_id.clone());
                assert(out.deep_view() =~= before.push(task_id@));
            },
            _ => {},
        }
        assert forall|t: Seq<char>| #[trigger]
            out.deep_view().contains(t) == carries(all.take(i + 1), t) by {
            lemma_carries_push(head, all[i as int], t);
            if all[i as int] is CarryOverTask {
                let id = all[i as int]->CarryOverTask_task_id;
                if before.contains(t) {
                    let k = choose|k: int| 0 <= k < before.len() && before[k] == t;
                    assert(before.push(id)[k] == t);
                }
                assert(before.push(id)[before.len() as int] == id);
            }
        }
        i = i + 1;
    }
    assert(all.take(i as int) =~= all);
    out
}

proof fn lemma_carries_push(ops: Seq<OpV>, op: OpV, t: Seq<char>)
    ensures
        carries(ops.push(op), t) == (carries(ops, t) || (op matches OpV::CarryOverTask {
            task_id,
            ..
        } && task_id == t)),
{
    if carries(ops, t) {
        let k = choose|k: int|
            0 <= k < ops.len() && (#[trigger] ops[k] matches OpV::CarryOverTask { task_id, .. }
                && task_id == t);
        assert(ops.push(op)[k] == ops[k]);
    }
    if carries(ops.push(op), t) {
        let k = choose|k: int|
            0 <= k < ops.push(op).len() && (#[trigger] ops.push(op)[k] matches OpV::CarryOverTask {
                task_id,
                ..
            } && task_id == t);
        if k < ops.len() {
            assert(ops[k] == ops.push(op)[k]);
        }
    }
    assert(ops.push(op)[ops.len() as int] == op);
}

fn reorder_order<'a>(ops: &'a Vec<Sin90Op>, week: &str) -> (r: Option<&'a Vec<TaskId>>)
    ensures
        match r {
            Some(order) => reorder_of(ops.deep_view(), week@) == Some(order.deep_view()),
            None => reorder_of(ops.deep_view(), week@) is None,
        },
{
    if ops.len() != 1 {
        return None;
    }
    assert(ops.deep_view()[0] == ops@[0].deep_view());
    match &ops[0] {
        Sin90Op::ReorderTasks { week_id, order } => if same_text(week_id.as_str(), week) {
            Some(order)
        } else {
            None
        },
        _ => None,
    }
}

fn created_tasks<'a>(ops: &'a Vec<Sin90Op>, week: &str) -> (r: Option<&'a Vec<NewTask>>)
    ensures
        match r {
            Some(tasks) => create_of(ops.deep_view(), week@) == Some(tasks.deep_view()),
            None => create_of(ops.deep_view(), week@) is None,
        },
{
    if ops.len() != 1 {
        return None;
    }
    assert(ops.deep_view()[0] == ops@[0].deep_view());
    match &ops[0] {
        Sin90Op::CreateTasks { week_id, tasks } => if same_text(week_id.as_str(), week) {
            Some(tasks)
        } else {
            None
        },
        _ => None,
    }
}

/// Adds to `set` the directions of `tasks` that are among `gaps`.
fn add_gap_directions(set: &mut IdSet, tasks: &Vec<NewTask>, gaps: &IdSet)
    ensures
        forall|d: Seq<char>| #[trigger]
            final(set)@.contains(d) == (old(set)@.contains(d) || (gaps@.contains(d) && creates_for(
                tasks.deep_view(),
                d,
            ))),
{
    let mut i: usize = 0;
    let ghost all = tasks.deep_view();
    while i < tasks.len()
        invariant
            all == tasks.deep_view(),
            i <= all.len(),
            forall|d: Seq<char>| #[trigger]
                set@.contains(d) == (old(set)@.contains(d) || (gaps@.contains(d) && creates_for(
                    all.take(i as int),
                    d,
                ))),
        decreases all.len() - i,
    {
        let ghost before = set@;
        match &tasks[i].direction_id {
            Some(d) => {
                if gaps.contains(d.as_str()) {
                    set.insert(d.as_str());
                }
            },
            None => {},
        }
        assert forall|d: Seq<char>| #[trigger]
            set@.contains(d) == (old(set)@.contains(d) || (gaps@.contains(d) && creates_for(
                all.take(i + 1),
                d,
            ))) by {
            assert(before.contains(d) == (old(set)@.contains(d) || (gaps@.contains(d)
                && creates_for(all.take(i as int), d))));
            assert(all.take(i + 1) =~= all.take(i as int).push(all[i as int]));
            lemma_creates_push(all.take(i as int), all[i as int], d);
        }
        i = i + 1;
    }
    assert(all.take(i as int) =~= all);
}

proof fn lemma_creates_push(tasks: Seq<NewTaskV>, task: NewTaskV, d: Seq<char>)
    ensures
        creates_for(tasks.push(task), d) == (creates_for(tasks, d) || task.direction_id == Some(d)),
{
    if creates_for(tasks, d) {
        let k = choose|k: int| 0 <= k < tasks.len() && #[trigger] tasks[k].direction_id == Some(d);
        assert(tasks.push(task)[k] == tasks[k]);
    }
    if creates_for(tasks.push(task), d) {
        let k = choose|k: int|
            0 <= k < tasks.push(task).len() && #[trigger] tasks.push(task)[k].direction_id == Some(
                d,
            );
        if k < tasks.len() {
            assert(tasks[k] == tasks.push(task)[k]);
        }
    }
    assert(tasks.push(task)[tasks.len() as int] == task);
}

/// The draft of a proposal of the kind `carry_drafts` collects.
pub open spec fn carry_draft(week: Seq<char>, produced: Seq<Seq<char>>) -> spec_fn(
    ProposalV,
) -> Option<DraftV> {
    |p: ProposalV|
        if produced.contains(p.id) && carry_batch(p.ops, week) {
            Some(p.draft())
        } else {
            None
        }
}

/// The pending carry batches into `week` that planning runs produced.
pub open spec fn carry_drafts(
    week: Seq<char>,
    produced: Seq<Seq<char>>,
    pending: Seq<ProposalV>,
) -> Seq<DraftV> {
    pending.filter_map(carry_draft(week, produced))
}

/// The draft of a proposal of the kind `reorder_drafts` collects.
pub open spec fn reorder_draft(week: Seq<char>, produced: Seq<Seq<char>>) -> spec_fn(
    ProposalV,
) -> Option<DraftV> {
    |p: ProposalV|
        if produced.contains(p.id) && reorder_of(p.ops, week) is Some {
            Some(p.draft())
        } else {
            None
        }
}

/// The pending reorderings of `week` that planning runs produced.
pub open spec fn reorder_drafts(
    week: Seq<char>,
    produced: Seq<Seq<char>>,
    pending: Seq<ProposalV>,
) -> Seq<DraftV> {
    pending.filter_map(reorder_draft(week, produced))
}

/// The draft of a proposal of the kind `create_drafts` collects.
pub open spec fn create_draft(week: Seq<char>, produced: Seq<Seq<char>>) -> spec_fn(
    ProposalV,
) -> Option<DraftV> {
    |p: ProposalV|
        if produced.contains(p.id) && create_of(p.ops, week) is Some {
            Some(p.draft())
        } else {
            None
        }
}

/// The pending creations in `week` that planning runs produced.
pub open spec fn create_drafts(
    week: Seq<char>,
    produced: Seq<Seq<char>>,
    pending: Seq<ProposalV>,
) -> Seq<DraftV> {
    pending.filter_map(create_draft(week, produced))
}

/// Everything pending that is checked again, in one batch.
pub open spec fn propose_batch(
    week: Seq<char>,
    produced: Seq<Seq<char>>,
    pending: Seq<ProposalV>,
) -> Seq<DraftV> {
    carry_drafts(week, produced, pending) + reorder_drafts(week, produced, pending)
        + create_drafts(week, produced, pending)
}

/// A rejection nothing has overtaken: it proposed something, and no eligible
/// direction was created after it was proposed.
pub open spec fn unchanged(row: RejectedV, max_new_direction: Option<Seq<char>>) -> bool {
    row.ops.len() > 0 && match max_new_direction {
        Some(created_at) => !text_lt(row.proposed_at, created_at),
        None => true,
    }
}

/// The facts a planning run's deduplication is decided on.
#[verifier::ext_equal]
pub struct SituationV {
    /// The week to plan.
    pub week: Seq<char>,
    /// Every task of the week.
    pub tasks: Seq<TaskV>,
    /// The proposals planning runs produced.
    pub produced: Seq<Seq<char>>,
    /// The pending proposals.
    pub pending: Seq<ProposalV>,
    /// Which drafts of the batch still apply, in batch order.
    pub valid: Seq<bool>,
    /// The under-served directions, as read for the pending half.
    pub gaps: Seq<Seq<char>>,
    /// The rejected planning proposals.
    pub rejected: Seq<RejectedV>,
    /// When the newest eligible direction was created.
    pub max_new_direction: Option<Seq<char>>,
    /// The order a reordering would ask for now.
    pub reflex_order: Seq<Seq<char>>,
    /// The under-served directions, as read for the rejected half.
    pub gaps_again: Seq<Seq<char>>,
}

impl SituationV {
    /// The pending carry batches into the week.
    pub open spec fn carry_drafts(self) -> Seq<DraftV> {
        carry_drafts(self.week, self.produced, self.pending)
    }

    /// The pending reorderings of the week.
    pub open spec fn reorder_drafts(self) -> Seq<DraftV> {
        reorder_drafts(self.week, self.produced, self.pending)
    }

    /// The pending creations in the week.
    pub open spec fn create_drafts(self) -> Seq<DraftV> {
        create_drafts(self.week, self.produced, self.pending)
    }

    /// Draft `k` of the batch still applies. A missing answer is a no.
    pub open spec fn still_valid(self, k: int) -> bool {
        0 <= k < self.valid.len() && self.valid[k]
    }

    /// Task `i` of the week is `task`, and work still follows it.
    pub open spec fn open_task(self, i: int, task: Seq<char>) -> bool {
        0 <= i < self.tasks.len() && self.tasks[i].id == task && !self.tasks[i].terminal
    }

    /// The tasks of the week that work still follows.
    pub open spec fn open_ids(self) -> Set<Seq<char>> {
        Set::new(|t: Seq<char>| exists|i: int| self.open_task(i, t))
    }

    /// Rejection `k` still stands.
    pub open spec fn stands(self, k: int) -> bool {
        0 <= k < self.rejected.len() && unchanged(self.rejected[k], self.max_new_direction)
    }

    /// Pending carry batch `k` still applies and carries `task`.
    pub open spec fn pending_carry(self, k: int, task: Seq<char>) -> bool {
        &&& 0 <= k < self.carry_drafts().len()
        &&& self.still_valid(k)
        &&& carries(self.carry_drafts()[k].ops, task)
    }

    /// Rejection `k` stands and was a carry batch with `task`.
    pub open spec fn rejected_carry(self, k: int, task: Seq<char>) -> bool {
        &&& self.stands(k)
        &&& carry_batch(self.rejected[k].ops, self.week)
        &&& carries(self.rejected[k].ops, task)
    }

    /// Pending reordering `k` still applies and orders exactly the open tasks.
    pub open spec fn pending_reorder(self, k: int) -> bool {
        &&& 0 <= k < self.reorder_drafts().len()
        &&& self.still_valid(self.carry_drafts().len() + k)
        &&& reorder_of(self.reorder_drafts()[k].ops, self.week) matches Some(order) && members(
            order,
        ) =~= self.open_ids()
    }

    /// Rejection `k` stands and asked for the order that would be asked for now.
    pub open spec fn rejected_reorder(self, k: int) -> bool {
        &&& self.stands(k)
        &&& reorder_of(self.rejected[k].ops, self.week) matches Some(order) && order
            =~= self.reflex_order
    }

    /// Pending creation `k` still applies and has a task for `direction`.
    pub open spec fn pending_create(self, k: int, direction: Seq<char>) -> bool {
        &&& 0 <= k < self.create_drafts().len()
        &&& self.still_valid(self.carry_drafts().len() + self.reorder_drafts().len() + k)
        &&& create_of(self.create_drafts()[k].ops, self.week) matches Some(tasks) && creates_for(
            tasks,
            direction,
        )
    }

    /// Rejection `k` stands and was a creation in the week.
    pub open spec fn rejected_creation(self, k: int) -> bool {
        self.stands(k) && create_of(self.rejected[k].ops, self.week) is Some
    }

    /// Rejection `k` stands and had a task for `direction`.
    pub open spec fn rejected_create(self, k: int, direction: Seq<char>) -> bool {
        self.rejected_creation(k) && creates_for(
            create_of(self.rejected[k].ops, self.week)->0,
            direction,
        )
    }

    pub open spec fn excluded_carry(self) -> Set<Seq<char>> {
        Set::new(
            |t: Seq<char>|
                (exists|k: int| self.pending_carry(k, t)) || (exists|k: int|
                    self.rejected_carry(k, t)),
        )
    }

    pub open spec fn skip_reorder(self) -> bool {
        (exists|k: int| self.pending_reorder(k)) || (exists|k: int| self.rejected_reorder(k))
    }

    pub open spec fn excluded_create(self) -> Set<Seq<char>> {
        Set::new(
            |d: Seq<char>|
                (self.gaps.contains(d) && exists|k: int| self.pending_create(k, d)) || (
                self.gaps_again.contains(d) && exists|k: int| self.rejected_create(k, d)),
        )
    }

    /// Creating tasks is left out when every under-served direction is excluded.
    pub open spec fn skip_create(self) -> bool {
        let gaps = if exists|k: int| self.rejected_creation(k) {
            self.gaps_again
        } else if self.create_drafts().len() > 0 {
            self.gaps
        } else {
            Seq::empty()
        };
        gaps.len() > 0 && members(gaps).subset_of(self.excluded_create())
    }

    /// What a planning run leaves out in this situation.
    pub open spec fn dedup(self) -> ProposeDedupV {
        ProposeDedupV {
            excluded_carry_task_ids: self.excluded_carry(),
            skip_reorder: self.skip_reorder(),
            excluded_create_direction_ids: self.excluded_create(),
            skip_create: self.skip_create(),
        }
    }
}

/// The pending proposals a planning run produced for the week, by kind.
struct PendingDrafts {
    carry: Vec<ProposalDraft>,
    reorder: Vec<ProposalDraft>,
    create: Vec<ProposalDraft>,
}

fn pending_drafts(
    week: &str,
    produced: &Vec<String>,
    pending: &Vec<Sin90Proposal>,
) -> (r: PendingDrafts)
    ensures
        r.carry.deep_view() == carry_drafts(week@, produced.deep_view(), pending.deep_view()),
        r.reorder.deep_view() == reorder_drafts(week@, produced.deep_view(), pending.deep_view()),
        r.create.deep_view() == create_drafts(week@, produced.deep_view(), pending.deep_view()),
{
    let ghost is_carry = carry_draft(week@, produced.deep_view());
    let ghost is_reorder = reorder_draft(week@, produced.deep_view());
    let ghost is_create = create_draft(week@, produced.deep_view());
    let mut carry: Vec<ProposalDraft> = Vec::new();
    let mut reorder: Vec<ProposalDraft> = Vec::new();
    let mut create: Vec<ProposalDraft> = Vec::new();
    let mut i: usize = 0;
    let ghost all = pending.deep_view();
    proof {
        assert(all.take(0) =~= Seq::empty());
        reveal(Seq::filter_map);
        assert(carry.deep_view() =~= all.take(0).filter_map(is_carry));
        assert(reorder.deep_view() =~= all.take(0).filter_map(is_reorder));
        assert(create.deep_view() =~= all.take(0).filter_map(is_create));
    }
    while i < pending.len()
        invariant
            all == pending.deep_view(),
            i <= all.len(),
            is_carry == carry_draft(week@, produced.deep_view()),
            is_reorder == reorder_draft(week@, produced.deep_view()),
            is_create == create_draft(week@, produced.deep_view()),
            carry.deep_view() == all.take(i as int).filter_map(is_carry),
            reorder.deep_view() == all.take(i as int).filter_map(is_reorder),
            create.deep_view() == all.take(i as int).filter_map(is_create),
        decreases all.len() - i,
    {
        let p = &pending[i];
        let ghost before = (carry.deep_view(), reorder.deep_view(), create.deep_view());
        proof {
            assert(all[i as int] == p.deep_view());
            all.lemma_filter_map_take_succ(is_carry, i as int);
            all.lemma_filter_map_take_succ(is_reorder, i as int);
            all.lemma_filter_map_take_succ(is_create, i as int);
        }
        if has_id(produced, p.id.as_str()) {
            if is_carry_batch(&p.ops, week) {
                carry.push(p.to_draft());
                assert(carry.deep_view() =~= before.0.push(p.deep_view().draft()));
                assert(p.deep_view().ops[0] is CarryOverTask);
            } else if reorder_order(&p.ops, week).is_some() {
                reorder.push(p.to_draft());
                assert(reorder.deep_view() =~= before.1.push(p.deep_view().draft()));
            } else if created_tasks(&p.ops, week).is_some() {
                create.push(p.to_draft());
                assert(create.deep_view() =~= before.2.push(p.deep_view().draft()));
            }
        }
        i = i + 1;
    }
    assert(all.take(i as int) =~= all);
    PendingDrafts { carry, reorder, create }
}

/// The drafts to check again before a planning run, in one batch.
pub fn precheck_batch(
    week_id: &str,
    ai_produced_ids: &Vec<String>,
    pending: &Vec<Sin90Proposal>,
) -> (r: Vec<ProposalDraft>)
    ensures
        r.deep_view() == propose_batch(
            week_id@,
            ai_produced_ids.deep_view(),
            pending.deep_view(),
        ),
{
    let mut drafts = pending_drafts(week_id, ai_produced_ids, pending);
    let ghost (a, b, c) = (
        drafts.carry.deep_view(),
        drafts.reorder.deep_view(),
        drafts.create.deep_view(),
    );
    let mut out = drafts.carry;
    out.append(&mut drafts.reorder);
    assert(out.deep_view() =~= a + b);
    out.append(&mut drafts.create);
    assert(out.deep_view() =~= a + b + c);
    out
}

/// What the reads of a planning run's deduplication came back with. A read that
/// was not needed may hold anything.
pub struct ProposeReads {
    /// Every task of the week.
    pub week_tasks: Result<Vec<Task>, String>,
    /// The ids of the proposals planning runs produced.
    pub ai_produced_ids: Result<Vec<String>, StoreError>,
    pub pending: Result<Vec<Sin90Proposal>, StoreError>,
    /// Which drafts of `precheck_batch` still apply.
    pub valid: Vec<bool>,
    /// The under-served directions for the pending half; `None` if the read failed.
    pub gaps: Option<Vec<DirectionId>>,
    pub rejected: Result<Vec<RejectedOpsRow>, StoreError>,
    /// When the newest eligible direction was created.
    pub max_new_direction: Result<Option<String>, String>,
    /// The order a reordering of the open tasks would ask for now.
    pub reflex_order: Vec<TaskId>,
    /// The under-served directions for the rejected half; `None` if the read failed.
    pub gaps_again: Option<Vec<DirectionId>>,
}

/// A list of ids, or nothing when the read failed.
pub open spec fn ids_or_none(ids: Option<Vec<String>>) -> Seq<Seq<char>> {
    match ids {
        Some(v) => v.deep_view(),
        None => Seq::empty(),
    }
}

impl ProposeReads {
    /// The failure that ends the deduplication, if there is one: the first
    /// failed read among those that do not degrade.
    pub open spec fn failure(&self) -> Option<StoreErrorV> {
        if let Err(m) = self.week_tasks {
            Some(StoreErrorV::Internal(m@))
        } else if let Err(e) = self.ai_produced_ids {
            Some(e.deep_view())
        } else if let Err(e) = self.pending {
            Some(e.deep_view())
        } else if let Err(e) = self.rejected {
            Some(e.deep_view())
        } else if self.rejected->Ok_0@.len() > 0 && self.max_new_direction is Err {
            Some(StoreErrorV::Internal(self.max_new_direction->Err_0@))
        } else {
            None
        }
    }

    /// The situation the reads show for `week`.
    pub open spec fn situation(&self, week: Seq<char>) -> SituationV {
        SituationV {
            week,
            tasks: self.week_tasks->Ok_0.deep_view(),
            produced: self.ai_produced_ids->Ok_0.deep_view(),
            pending: self.pending->Ok_0.deep_view(),
            valid: self.valid@,
            gaps: ids_or_none(self.gaps),
            rejected: self.rejected->Ok_0.deep_view(),
            max_new_direction: match self.max_new_direction {
                Ok(m) => m.deep_view(),
                Err(_) => None,
            },
            reflex_order: self.reflex_order.deep_view(),
            gaps_again: ids_or_none(self.gaps_again),
        }
    }
}

fn open_task_ids(tasks: &Vec<Task>, Ghost(s): Ghost<SituationV>) -> (r: IdSet)
    requires
        s.tasks == tasks.deep_view(),
    ensures
        r@ == s.open_ids(),
{
    let mut set = IdSet::new();
    let mut i: usize = 0;
    while i < tasks.len()
        invariant
            s.tasks == tasks.deep_view(),
            i <= tasks@.len(),
            forall|t: Seq<char>| #[trigger]
                set@.contains(t) == exists|j: int| j < i && s.open_task(j, t),
        decreases tasks@.len() - i,
    {
        let ghost before = set@;
        assert(s.tasks[i as int] == tasks@[i as int].deep_view());
        if !tasks[i].terminal {
            set.insert(tasks[i].id.as_str());
        }
        assert forall|t: Seq<char>| #[trigger]
            set@.contains(t) == exists|j: int| j < i + 1 && s.open_task(j, t) by {
            assert(before.contains(t) == exists|j: int| j < i && s.open_task(j, t));
            assert(set@.contains(t) == (before.contains(t) || s.open_task(i as int, t)));
        }
        i = i + 1;
    }
    assert forall|t: Seq<char>| set@.contains(t) == s.open_ids().contains(t) by {
        if exists|j: int| s.open_task(j, t) {
            let j = choose|j: int| s.open_task(j, t);
            assert(j < i && s.open_task(j, t));
        }
    }
    assert(set@ =~= s.open_ids());
    set
}

/// Whether a rejection still stands.
fn rejection_stands(row: &RejectedOpsRow, max_new_direction: &Option<String>) -> (r: bool)
    ensures
        r == unchanged(row.deep_view(), max_new_direction.deep_view()),
{
    if row.ops.len() == 0 {
        return false;
    }
    match max_new_direction {
        Some(created_at) => !is_before(row.proposed_at.as_str(), created_at.as_str()),
        None => true,
    }
}

fn answer(valid: &Vec<bool>, k: usize) -> (r: bool)
    ensures
        r == (k < valid@.len() && valid@[k as int]),
{
    k < valid.len() && valid[k]
}

/// The pending half: adds what the pending drafts that still apply exclude.
fn exclude_pending(
    week: &str,
    drafts: &PendingDrafts,
    valid: &Vec<bool>,
    open: &IdSet,
    gaps: &IdSet,
    Ghost(s): Ghost<SituationV>,
) -> (r: ProposeDedup)
    requires
        s.week == week@,
        drafts.carry.deep_view() == s.carry_drafts(),
        drafts.reorder.deep_view() == s.reorder_drafts(),
        drafts.create.deep_view() == s.create_drafts(),
        s.valid == valid@,
        open@ == s.open_ids(),
        gaps@ == members(s.gaps),
    ensures
        forall|t: Seq<char>| #[trigger]
            r.excluded_carry_task_ids@.contains(t) == exists|k: int| s.pending_carry(k, t),
        r.skip_reorder == exists|k: int| s.pending_reorder(k),
        forall|d: Seq<char>| #[trigger]
            r.excluded_create_direction_ids@.contains(d) == (s.gaps.contains(d) && exists|k: int|
                s.pending_create(k, d)),
        r.skip_create == (s.create_drafts().len() > 0 && s.gaps.len() > 0 && members(
            s.gaps,
        ).subset_of(r.excluded_create_direction_ids@)),
{
    let mut carry = IdSet::new();
    let mut i: usize = 0;
    while i < drafts.carry.len()
        invariant
            drafts.carry.deep_view() == s.carry_drafts(),
            s.valid == valid@,
            i <= drafts.carry@.len(),
            forall|t: Seq<char>| #[trigger]
                carry@.contains(t) == exists|k: int| k < i && s.pending_carry(k, t),
        decreases drafts.carry@.len() - i,
    {
        let ghost before = carry@;
        assert(s.carry_drafts()[i as int] == drafts.carry@[i as int].deep_view());
        if answer(valid, i) {
            let ids = carried_ids(&drafts.carry[i].ops);
            carry.extend(&ids);
            assert forall|t: Seq<char>| carry@.contains(t) == (before.contains(t)
                || s.pending_carry(i as int, t)) by {
                assert(members(ids.deep_view()).contains(t) == carries(
                    s.carry_drafts()[i as int].ops,
                    t,
                ));
            }
        }
        assert forall|t: Seq<char>| #[trigger]
            carry@.contains(t) == exists|k: int| k < i + 1 && s.pending_carry(k, t) by {
            assert(before.contains(t) == exists|k: int| k < i && s.pending_carry(k, t));
            if carry@.contains(t) && !before.contains(t) {
                assert(s.pending_carry(i as int, t));
            }
        }
        i = i + 1;
    }
    assert forall|t: Seq<char>| #[trigger]
        carry@.contains(t) == exists|k: int| s.pending_carry(k, t) by {
        if exists|k: int| s.pending_carry(k, t) {
            let k = choose|k: int| s.pending_carry(k, t);
            assert(k < i && s.pending_carry(k, t));
        }
    }

    let mut skip_reorder = false;
    let mut j: usize = 0;
    while j < drafts.reorder.len()
        invariant
            s.week == week@,
            drafts.carry.deep_view() == s.carry_drafts(),
            drafts.reorder.deep_view() == s.reorder_drafts(),
            s.valid == valid@,
            open@ == s.open_ids(),
            j <= drafts.reorder@.len(),
            skip_reorder == exists|k: int| k < j && s.pending_reorder(k),
        decreases drafts.reorder@.len() - j,
    {
        let ghost before = skip_reorder;
        assert(s.reorder_drafts()[j as int] == drafts.reorder@[j as int].deep_view());
        assert(drafts.carry@.len() == s.carry_drafts().len());
        let ok = j < valid.len() && drafts.carry.len() < valid.len() - j
            && valid[drafts.carry.len() + j];
        if ok {
            match reorder_order(&drafts.reorder[j].ops, week) {
                Some(order) => {
                    let asked = IdSet::from_ids(order);
                    if asked.same_as(open) {
                        skip_reorder = true;
                        assert(s.pending_reorder(j as int));
                    }
                },
                None => {},
            }
        }
        assert(skip_reorder == (before || s.pending_reorder(j as int)));
        j = j + 1;
    }
    proof {
        if exists|k: int| s.pending_reorder(k) {
            let k = choose|k: int| s.pending_reorder(k);
            assert(k < j && s.pending_reorder(k));
        }
    }

    let mut create = IdSet::new();
    let mut n: usize = 0;
    while n < drafts.create.len()
        invariant
            s.week == week@,
            drafts.carry.deep_view() == s.carry_drafts(),
            drafts.reorder.deep_view() == s.reorder_drafts(),
            drafts.create.deep_view() == s.create_drafts(),
            s.valid == valid@,
            gaps@ == members(s.gaps),
            n <= drafts.create@.len(),
            forall|d: Seq<char>| #[trigger]
                create@.contains(d) == (s.gaps.contains(d) && exists|k: int|
                    k < n && s.pending_create(k, d)),
        decreases drafts.create@.len() - n,
    {
        let ghost before = create@;
        assert(s.create_drafts()[n as int] == drafts.create@[n as int].deep_view());
        assert(drafts.carry@.len() == s.carry_drafts().len());
        assert(drafts.reorder@.len() == s.reorder_drafts().len());
        let ok = n < valid.len() && drafts.reorder.len() < valid.len() - n && drafts.carry.len()
            < valid.len() - n - drafts.reorder.len() && valid[drafts.carry.len()
            + drafts.reorder.len() + n];
        if ok {
            match created_tasks(&drafts.create[n].ops, week) {
                Some(tasks) => {
                    add_gap_directions(&mut create, tasks, gaps);
                },
                None => {},
            }
        }
        assert forall|d: Seq<char>| #[trigger]
            create@.contains(d) == (s.gaps.contains(d) && exists|k: int|
                k < n + 1 && s.pending_create(k, d)) by {
            assert(before.contains(d) == (s.gaps.contains(d) && exists|k: int|
                k < n && s.pending_create(k, d)));
            assert(gaps@.contains(d) == s.gaps.contains(d));
            assert(create@.contains(d) == (before.contains(d) || (s.gaps.contains(d)
                && s.pending_create(n as int, d))));
        }
        n = n + 1;
    }
    assert forall|d: Seq<char>| #[trigger]
        create@.contains(d) == (s.gaps.contains(d) && exists|k: int| s.pending_create(k, d)) by {
        if exists|k: int| s.pending_create(k, d) {
            let k = choose|k: int| s.pending_create(k, d);
            assert(k < n && s.pending_create(k, d));
        }
    }

    let skip_create = drafts.create.len() > 0 && !gaps.is_empty() && gaps.is_subset(&create);
    proof {
        lemma_members_empty(s.gaps);
        assert(drafts.create@.len() == s.create_drafts().len());
    }
    ProposeDedup {
        excluded_carry_task_ids: carry,
        skip_reorder,
        excluded_create_direction_ids: create,
        skip_create,
    }
}

proof fn lemma_members_empty(ids: Seq<Seq<char>>)
    ensures
        (members(ids) =~= Set::<Seq<char>>::empty()) == (ids.len() == 0),
{
    if ids.len() > 0 {
        assert(members(ids).contains(ids[0]));
    }
}

/// Whether two lists hold the same ids in the same order.
fn same_ids(a: &Vec<TaskId>, b: &Vec<TaskId>) -> (r: bool)
    ensures
        r == (a.deep_view() =~= b.deep_view()),
{
    if a.len() != b.len() {
        return false;
    }
    let mut i: usize = 0;
    while i < a.len()
        invariant
            i <= a@.len(),
            a@.len() == b@.len(),
            forall|j: int| 0 <= j < i ==> a.deep_view()[j] == b.deep_view()[j],
        decreases a@.len() - i,
    {
        if !same_text(a[i].as_str(), b[i].as_str()) {
            assert(a.deep_view()[i as int] != b.deep_view()[i as int]);
            return false;
        }
        i = i + 1;
    }
    true
}

/// The rejected half: adds what the rejections that still stand exclude.
fn exclude_rejected(
    dedup: ProposeDedup,
    week: &str,
    rejected: &Vec<RejectedOpsRow>,
    max_new_direction: &Option<String>,
    reflex_order: &Vec<TaskId>,
    gaps: &IdSet,
    Ghost(s): Ghost<SituationV>,
) -> (r: ProposeDedup)
    requires
        s.week == week@,
        s.rejected == rejected.deep_view(),
        s.max_new_direction == max_new_direction.deep_view(),
        s.reflex_order == reflex_order.deep_view(),
        gaps@ == members(s.gaps_again),
    ensures
        forall|t: Seq<char>| #[trigger]
            r.excluded_carry_task_ids@.contains(t) == (dedup.excluded_carry_task_ids@.contains(t)
                || exists|k: int| s.rejected_carry(k, t)),
        r.skip_reorder == (dedup.skip_reorder || exists|k: int| s.rejected_reorder(k)),
        forall|d: Seq<char>| #[trigger]
            r.excluded_create_direction_ids@.contains(d) == (
            dedup.excluded_create_direction_ids@.contains(d) || (s.gaps_again.contains(d)
                && exists|k: int| s.rejected_create(k, d))),
        r.skip_create == if exists|k: int| s.rejected_creation(k) {
            s.gaps_again.len() > 0 && members(s.gaps_again).subset_of(
                r.excluded_create_direction_ids@,
            )
        } else {
            dedup.skip_create
        },
{
    let ghost carry0 = dedup.excluded_carry_task_ids@;
    let ghost create0 = dedup.excluded_create_direction_ids@;
    let mut carry = dedup.excluded_carry_task_ids;
    let mut create = dedup.excluded_create_direction_ids;
    let mut skip_reorder = dedup.skip_reorder;
    let mut creation = false;
    let mut i: usize = 0;
    while i < rejected.len()
        invariant
            s.week == week@,
            s.rejected == rejected.deep_view(),
            s.max_new_direction == max_new_direction.deep_view(),
            s.reflex_order == reflex_order.deep_view(),
            gaps@ == members(s.gaps_again),
            i <= rejected@.len(),
            forall|t: Seq<char>| #[trigger]
                carry@.contains(t) == (carry0.contains(t) || exists|k: int|
                    k < i && s.rejected_carry(k, t)),
            skip_reorder == (dedup.skip_reorder || exists|k: int| k < i && s.rejected_reorder(k)),
            forall|d: Seq<char>| #[trigger]
                create@.contains(d) == (create0.contains(d) || (s.gaps_again.contains(d)
                    && exists|k: int| k < i && s.rejected_create(k, d))),
            creation == exists|k: int| k < i && s.rejected_creation(k),
        decreases rejected@.len() - i,
    {
        let row = &rejected[i];
        let ghost n = i as int;
        let ghost (carry1, create1, reorder1, creation1) = (
            carry@,
            create@,
            skip_reorder,
            creation,
        );
        assert(s.rejected[n] == row.deep_view());
        if rejection_stands(row, max_new_direction) {
            assert(s.stands(n));
            if is_carry_batch(&row.ops, week) {
                let ids = carried_ids(&row.ops);
                carry.extend(&ids);
                assert forall|t: Seq<char>| carry@.contains(t) == (carry1.contains(t)
                    || s.rejected_carry(n, t)) by {
                    assert(members(ids.deep_view()).contains(t) == carries(s.rejected[n].ops, t));
                }
            }
            match reorder_order(&row.ops, week) {
                Some(order) => {
                    if same_ids(reflex_order, order) {
                        skip_reorder = true;
                    }
                },
                None => {},
            }
            match created_tasks(&row.ops, week) {
                Some(tasks) => {
                    creation = true;
                    add_gap_directions(&mut create, tasks, gaps);
                },
                None => {},
            }
        }
        assert forall|t: Seq<char>| #[trigger]
            carry@.contains(t) == (carry0.contains(t) || exists|k: int|
                k < n + 1 && s.rejected_carry(k, t)) by {
            assert(carry1.contains(t) == (carry0.contains(t) || exists|k: int|
                k < n && s.rejected_carry(k, t)));
            assert(carry@.contains(t) == (carry1.contains(t) || s.rejected_carry(n, t)));
        }
        assert forall|d: Seq<char>| #[trigger]
            create@.contains(d) == (create0.contains(d) || (s.gaps_again.contains(d)
                && exists|k: int| k < n + 1 && s.rejected_create(k, d))) by {
            assert(create1.contains(d) == (create0.contains(d) || (s.gaps_again.contains(d)
                && exists|k: int| k < n && s.rejected_create(k, d))));
            assert(gaps@.contains(d) == s.gaps_again.contains(d));
            assert(create@.contains(d) == (create1.contains(d) || (s.gaps_again.contains(d)
                && s.rejected_create(n, d))));
        }
        assert(skip_reorder == (reorder1 || s.rejected_reorder(n)));
        assert(creation == (creation1 || s.rejected_creation(n)));
        i = i + 1;
    }
    proof {
        assert forall|t: Seq<char>| #[trigger]
            carry@.contains(t) == (carry0.contains(t) || exists|k: int| s.rejected_carry(k, t)) by {
            if exists|k: int| s.rejected_carry(k, t) {
                let k = choose|k: int| s.rejected_carry(k, t);
                assert(k < i && s.rejected_carry(k, t));
            }
        }
        assert forall|d: Seq<char>| #[trigger]
            create@.contains(d) == (create0.contains(d) || (s.gaps_again.contains(d)
                && exists|k: int| s.rejected_create(k, d))) by {
            if exists|k: int| s.rejected_create(k, d) {
                let k = choose|k: int| s.rejected_create(k, d);
                assert(k < i && s.rejected_create(k, d));
            }
        }
        if exists|k: int| s.rejected_reorder(k) {
            let k = choose|k: int| s.rejected_reorder(k);
            assert(k < i && s.rejected_reorder(k));
        }
        if exists|k: int| s.rejected_creation(k) {
            let k = choose|k: int| s.rejected_creation(k);
            assert(k < i && s.rejected_creation(k));
        }
        lemma_members_empty(s.gaps_again);
    }
    let skip_create = if creation {
        !gaps.is_empty() && gaps.is_subset(&create)
    } else {
        dedup.skip_create
    };
    ProposeDedup {
        excluded_carry_task_ids: carry,
        skip_reorder,
        excluded_create_direction_ids: create,
        skip_create,
    }
}

fn gap_set(gaps: &Option<Vec<DirectionId>>) -> (r: IdSet)
    ensures
        r@ == members(ids_or_none(*gaps)),
{
    match gaps {
        Some(ids) => IdSet::from_ids(ids),
        None => {
            let r = IdSet::new();
            assert(r@ =~= members(Seq::empty()));
            r
        },
    }
}

/// What a planning run of `week_id` leaves out: what pending proposals that
/// still apply already ask for, and what was rejected and would be asked for
/// again unchanged.
pub fn dedup_propose(week_id: &str, reads: ProposeReads) -> (r: Result<ProposeDedup, StoreError>)
    ensures
        match r {
            Ok(dedup) => reads.failure() is None && dedup@ == reads.situation(week_id@).dedup(),
            Err(e) => reads.failure() == Some(e.deep_view()),
        },
{
    let ghost s = reads.situation(week_id@);
    let tasks = match reads.week_tasks {
        Ok(v) => v,
        Err(m) => return Err(StoreError::Internal(m)),
    };
    let produced = match reads.ai_produced_ids {
        Ok(v) => v,
        Err(e) => return Err(e),
    };
    let pending = match reads.pending {
        Ok(v) => v,
        Err(e) => return Err(e),
    };
    let open = open_task_ids(&tasks, Ghost(s));
    let drafts = pending_drafts(week_id, &produced, &pending);
    let gaps = gap_set(&reads.gaps);
    let first = exclude_pending(week_id, &drafts, &reads.valid, &open, &gaps, Ghost(s));
    let rejected = match reads.rejected {
        Ok(v) => v,
        Err(e) => return Err(e),
    };
    assert(rejected@.len() == s.rejected.len());
    if rejected.len() == 0 {
        assert(first@.excluded_carry_task_ids =~= s.excluded_carry());
        assert(first@.excluded_create_direction_ids =~= s.excluded_create());
        return Ok(first);
    }
    let max_new_direction = match reads.max_new_direction {
        Ok(v) => v,
        Err(m) => return Err(StoreError::Internal(m)),
    };
    let gaps_again = gap_set(&reads.gaps_again);
    let out = exclude_rejected(
        first,
        week_id,
        &rejected,
        &max_new_direction,
        &reads.reflex_order,
        &gaps_again,
        Ghost(s),
    );
    assert(out@.excluded_carry_task_ids =~= s.excluded_carry());
    assert(out@.excluded_create_direction_ids =~= s.excluded_create());
    Ok(out)
}

/// Whether the under-served directions have to be read for the pending half:
/// some pending creation is up for checking.
pub fn needs_gaps(
    week_id: &str,
    ai_produced_ids: &Vec<String>,
    pending: &Vec<Sin90Proposal>,
) -> (r: bool)
    ensures
        r == (create_drafts(
            week_id@,
            ai_produced_ids.deep_view(),
            pending.deep_view(),
        ).len() > 0),
{
    let drafts = pending_drafts(week_id, ai_produced_ids, pending);
    assert(drafts.create.deep_view().len() == drafts.create@.len());
    drafts.create.len() > 0
}

/// What the rejected half has to read.
#[derive(Debug, Clone, Copy, PartialEq, Eq, Structural)]
pub struct RejectedNeeds {
    /// The order a reordering would ask for now.
    pub reflex_order: bool,
    /// The under-served directions.
    pub gaps: bool,
}

/// Rejection `k` of `rejected` stands and reorders `week`.
pub open spec fn standing_reorder(
    week: Seq<char>,
    rejected: Seq<RejectedV>,
    max_new_direction: Option<Seq<char>>,
    k: int,
) -> bool {
    &&& 0 <= k < rejected.len()
    &&& unchanged(rejected[k], max_new_direction)
    &&& reorder_of(rejected[k].ops, week) is Some
}

/// Rejection `k` of `rejected` stands and creates tasks in `week`.
pub open spec fn standing_creation(
    week: Seq<char>,
    rejected: Seq<RejectedV>,
    max_new_direction: Option<Seq<char>>,
    k: int,
) -> bool {
    &&& 0 <= k < rejected.len()
    &&& unchanged(rejected[k], max_new_direction)
    &&& create_of(rejected[k].ops, week) is Some
}

/// Which reads the rejections that still stand make necessary.
pub fn rejected_needs(
    week_id: &str,
    rejected: &Vec<RejectedOpsRow>,
    max_new_direction: &Option<String>,
) -> (r: RejectedNeeds)
    ensures
        r.reflex_order == exists|k: int|
            standing_reorder(week_id@, rejected.deep_view(), max_new_direction.deep_view(), k),
        r.gaps == exists|k: int|
            standing_creation(week_id@, rejected.deep_view(), max_new_direction.deep_view(), k),
{
    let mut needs = RejectedNeeds { reflex_order: false, gaps: false };
    let mut i: usize = 0;
    let ghost rows = rejected.deep_view();
    let ghost newest = max_new_direction.deep_view();
    while i < rejected.len()
        invariant
            rows == rejected.deep_view(),
            newest == max_new_direction.deep_view(),
            i <= rejected@.len(),
            needs.reflex_order == exists|k: int|
                k < i && standing_reorder(week_id@, rows, newest, k),
            needs.gaps == exists|k: int| k < i && standing_creation(week_id@, rows, newest, k),
        decreases rejected@.len() - i,
    {
        let row = &rejected[i];
        let ghost n = i as int;
        let ghost before = needs;
        assert(rows[n] == row.deep_view());
        if rejection_stands(row, max_new_direction) {
            if reorder_order(&row.ops, week_id).is_some() {
                needs.reflex_order = true;
            }
            if created_tasks(&row.ops, week_id).is_some() {
                needs.gaps = true;
            }
        }
        assert(needs.reflex_order == (before.reflex_order || standing_reorder(
            week_id@,
            rows,
            newest,
            n,
        )));
        assert(needs.gaps == (before.gaps || standing_creation(week_id@, rows, newest, n)));
        i = i + 1;
    }
    proof {
        if exists|k: int| standing_reorder(week_id@, rows, newest, k) {
            let k = choose|k: int| standing_reorder(week_id@, rows, newest, k);
            assert(k < i && standing_reorder(week_id@, rows, newest, k));
        }
        if exists|k: int| standing_creation(week_id@, rows, newest, k) {
            let k = choose|k: int| standing_creation(week_id@, rows, newest, k);
            assert(k < i && standing_creation(week_id@, rows, newest, k));
        }
    }
    needs
}

/// The tasks of a week that work still follows, in order.
pub fn open_tasks(tasks: &Vec<Task>) -> (r: Vec<Task>)
    ensures
        r.deep_view() == tasks.deep_view().filter(|t: TaskV| !t.terminal),
{
    let ghost all = tasks.deep_view();
    let ghost keep = |t: TaskV| !t.terminal;
    let mut out: Vec<Task> = Vec::new();
    let mut i: usize = 0;
    assert(all.take(0).filter(keep) =~= Seq::<TaskV>::empty()) by {
        reveal(Seq::filter);
    }
    assert(out.deep_view() =~= all.take(0).filter(keep));
    while i < tasks.len()
        invariant
            all == tasks.deep_view(),
            keep == (|t: TaskV| !t.terminal),
            i <= all.len(),
            out.deep_view() == all.take(i as int).filter(keep),
        decreases all.len() - i,
    {
        let ghost before = out.deep_view();
        proof {
            reveal(Seq::filter);
            assert(all.take(i + 1).drop_last() =~= all.take(i as int));
            assert(all.take(i + 1).last() == tasks@[i as int].deep_view());
        }
        if !tasks[i].terminal {
            out.push(tasks[i].clone());
            assert(out.deep_view() =~= before.push(all[i as int]));
        }
        i = i + 1;
    }
    assert(all.take(i as int) =~= all);
    out
}

// ---- triggering ----

/// The body of `POST /ai/propose`.
#[derive(Debug)]
pub struct ProposeReq {
    pub week_id: WeekId,
}

/// Why a week is refused.
#[derive(Debug)]
pub enum ProposeInputError {
    UnknownWeek(WeekId),
    /// The week, and its status as it is shown.
    WeekNotOpen(WeekId, String),
    ReadFailed(String),
}

/// The reply to a week that is refused.
pub open spec fn input_error(e: ProposeInputError) -> ReplyV {
    match e {
        ProposeInputError::UnknownWeek(id) => error(
            404,
            "not_found"@,
            "week "@ + id@ + " does not exist"@,
        ),
        ProposeInputError::WeekNotOpen(id, status) => error(
            409,
            "week_not_open"@,
            "week "@ + id@ + " is not open (status "@ + status@ + ")"@,
        ),
        ProposeInputError::ReadFailed(message) => error(500, "internal"@, message@),
    }
}

/// The reply to a week that is refused.
pub fn propose_input_error(e: ProposeInputError) -> (r: Reply)
    ensures
        r@ == input_error(e),
{
    match e {
        ProposeInputError::UnknownWeek(id) => {
            let message = join3("week ", id.as_str(), " does not exist");
            error_response(404, "not_found", message.as_str())
        },
        ProposeInputError::WeekNotOpen(id, status) => {
            let message = join5(
                "week ",
                id.as_str(),
                " is not open (status ",
                status.as_str(),
                ")",
            );
            error_response(409, "week_not_open", message.as_str())
        },
        ProposeInputError::ReadFailed(message) => error_response(
            500,
            "internal",
            message.as_str(),
        ),
    }
}

/// Why a request is refused before the slot is looked at, if it is: first the
/// caller, then the body, then the week it names.
pub open spec fn propose_refusal(
    sender: Option<Actor>,
    parsed: Result<ProposeReq, String>,
    selected: Result<WeekId, ProposeInputError>,
) -> Option<ReplyV> {
    match turned_away(Route::TriggerPropose, sender) {
        Some(reply) => Some(reply),
        None => match (parsed, selected) {
            (Err(why), _) => Some(parse_error("ai propose request"@, why@)),
            (Ok(_), Err(e)) => Some(input_error(e)),
            (Ok(_), Ok(_)) => None,
        },
    }
}

/// Answers `POST /ai/propose`. `selected` is what selecting the named week gave.
pub fn trigger_propose(
    state: &mut Sin90State,
    headers: &HeaderMap<HeaderValue>,
    parsed: Result<ProposeReq, String>,
    selected: Result<WeekId, ProposeInputError>,
    unique: &str,
) -> (r: Triggered<WeekId>)
    ensures
        final(state).actor_keys == old(state).actor_keys,
        trigger_step(
            old(state).ai_runs@,
            final(state).ai_runs@,
            propose_refusal(old(state).actor_keys.sender(*headers), parsed, selected),
            Capability::Propose,
            "run-"@ + unique@,
            selected->Ok_0,
            r,
        ),
{
    if let Err(reply) = state.receive(Route::TriggerPropose, headers, parsed) {
        return not_triggered(reply);
    }
    match selected {
        Ok(week) => start_run(&mut state.ai_runs, Capability::Propose, unique, week),
        Err(e) => not_triggered(propose_input_error(e)),
    }
}

// ---- running ----

/// What a run leaves out: nothing when the deduplication failed.
pub fn propose_plan(week_id: &str, reads: ProposeReads) -> (r: ProposeDedup)
    ensures
        r@ == if reads.failure() is None {
            reads.situation(week_id@).dedup()
        } else {
            ProposeDedupV::none()
        },
{
    match dedup_propose(week_id, reads) {
        Ok(dedup) => dedup,
        Err(_) => ProposeDedup::default(),
    }
}

/// The three things a planning run proposes.
#[derive(Debug, Clone, Copy, PartialEq, Eq, Structural)]
pub enum ProposeKind {
    Carry,
    Reorder,
    Create,
}

impl ProposeKind {
    /// The name it is shown under.
    pub open spec fn name(self) -> Seq<char> {
        match self {
            ProposeKind::Carry => "propose.carry"@,
            ProposeKind::Reorder => "propose.reorder"@,
            ProposeKind::Create => "propose.create"@,
        }
    }

    /// The name it is shown under.
    pub fn as_str(self) -> (r: &'static str)
        ensures
            r@ == self.name(),
    {
        match self {
            ProposeKind::Carry => "propose.carry",
            ProposeKind::Reorder => "propose.reorder",
            ProposeKind::Create => "propose.create",
        }
    }
}

/// What became of one part of a run.
#[derive(Debug)]
pub enum ProposeItemResult {
    /// A proposal was submitted, under this id.
    Proposed(String),
    Nothing,
    Deferred,
    Rejected,
    Aborted,
    /// Left out, as the deduplication asked.
    Skipped,
}

/// One part of a run, and what became of it.
#[derive(Debug)]
pub struct ProposeItem {
    pub kind: ProposeKind,
    pub result: ProposeItemResult,
}

/// The word a result is shown as.
pub open spec fn result_word(r: ProposeItemResult) -> Seq<char> {
    match r {
        ProposeItemResult::Proposed(_) => "proposed"@,
        ProposeItemResult::Nothing => "nothing"@,
        ProposeItemResult::Deferred => "deferred"@,
        ProposeItemResult::Rejected => "rejected"@,
        ProposeItemResult::Aborted => "aborted"@,
        ProposeItemResult::Skipped => "skipped"@,
    }
}

/// The word a result is shown as.
pub fn item_result_str(r: &ProposeItemResult) -> (word: &'static str)
    ensures
        word@ == result_word(*r),
{
    match r {
        ProposeItemResult::Proposed(_) => "proposed",
        ProposeItemResult::Nothing => "nothing",
        ProposeItemResult::Deferred => "deferred",
        ProposeItemResult::Rejected => "rejected",
        ProposeItemResult::Aborted => "aborted",
        ProposeItemResult::Skipped => "skipped",
    }
}

/// A part of a run as it is shown: a skipped one gives the reason.
pub open spec fn outcome_item(o: ProposeItem) -> ItemV {
    ItemV {
        target: o.kind.name(),
        result: result_word(o.result),
        reason: if o.result is Skipped {
            Some("dedup"@)
        } else {
            None
        },
    }
}

/// What is shown of a run.
pub fn to_items(outcomes: Vec<ProposeItem>) -> (r: Vec<AiRunItem>)
    ensures
        r.deep_view() == outcomes@.map_values(|o: ProposeItem| outcome_item(o)),
{
    let ghost all = outcomes@;
    let mut items: Vec<AiRunItem> = Vec::new();
    for o in it: outcomes
        invariant
            it.seq() == all,
            items@.len() == it.index(),
            forall|j: int|
                0 <= j < items@.len() ==> (#[trigger] items@[j]).deep_view() == outcome_item(all[j]),
    {
        let result = item_result_str(&o.result).to_owned();
        let reason: Option<&'static str> = match o.result {
            ProposeItemResult::Skipped => Some("dedup"),
            _ => None,
        };
        items.push(AiRunItem { target: o.kind.as_str().to_owned(), result, reason });
    }
    assert(items.deep_view() =~= all.map_values(|o: ProposeItem| outcome_item(o)));
    items
}

/// Some part was aborted.
pub open spec fn any_aborted(outcomes: Seq<ProposeItem>) -> bool {
    exists|i: int| 0 <= i < outcomes.len() && (#[trigger] outcomes[i]).result is Aborted
}

fn has_aborted(outcomes: &Vec<ProposeItem>) -> (r: bool)
    ensures
        r == any_aborted(outcomes@),
{
    let mut i: usize = 0;
    while i < outcomes.len()
        invariant
            i <= outcomes@.len(),
            forall|j: int| 0 <= j < i ==> !((#[trigger] outcomes@[j]).result is Aborted),
        decreases outcomes@.len() - i,
    {
        if let ProposeItemResult::Aborted = &outcomes[i].result {
            assert(outcomes@[i as int].result is Aborted);
            return true;
        }
        i = i + 1;
    }
    false
}

/// How a run ends. `outcomes` is `None` when the run took longer than it may:
/// it then ends as aborted, and nothing is shown.
pub fn propose_end(outcomes: Option<Vec<ProposeItem>>) -> (r: (&'static str, Vec<AiRunItem>))
    ensures
        match outcomes {
            Some(o) => {
                &&& r.0@ == if any_aborted(o@) {
                    "aborted"@
                } else {
                    "done"@
                }
                &&& r.1.deep_view() == o@.map_values(|i: ProposeItem| outcome_item(i))
            },
            None => r.0@ == "aborted"@ && r.1@.len() == 0,
        },
        r.0@ == "aborted"@ || r.0@ == "done"@,
        r.0@ == "done"@ <==> (outcomes matches Some(o) && forall|k: int|
            0 <= k < o@.len() ==> !((#[trigger] o@[k]).result is Aborted)),
        outcomes matches Some(o) ==> r.1@.len() == o@.len(),
{
    proof {
        reveal_strlit("aborted");
        reveal_strlit("done");
        assert("aborted"@.len() != "done"@.len());
    }
    match outcomes {
        Some(outcomes) => {
            let word: &'static str = if has_aborted(&outcomes) {
                "aborted"
            } else {
                "done"
            };
            (word, to_items(outcomes))
        },
        None => ("aborted", Vec::new()),
    }
}

// ---- laws ----

/// With nothing pending and nothing rejected, nothing is left out.
pub proof fn law_a_clean_slate_leaves_nothing_out(s: SituationV)
    requires
        s.pending.len() == 0,
        s.rejected.len() == 0,
    ensures
        s.dedup() == ProposeDedupV::none(),
{
    assert(s.carry_drafts().len() == 0);
    assert(s.reorder_drafts().len() == 0);
    assert(s.create_drafts().len() == 0);
    assert(s.dedup().excluded_carry_task_ids =~= Set::empty());
    assert(s.dedup().excluded_create_direction_ids =~= Set::empty());
}

/// A pending proposal counts only if a planning run produced it and it is a
/// carry batch, a reordering or a creation for this week: any other leaves
/// the decision as it was.
pub proof fn law_other_proposals_do_not_count(s: SituationV, p: ProposalV)
    requires
        !s.produced.contains(p.id) || !(carry_batch(p.ops, s.week) || reorder_of(p.ops, s.week)
            is Some || create_of(p.ops, s.week) is Some),
    ensures
        (SituationV { pending: s.pending.push(p), ..s }).dedup() == s.dedup(),
{
    let t = SituationV { pending: s.pending.push(p), ..s };
    lemma_not_picked(s.pending, carry_draft(s.week, s.produced), p);
    lemma_not_picked(s.pending, reorder_draft(s.week, s.produced), p);
    lemma_not_picked(s.pending, create_draft(s.week, s.produced), p);
    lemma_same_dedup(s, t);
}

/// The decision depends on the pending proposals only through the drafts.
proof fn lemma_same_dedup(s: SituationV, t: SituationV)
    requires
        t == (SituationV { pending: t.pending, ..s }),
        s.carry_drafts() == t.carry_drafts(),
        s.reorder_drafts() == t.reorder_drafts(),
        s.create_drafts() == t.create_drafts(),
    ensures
        s.dedup() == t.dedup(),
{
    assert forall|k: int, id: Seq<char>| s.pending_carry(k, id) == t.pending_carry(k, id) by {}
    assert forall|k: int, id: Seq<char>| s.pending_create(k, id) == t.pending_create(k, id) by {}
    assert forall|k: int, id: Seq<char>| s.rejected_carry(k, id) == t.rejected_carry(k, id) by {}
    assert forall|k: int, id: Seq<char>| s.rejected_create(k, id) == t.rejected_create(k, id) by {}
    assert forall|k: int| s.rejected_creation(k) == t.rejected_creation(k) by {}
    assert forall|k: int| s.rejected_reorder(k) == t.rejected_reorder(k) by {}
    assert(s.open_ids() =~= t.open_ids()) by {
        assert forall|i: int, id: Seq<char>| s.open_task(i, id) == t.open_task(i, id) by {}
    }
    assert forall|k: int| s.pending_reorder(k) == t.pending_reorder(k) by {}
    assert(s.excluded_carry() =~= t.excluded_carry());
    assert(s.excluded_create() =~= t.excluded_create());
}

/// Pending proposals none of which still applies block nothing: the decision
/// is the one without them.
pub proof fn law_stale_proposals_do_not_count(s: SituationV)
    requires
        forall|k: int| !s.still_valid(k),
    ensures
        s.dedup() == (SituationV { pending: Seq::empty(), ..s }).dedup(),
{
    let t = SituationV { pending: Seq::empty(), ..s };
    assert(t.carry_drafts().len() == 0);
    assert(t.reorder_drafts().len() == 0);
    assert(t.create_drafts().len() == 0);
    assert forall|k: int, id: Seq<char>| !s.pending_carry(k, id) && !t.pending_carry(k, id) by {}
    assert forall|k: int, id: Seq<char>| !s.pending_create(k, id) && !t.pending_create(k, id) by {}
    assert forall|k: int| !s.pending_reorder(k) && !t.pending_reorder(k) by {}
    assert forall|k: int, id: Seq<char>| s.rejected_carry(k, id) == t.rejected_carry(k, id) by {}
    assert forall|k: int, id: Seq<char>| s.rejected_create(k, id) == t.rejected_create(k, id) by {}
    assert forall|k: int| s.rejected_creation(k) == t.rejected_creation(k) by {}
    assert forall|k: int| s.rejected_reorder(k) == t.rejected_reorder(k) by {}
    assert(s.excluded_carry() =~= t.excluded_carry());
    assert(s.excluded_create() =~= t.excluded_create());
    if !(exists|k: int| s.rejected_creation(k)) && s.gaps.len() > 0 {
        assert(members(s.gaps).contains(s.gaps[0]));
        assert(!s.excluded_create().contains(s.gaps[0])) by {
            assert forall|k: int| !s.rejected_create(k, s.gaps[0]) by {
                assert(!s.rejected_creation(k));
            }
        }
    }
}

/// An eligible direction created after every rejected proposal lifts all the
/// rejections: the decision is the one without them.
pub proof fn law_a_new_direction_lifts_every_rejection(s: SituationV, created_at: Seq<char>)
    requires
        s.max_new_direction == Some(created_at),
        forall|k: int|
            0 <= k < s.rejected.len() ==> text_lt(
                (#[trigger] s.rejected[k]).proposed_at,
                created_at,
            ),
    ensures
        s.dedup() == (SituationV { rejected: Seq::empty(), ..s }).dedup(),
{
    let t = SituationV { rejected: Seq::empty(), ..s };
    assert forall|k: int| !s.stands(k) && !t.stands(k) by {
        if 0 <= k < s.rejected.len() {
            assert(text_lt(s.rejected[k].proposed_at, created_at));
        }
    }
    assert forall|k: int, id: Seq<char>| s.pending_carry(k, id) == t.pending_carry(k, id) by {}
    assert forall|k: int, id: Seq<char>| s.pending_create(k, id) == t.pending_create(k, id) by {}
    assert(s.open_ids() =~= t.open_ids()) by {
        assert forall|i: int, id: Seq<char>| s.open_task(i, id) == t.open_task(i, id) by {}
    }
    assert forall|k: int| s.pending_reorder(k) == t.pending_reorder(k) by {}
    assert forall|k: int, id: Seq<char>| !s.rejected_carry(k, id) && !t.rejected_carry(k, id) by {}
    assert forall|k: int, id: Seq<char>|
        !s.rejected_create(k, id) && !t.rejected_create(k, id) by {}
    assert forall|k: int| !s.rejected_creation(k) && !t.rejected_creation(k) by {}
    assert forall|k: int| !s.rejected_reorder(k) && !t.rejected_reorder(k) by {}
    assert(s.excluded_carry() =~= t.excluded_carry());
    assert(s.excluded_create() =~= t.excluded_create());
}

/// While no such direction appears, a rejected batch is not proposed again:
/// none of its tasks is carried, the same order is not asked for, and no task
/// is created for its under-served directions.
pub proof fn law_a_rejection_stands_while_nothing_changes(
    s: SituationV,
    k: int,
    task: Seq<char>,
    direction: Seq<char>,
)
    requires
        s.stands(k),
    ensures
        carry_batch(s.rejected[k].ops, s.week) && carries(s.rejected[k].ops, task)
            ==> s.excluded_carry().contains(task),
        reorder_of(s.rejected[k].ops, s.week) == Some(s.reflex_order) ==> s.skip_reorder(),
        create_of(s.rejected[k].ops, s.week) matches Some(tasks) && creates_for(tasks, direction)
            && s.gaps_again.contains(direction) ==> s.excluded_create().contains(direction),
{
    if carry_batch(s.rejected[k].ops, s.week) && carries(s.rejected[k].ops, task) {
        assert(s.rejected_carry(k, task));
    }
    if reorder_of(s.rejected[k].ops, s.week) == Some(s.reflex_order) {
        assert(s.rejected_reorder(k));
    }
    if create_of(s.rejected[k].ops, s.week) matches Some(tasks) && creates_for(tasks, direction) {
        assert(s.rejected_create(k, direction));
    }
}

/// A pending reordering that leaves out an open task, or orders something
/// else, does not keep a new one from being asked for.
pub proof fn law_a_partial_reordering_does_not_count(s: SituationV, task: Seq<char>)
    requires
        s.open_ids().contains(task),
        forall|k: int|
            0 <= k < s.reorder_drafts().len() ==> !members(
                reorder_of((#[trigger] s.reorder_drafts()[k]).ops, s.week)->0,
            ).contains(task),
        forall|k: int| !s.rejected_reorder(k),
    ensures
        !s.skip_reorder(),
{
    if exists|k: int| s.pending_reorder(k) {
        let k = choose|k: int| s.pending_reorder(k);
        assert(!members(reorder_of(s.reorder_drafts()[k].ops, s.week)->0).contains(task));
    }
}

/// Creation is decided direction by direction: only under-served directions
/// are excluded, and creating tasks is left out altogether only when there is
/// an under-served direction and every one is excluded.
pub proof fn law_creation_is_excluded_per_direction(s: SituationV, direction: Seq<char>)
    ensures
        s.excluded_create().contains(direction) ==> s.gaps.contains(direction)
            || s.gaps_again.contains(direction),
        s.gaps == s.gaps_again && s.gaps.contains(direction) && !s.excluded_create().contains(
            direction,
        ) ==> !s.skip_create(),
        s.skip_create() ==> s.gaps.len() > 0 || s.gaps_again.len() > 0,
{
    if s.gaps == s.gaps_again && s.gaps.contains(direction) {
        assert(members(s.gaps).contains(direction));
    }
}

/// Where no rejection that stands reorders or creates, it does not matter what
/// reading the current order and the under-served directions again would give:
/// the reads that `rejected_needs` asks for are the only ones that count.
pub proof fn law_unneeded_reads_do_not_count(
    s: SituationV,
    reflex_order: Seq<Seq<char>>,
    gaps_again: Seq<Seq<char>>,
)
    requires
        forall|k: int|
            !standing_reorder(s.week, s.rejected, s.max_new_direction, k) && !standing_creation(
                s.week,
                s.rejected,
                s.max_new_direction,
                k,
            ),
    ensures
        (SituationV { reflex_order, gaps_again, ..s }).dedup() == s.dedup(),
{
    let t = SituationV { reflex_order, gaps_again, ..s };
    assert forall|k: int| !s.rejected_creation(k) && !t.rejected_creation(k) by {
        assert(!standing_creation(s.week, s.rejected, s.max_new_direction, k));
    }
    assert forall|k: int| !s.rejected_reorder(k) && !t.rejected_reorder(k) by {
        assert(!standing_reorder(s.week, s.rejected, s.max_new_direction, k));
    }
    assert forall|k: int, id: Seq<char>| s.pending_carry(k, id) == t.pending_carry(k, id) by {}
    assert forall|k: int, id: Seq<char>| s.pending_create(k, id) == t.pending_create(k, id) by {}
    assert forall|k: int, id: Seq<char>| s.rejected_carry(k, id) == t.rejected_carry(k, id) by {}
    assert forall|k: int, id: Seq<char>|
        !s.rejected_create(k, id) && !t.rejected_create(k, id) by {}
    assert(s.open_ids() =~= t.open_ids()) by {
        assert forall|i: int, id: Seq<char>| s.open_task(i, id) == t.open_task(i, id) by {}
    }
    assert forall|k: int| s.pending_reorder(k) == t.pending_reorder(k) by {}
    assert(s.excluded_carry() =~= t.excluded_carry());
    assert(s.excluded_create() =~= t.excluded_create());
}

/// The drafts that are checked again: of the proposals planning runs produced,
/// those whose every operation carries a task into the week, those whose one
/// operation reorders the week, and those whose one operation creates tasks in
/// it. Each kind is in order, as it was proposed, and the batch holds the
/// carries, then the reorderings, then the creations.
pub proof fn law_what_is_checked_again(
    s: SituationV,
    carry: spec_fn(ProposalV) -> bool,
    reorder: spec_fn(ProposalV) -> bool,
    create: spec_fn(ProposalV) -> bool,
)
    requires
        forall|p: ProposalV| #[trigger]
            carry(p) == (s.produced.contains(p.id) && p.ops.len() > 0 && forall|i: int|
                0 <= i < p.ops.len() ==> (#[trigger] p.ops[i] matches OpV::CarryOverTask {
                    to_week,
                    ..
                } && to_week == s.week)),
        forall|p: ProposalV| #[trigger]
            reorder(p) == (s.produced.contains(p.id) && p.ops.len() == 1 && (
            p.ops[0] matches OpV::ReorderTasks { week_id, .. } && week_id == s.week)),
        forall|p: ProposalV| #[trigger]
            create(p) == (s.produced.contains(p.id) && p.ops.len() == 1 && (
            p.ops[0] matches OpV::CreateTasks { week_id, .. } && week_id == s.week)),
    ensures
        ({
            let a = s.pending.filter(carry).map_values(
                |p: ProposalV| DraftV { id: p.id, ops: p.ops, rationale: p.rationale },
            );
            let b = s.pending.filter(reorder).map_values(
                |p: ProposalV| DraftV { id: p.id, ops: p.ops, rationale: p.rationale },
            );
            let c = s.pending.filter(create).map_values(
                |p: ProposalV| DraftV { id: p.id, ops: p.ops, rationale: p.rationale },
            );
            &&& s.carry_drafts() == a
            &&& s.reorder_drafts() == b
            &&& s.create_drafts() == c
            &&& create_drafts(s.week, s.produced, s.pending) == c
            &&& propose_batch(s.week, s.produced, s.pending) == a + b + c
        }),
{
    let change = |p: ProposalV| DraftV { id: p.id, ops: p.ops, rationale: p.rationale };
    let f = carry_draft(s.week, s.produced);
    let g = reorder_draft(s.week, s.produced);
    let h = create_draft(s.week, s.produced);
    assert forall|p: ProposalV| #[trigger]
        f(p) == if carry(p) {
            Some(change(p))
        } else {
            None
        } by {
        assert(carry(p) == (s.produced.contains(p.id) && carry_batch(p.ops, s.week)));
    }
    assert forall|p: ProposalV| #[trigger]
        g(p) == if reorder(p) {
            Some(change(p))
        } else {
            None
        } by {
        assert(reorder(p) == (s.produced.contains(p.id) && reorder_of(p.ops, s.week) is Some));
    }
    assert forall|p: ProposalV| #[trigger]
        h(p) == if create(p) {
            Some(change(p))
        } else {
            None
        } by {
        assert(create(p) == (s.produced.contains(p.id) && create_of(p.ops, s.week) is Some));
    }
    lemma_pick_then_change(s.pending, f, carry, change);
    lemma_pick_then_change(s.pending, g, reorder, change);
    lemma_pick_then_change(s.pending, h, create, change);
}

/// A task is not carried again exactly when a pending carry batch that still
/// applies has an operation that carries it, or a rejected batch has one, every
/// operation of which carries into the planned week, and no eligible direction
/// is newer than that batch.
pub proof fn law_which_tasks_are_not_carried(s: SituationV, task: Seq<char>)
    ensures
        s.dedup().excluded_carry_task_ids.contains(task) <==> (exists|k: int, o: int|
            0 <= k < s.carry_drafts().len() && k < s.valid.len() && s.valid[k] && 0 <= o
                < s.carry_drafts()[k].ops.len() && (
            #[trigger] s.carry_drafts()[k].ops[o] matches OpV::CarryOverTask { task_id, .. }
                && task_id == task)) || (exists|k: int, o: int|
            0 <= k < s.rejected.len() && 0 <= o < s.rejected[k].ops.len() && (
            #[trigger] s.rejected[k].ops[o] matches OpV::CarryOverTask { task_id, .. } && task_id
                == task) && (forall|j: int|
                0 <= j < s.rejected[k].ops.len() ==> (
                #[trigger] s.rejected[k].ops[j] matches OpV::CarryOverTask { to_week, .. }
                    && to_week == s.week)) && !(s.max_new_direction matches Some(newest) && text_lt(
                s.rejected[k].proposed_at,
                newest,
            ))),
{
    if exists|k: int| s.pending_carry(k, task) {
        let k = choose|k: int| s.pending_carry(k, task);
        let ops = s.carry_drafts()[k].ops;
        let o = choose|o: int|
            0 <= o < ops.len() && (#[trigger] ops[o] matches OpV::CarryOverTask { task_id, .. }
                && task_id == task);
        assert(s.carry_drafts()[k].ops[o] is CarryOverTask);
    }
    if exists|k: int| s.rejected_carry(k, task) {
        let k = choose|k: int| s.rejected_carry(k, task);
        let ops = s.rejected[k].ops;
        let o = choose|o: int|
            0 <= o < ops.len() && (#[trigger] ops[o] matches OpV::CarryOverTask { task_id, .. }
                && task_id == task);
        assert(s.rejected[k].ops[o] is CarryOverTask);
    }
    assert forall|k: int, o: int|
        0 <= k < s.carry_drafts().len() && k < s.valid.len() && s.valid[k] && 0 <= o
            < s.carry_drafts()[k].ops.len() && (
        #[trigger] s.carry_drafts()[k].ops[o] matches OpV::CarryOverTask { task_id, .. } && task_id
            == task) implies s.excluded_carry().contains(task) by {
        assert(s.pending_carry(k, task));
    }
    assert forall|k: int, o: int|
        0 <= k < s.rejected.len() && 0 <= o < s.rejected[k].ops.len() && (
        #[trigger] s.rejected[k].ops[o] matches OpV::CarryOverTask { task_id, .. } && task_id
            == task) && (forall|j: int|
            0 <= j < s.rejected[k].ops.len() ==> (
            #[trigger] s.rejected[k].ops[j] matches OpV::CarryOverTask { to_week, .. } && to_week
                == s.week)) && !(s.max_new_direction matches Some(newest) && text_lt(
                s.rejected[k].proposed_at,
                newest,
            )) implies s.excluded_carry().contains(task) by {
        assert(s.rejected_carry(k, task));
    }
}

/// The ids of the order are those of the open tasks.
proof fn lemma_orders_the_open_tasks(s: SituationV, order: Seq<Seq<char>>)
    ensures
        members(order) =~= s.open_ids() <==> (forall|t: Seq<char>| #[trigger]
            order.contains(t) == exists|i: int|
                0 <= i < s.tasks.len() && (#[trigger] s.tasks[i]).id == t && !s.tasks[i].terminal),
{
    assert forall|t: Seq<char>| #[trigger]
        s.open_ids().contains(t) == exists|i: int|
            0 <= i < s.tasks.len() && (#[trigger] s.tasks[i]).id == t && !s.tasks[i].terminal by {
        if s.open_ids().contains(t) {
            let i = choose|i: int| s.open_task(i, t);
            assert(s.tasks[i].id == t);
        }
        if exists|i: int|
            0 <= i < s.tasks.len() && (#[trigger] s.tasks[i]).id == t && !s.tasks[i].terminal {
            let i = choose|i: int|
                0 <= i < s.tasks.len() && (#[trigger] s.tasks[i]).id == t && !s.tasks[i].terminal;
            assert(s.open_task(i, t));
        }
    }
    assert forall|t: Seq<char>| #[trigger] members(order).contains(t) == order.contains(t) by {}
    if members(order) =~= s.open_ids() {
        assert forall|t: Seq<char>| #[trigger]
            order.contains(t) == exists|i: int|
                0 <= i < s.tasks.len() && (#[trigger] s.tasks[i]).id == t
                    && !s.tasks[i].terminal by {
            assert(members(order).contains(t) == s.open_ids().contains(t));
        }
    }
    if forall|t: Seq<char>| #[trigger]
        order.contains(t) == exists|i: int|
            0 <= i < s.tasks.len() && (#[trigger] s.tasks[i]).id == t && !s.tasks[i].terminal {
        assert forall|t: Seq<char>| #[trigger]
            members(order).contains(t) == s.open_ids().contains(t) by {
            assert(order.contains(t) == order.contains(t));
        }
    }
}

/// The reordering is left out exactly when a pending one that still applies
/// orders all the tasks of the week that are open and no others, or a rejected
/// one asked for the very order that would be asked for now and no eligible
/// direction is newer than it. The answers about the reorderings stand behind
/// those about the carries.
pub proof fn law_when_the_reordering_is_left_out(s: SituationV)
    ensures
        s.dedup().skip_reorder <==> (exists|k: int|
            0 <= k < s.reorder_drafts().len() && s.carry_drafts().len() + k < s.valid.len()
                && s.valid[s.carry_drafts().len() + k] && (
            #[trigger] s.reorder_drafts()[k]).ops.len() == 1 && (
            s.reorder_drafts()[k].ops[0] matches OpV::ReorderTasks { week_id, order } && week_id
                == s.week && forall|t: Seq<char>| #[trigger]
                order.contains(t) == exists|i: int|
                    0 <= i < s.tasks.len() && (#[trigger] s.tasks[i]).id == t
                        && !s.tasks[i].terminal)) || (exists|k: int|
            0 <= k < s.rejected.len() && (#[trigger] s.rejected[k]).ops.len() == 1 && (
            s.rejected[k].ops[0] matches OpV::ReorderTasks { week_id, order } && week_id == s.week
                && order == s.reflex_order) && !(s.max_new_direction matches Some(newest) && text_lt(
                s.rejected[k].proposed_at,
                newest,
            ))),
{
    assert forall|order: Seq<Seq<char>>|
        members(order) =~= s.open_ids() <==> (forall|t: Seq<char>| #[trigger]
            order.contains(t) == exists|i: int|
                0 <= i < s.tasks.len() && (#[trigger] s.tasks[i]).id == t
                    && !s.tasks[i].terminal) by {
        lemma_orders_the_open_tasks(s, order);
    }
    if exists|k: int| s.pending_reorder(k) {
        let k = choose|k: int| s.pending_reorder(k);
        assert(s.reorder_drafts()[k].ops.len() == 1);
        lemma_orders_the_open_tasks(s, s.reorder_drafts()[k].ops[0]->ReorderTasks_order);
    }
    if exists|k: int| s.rejected_reorder(k) {
        let k = choose|k: int| s.rejected_reorder(k);
        assert(s.rejected[k].ops.len() == 1);
    }
    assert forall|k: int|
        0 <= k < s.reorder_drafts().len() && s.carry_drafts().len() + k < s.valid.len()
            && s.valid[s.carry_drafts().len() + k] && (#[trigger] s.reorder_drafts()[k]).ops.len()
            == 1 && (s.reorder_drafts()[k].ops[0] matches OpV::ReorderTasks { week_id, order }
            && week_id == s.week && forall|t: Seq<char>| #[trigger]
            order.contains(t) == exists|i: int|
                0 <= i < s.tasks.len() && (#[trigger] s.tasks[i]).id == t
                    && !s.tasks[i].terminal) implies s.skip_reorder() by {
        lemma_orders_the_open_tasks(s, s.reorder_drafts()[k].ops[0]->ReorderTasks_order);
        assert(s.pending_reorder(k));
    }
    assert forall|k: int|
        0 <= k < s.rejected.len() && (#[trigger] s.rejected[k]).ops.len() == 1 && (
        s.rejected[k].ops[0] matches OpV::ReorderTasks { week_id, order } && week_id == s.week
            && order == s.reflex_order) && !(s.max_new_direction matches Some(newest) && text_lt(
                s.rejected[k].proposed_at,
                newest,
            )) implies s.skip_reorder() by {
        assert(s.rejected_reorder(k));
    }
}

/// No task is created for a direction exactly when it is under-served and a
/// pending creation that still applies has a task for it, or it is still
/// under-served and a rejected creation for the week has one that no eligible
/// direction is newer than. The answers about the creations stand behind those
/// about the carries and the reorderings.
pub proof fn law_which_directions_get_no_task(s: SituationV, d: Seq<char>)
    ensures
        s.dedup().excluded_create_direction_ids.contains(d) <==> (s.gaps.contains(d) && exists|
            k: int,
            o: int,
        |
            0 <= k < s.create_drafts().len() && s.carry_drafts().len() + s.reorder_drafts().len()
                + k < s.valid.len() && s.valid[s.carry_drafts().len() + s.reorder_drafts().len()
                + k] && s.create_drafts()[k].ops.len() == 1
                && s.create_drafts()[k].ops[0] is CreateTasks
                && s.create_drafts()[k].ops[0]->CreateTasks_week_id == s.week && 0 <= o
                < s.create_drafts()[k].ops[0]->CreateTasks_tasks.len() && (
            #[trigger] s.create_drafts()[k].ops[0]->CreateTasks_tasks[o]).direction_id == Some(d))
            || (s.gaps_again.contains(d) && exists|k: int, o: int|
            0 <= k < s.rejected.len() && s.rejected[k].ops.len() == 1
                && s.rejected[k].ops[0] is CreateTasks
                && s.rejected[k].ops[0]->CreateTasks_week_id == s.week && 0 <= o
                < s.rejected[k].ops[0]->CreateTasks_tasks.len() && (
            #[trigger] s.rejected[k].ops[0]->CreateTasks_tasks[o]).direction_id == Some(d)
                && !(s.max_new_direction matches Some(newest) && text_lt(
                s.rejected[k].proposed_at,
                newest,
            ))),
{
    if exists|k: int| s.pending_create(k, d) {
        let k = choose|k: int| s.pending_create(k, d);
        let tasks = s.create_drafts()[k].ops[0]->CreateTasks_tasks;
        let o = choose|o: int| 0 <= o < tasks.len() && #[trigger] tasks[o].direction_id == Some(d);
        assert(s.create_drafts()[k].ops[0]->CreateTasks_tasks[o].direction_id == Some(d));
    }
    if exists|k: int| s.rejected_create(k, d) {
        let k = choose|k: int| s.rejected_create(k, d);
        let tasks = s.rejected[k].ops[0]->CreateTasks_tasks;
        let o = choose|o: int| 0 <= o < tasks.len() && #[trigger] tasks[o].direction_id == Some(d);
        assert(s.rejected[k].ops[0]->CreateTasks_tasks[o].direction_id == Some(d));
    }
    assert forall|k: int, o: int|
        0 <= k < s.create_drafts().len() && s.carry_drafts().len() + s.reorder_drafts().len() + k
            < s.valid.len() && s.valid[s.carry_drafts().len() + s.reorder_drafts().len() + k]
            && s.create_drafts()[k].ops.len() == 1 && s.create_drafts()[k].ops[0] is CreateTasks
            && s.create_drafts()[k].ops[0]->CreateTasks_week_id == s.week && 0 <= o
            < s.create_drafts()[k].ops[0]->CreateTasks_tasks.len() && (
        #[trigger] s.create_drafts()[k].ops[0]->CreateTasks_tasks[o]).direction_id == Some(
            d,
        ) implies s.pending_create(k, d) by {}
    assert forall|k: int, o: int|
        0 <= k < s.rejected.len() && s.rejected[k].ops.len() == 1
            && s.rejected[k].ops[0] is CreateTasks && s.rejected[k].ops[0]->CreateTasks_week_id
            == s.week && 0 <= o < s.rejected[k].ops[0]->CreateTasks_tasks.len() && (
        #[trigger] s.rejected[k].ops[0]->CreateTasks_tasks[o]).direction_id == Some(d)
            && !(s.max_new_direction matches Some(newest) && text_lt(
                s.rejected[k].proposed_at,
                newest,
            )) implies s.rejected_create(k, d) by {}
}

/// Creating tasks is left out altogether exactly when there is an under-served
/// direction and every one is excluded. Which directions are under-served is
/// taken from the read for the rejections where a rejected creation for the
/// week stands, and else from the read for the pending creations.
pub proof fn law_when_creating_is_left_out(s: SituationV)
    ensures
        ({
            let stands = exists|k: int|
                0 <= k < s.rejected.len() && (#[trigger] s.rejected[k]).ops.len() == 1 && (
                s.rejected[k].ops[0] matches OpV::CreateTasks { week_id, .. } && week_id == s.week)
                    && !(s.max_new_direction matches Some(newest) && text_lt(
                s.rejected[k].proposed_at,
                newest,
            ));
            let excluded = s.dedup().excluded_create_direction_ids;
            &&& stands ==> (s.dedup().skip_create <==> s.gaps_again.len() > 0 && forall|i: int|
                0 <= i < s.gaps_again.len() ==> excluded.contains(#[trigger] s.gaps_again[i]))
            &&& !stands ==> (s.dedup().skip_create <==> s.create_drafts().len() > 0 && s.gaps.len()
                > 0 && forall|i: int|
                0 <= i < s.gaps.len() ==> excluded.contains(#[trigger] s.gaps[i]))
        }),
{
    let excluded = s.excluded_create();
    if exists|k: int| s.rejected_creation(k) {
        let k = choose|k: int| s.rejected_creation(k);
        assert(s.rejected[k].ops.len() == 1);
    }
    assert forall|k: int|
        0 <= k < s.rejected.len() && (#[trigger] s.rejected[k]).ops.len() == 1 && (
        s.rejected[k].ops[0] matches OpV::CreateTasks { week_id, .. } && week_id == s.week)
            && !(s.max_new_direction matches Some(newest) && text_lt(
                s.rejected[k].proposed_at,
                newest,
            )) implies s.rejected_creation(k) by {}
    lemma_all_excluded(s.gaps, excluded);
    lemma_all_excluded(s.gaps_again, excluded);
}

proof fn lemma_all_excluded(ids: Seq<Seq<char>>, excluded: Set<Seq<char>>)
    ensures
        members(ids).subset_of(excluded) <==> (forall|i: int|
            0 <= i < ids.len() ==> excluded.contains(#[trigger] ids[i])),
{
    assert forall|i: int| 0 <= i < ids.len() implies members(ids).contains(#[trigger] ids[i]) by {
        assert(ids.contains(ids[i]));
    }
    if forall|i: int| 0 <= i < ids.len() ==> excluded.contains(#[trigger] ids[i]) {
        assert forall|t: Seq<char>| #[trigger] members(ids).contains(t) implies excluded.contains(
            t,
        ) by {
            let i = choose|i: int| 0 <= i < ids.len() && ids[i] == t;
            assert(excluded.contains(ids[i]));
        }
    }
}

/// A rejected proposal counts only if every one of its operations carries a
/// task into the planned week, or its one operation reorders that week or
/// creates tasks in it. Any other, such as a batch that carries into another
/// week, leaves the decision as it was, wherever in the list it stands.
pub proof fn law_other_rejections_do_not_count(
    s: SituationV,
    earlier: Seq<RejectedV>,
    later: Seq<RejectedV>,
    row: RejectedV,
)
    requires
        s.rejected == earlier + later,
        row.ops.len() == 0 || exists|i: int|
            0 <= i < row.ops.len() && !(#[trigger] row.ops[i] matches OpV::CarryOverTask {
                to_week,
                ..
            } && to_week == s.week),
        row.ops.len() == 1 ==> !(row.ops[0] matches OpV::ReorderTasks { week_id, .. } && week_id
            == s.week),
        row.ops.len() == 1 ==> !(row.ops[0] matches OpV::CreateTasks { week_id, .. } && week_id
            == s.week),
    ensures
        (SituationV { rejected: earlier.push(row) + later, ..s }).dedup() == s.dedup(),
{
    let t = SituationV { rejected: earlier.push(row) + later, ..s };
    let n = earlier.len() as int;
    assert(!carry_batch(row.ops, s.week));
    assert(reorder_of(row.ops, s.week) is None);
    assert(create_of(row.ops, s.week) is None);
    assert(t.rejected[n] == row);
    assert forall|k: int| 0 <= k < n implies #[trigger] t.rejected[k] == s.rejected[k] by {}
    assert forall|k: int| n < k < t.rejected.len() implies #[trigger] t.rejected[k]
        == s.rejected[k - 1] by {}
    let there = |k: int|
        if k < n {
            k
        } else {
            k + 1
        };
    let back = |k: int|
        if k < n {
            k
        } else {
            k - 1
        };
    assert forall|k: int, id: Seq<char>| #[trigger]
        s.rejected_carry(k, id) implies t.rejected_carry(there(k), id) by {}
    assert forall|k: int, id: Seq<char>| #[trigger]
        t.rejected_carry(k, id) implies s.rejected_carry(back(k), id) by {}
    assert forall|k: int, id: Seq<char>| #[trigger]
        s.rejected_create(k, id) implies t.rejected_create(there(k), id) by {}
    assert forall|k: int, id: Seq<char>| #[trigger]
        t.rejected_create(k, id) implies s.rejected_create(back(k), id) by {}
    assert forall|k: int| #[trigger]
        s.rejected_creation(k) implies t.rejected_creation(there(k)) by {}
    assert forall|k: int| #[trigger]
        t.rejected_creation(k) implies s.rejected_creation(back(k)) by {}
    assert forall|k: int| #[trigger]
        s.rejected_reorder(k) implies t.rejected_reorder(there(k)) by {}
    assert forall|k: int| #[trigger]
        t.rejected_reorder(k) implies s.rejected_reorder(back(k)) by {}
    assert forall|k: int, id: Seq<char>| s.pending_carry(k, id) == t.pending_carry(k, id) by {}
    assert forall|k: int, id: Seq<char>| s.pending_create(k, id) == t.pending_create(k, id) by {}
    assert(s.open_ids() =~= t.open_ids()) by {
        assert forall|i: int, id: Seq<char>| s.open_task(i, id) == t.open_task(i, id) by {}
    }
    assert forall|k: int| s.pending_reorder(k) == t.pending_reorder(k) by {}
    assert(s.excluded_carry() =~= t.excluded_carry());
    assert(s.excluded_create() =~= t.excluded_create());
}

/// What the rejected half needs to read rests on the rejections for the week
/// that no eligible direction is newer than: one that reorders it, one that
/// creates tasks in it.
pub proof fn law_what_the_rejections_need(s: SituationV, k: int)
    ensures
        standing_reorder(s.week, s.rejected, s.max_new_direction, k) <==> 0 <= k < s.rejected.len()
            && s.rejected[k].ops.len() == 1 && (
        s.rejected[k].ops[0] matches OpV::ReorderTasks { week_id, .. } && week_id == s.week)
            && !(s.max_new_direction matches Some(newest) && text_lt(
                s.rejected[k].proposed_at,
                newest,
            )),
        standing_creation(s.week, s.rejected, s.max_new_direction, k) <==> 0 <= k < s.rejected.len()
            && s.rejected[k].ops.len() == 1 && (
        s.rejected[k].ops[0] matches OpV::CreateTasks { week_id, .. } && week_id == s.week)
            && !(s.max_new_direction matches Some(newest) && text_lt(
                s.rejected[k].proposed_at,
                newest,
            )),
{
}

/// Which failed read ends the deduplication: the tasks, the produced ids, the
/// pending proposals, the rejections and, where there are rejections, the
/// newest direction, in this order. Failed reads of the under-served directions
/// end nothing.
pub proof fn law_which_failed_read_ends_the_deduplication(reads: ProposeReads)
    ensures
        reads.week_tasks matches Err(m) ==> reads.failure() == Some(StoreErrorV::Internal(m@)),
        reads.week_tasks is Ok ==> (reads.ai_produced_ids matches Err(e) ==> reads.failure() == Some(
            e.deep_view(),
        )),
        reads.week_tasks is Ok && reads.ai_produced_ids is Ok ==> (reads.pending matches Err(e)
            ==> reads.failure() == Some(e.deep_view())),
        reads.week_tasks is Ok && reads.ai_produced_ids is Ok && reads.pending is Ok ==> (
        reads.rejected matches Err(e) ==> reads.failure() == Some(e.deep_view())),
        reads.week_tasks is Ok && reads.ai_produced_ids is Ok && reads.pending is Ok ==> (
        reads.rejected matches Ok(rows) ==> (reads.failure() is Some <==> rows@.len() > 0
            && reads.max_new_direction is Err)),
        reads.week_tasks is Ok && reads.ai_produced_ids is Ok && reads.pending is Ok
            && reads.rejected is Ok && reads.failure() is Some ==> (
        reads.max_new_direction matches Err(m) && reads.failure() == Some(
            StoreErrorV::Internal(m@),
        )),
{
}

/// The situation is what was read, and a failed read of the under-served
/// directions shows none.
pub proof fn law_the_situation_is_what_was_read(reads: ProposeReads, week: Seq<char>)
    ensures
        reads.situation(week).week == week,
        reads.week_tasks matches Ok(tasks) ==> reads.situation(week).tasks == tasks.deep_view(),
        reads.ai_produced_ids matches Ok(ids) ==> reads.situation(week).produced == ids.deep_view(),
        reads.pending matches Ok(rows) ==> reads.situation(week).pending == rows.deep_view(),
        reads.situation(week).valid == reads.valid@,
        reads.gaps matches Some(ids) ==> reads.situation(week).gaps == ids.deep_view(),
        reads.gaps is None ==> reads.situation(week).gaps.len() == 0,
        reads.rejected matches Ok(rows) ==> reads.situation(week).rejected == rows.deep_view(),
        reads.max_new_direction matches Ok(None) ==> reads.situation(week).max_new_direction
            is None,
        reads.max_new_direction matches Ok(Some(newest)) ==> reads.situation(
            week,
        ).max_new_direction == Some(newest@),
        reads.situation(week).reflex_order == reads.reflex_order.deep_view(),
        reads.gaps_again matches Some(ids) ==> reads.situation(week).gaps_again == ids.deep_view(),
        reads.gaps_again is None ==> reads.situation(week).gaps_again.len() == 0,
{
}

/// What is decided is seen by its parts, and leaving out nothing is just that.
pub proof fn law_the_decision_is_seen_by_its_parts(d: ProposeDedup, id: Seq<char>)
    ensures
        d@.excluded_carry_task_ids == d.excluded_carry_task_ids@,
        d@.skip_reorder == d.skip_reorder,
        d@.excluded_create_direction_ids == d.excluded_create_direction_ids@,
        d@.skip_create == d.skip_create,
        !ProposeDedupV::none().excluded_carry_task_ids.contains(id),
        !ProposeDedupV::none().skip_reorder,
        !ProposeDedupV::none().excluded_create_direction_ids.contains(id),
        !ProposeDedupV::none().skip_create,
{
}

/// A request is refused for its caller first, then for its body, then for the
/// week it names, and for nothing else.
pub proof fn law_what_a_plan_is_refused_for(
    sender: Option<Actor>,
    parsed: Result<ProposeReq, String>,
    selected: Result<WeekId, ProposeInputError>,
)
    ensures
        propose_refusal(sender, parsed, selected) is None <==> sender is Some && parsed is Ok
            && selected is Ok,
        sender is None ==> propose_refusal(sender, parsed, selected) == Some(
            error(403, "forbidden"@, "missing or unrecognized actor key"@),
        ),
        sender is Some ==> (parsed matches Err(why) ==> propose_refusal(sender, parsed, selected)
            == Some(
            error(400, "invalid_request"@, "invalid "@ + "ai propose request"@ + ": "@ + why@),
        )),
        sender is Some && parsed is Ok ==> (selected matches Err(e) ==> propose_refusal(
            sender,
            parsed,
            selected,
        ) == Some(input_error(e))),
{
}

/// What a refused week is answered.
pub proof fn law_what_a_refused_week_is_answered(id: WeekId, what: String)
    ensures
        input_error(ProposeInputError::UnknownWeek(id)) == error(
            404,
            "not_found"@,
            "week "@ + id@ + " does not exist"@,
        ),
        input_error(ProposeInputError::WeekNotOpen(id, what)) == error(
            409,
            "week_not_open"@,
            "week "@ + id@ + " is not open (status "@ + what@ + ")"@,
        ),
        input_error(ProposeInputError::ReadFailed(what)) == error(500, "internal"@, what@),
{
}

/// How each part of a run is shown.
pub proof fn law_how_each_part_is_shown(o: ProposeItem)
    ensures
        o.kind is Carry ==> outcome_item(o).target == "propose.carry"@,
        o.kind is Reorder ==> outcome_item(o).target == "propose.reorder"@,
        o.kind is Create ==> outcome_item(o).target == "propose.create"@,
        outcome_item(o).target == o.kind.name(),
        o.result is Proposed ==> outcome_item(o).result == "proposed"@,
        o.result is Nothing ==> outcome_item(o).result == "nothing"@,
        o.result is Deferred ==> outcome_item(o).result == "deferred"@,
        o.result is Rejected ==> outcome_item(o).result == "rejected"@,
        o.result is Aborted ==> outcome_item(o).result == "aborted"@,
        o.result is Skipped ==> outcome_item(o).result == "skipped"@,
        outcome_item(o).result == result_word(o.result),
        outcome_item(o).reason == if o.result is Skipped {
            Some("dedup"@)
        } else {
            None
        },
{
}

/// One aborted part, wherever it stands, aborts the run, and nothing else does.
pub proof fn law_any_aborted_part_aborts_the_run(outcomes: Seq<ProposeItem>, k: int)
    requires
        0 <= k < outcomes.len(),
    ensures
        outcomes[k].result is Aborted ==> any_aborted(outcomes),
        any_aborted(outcomes) ==> any_aborted(outcomes.take(k)) || outcomes[k].result is Aborted
            || any_aborted(outcomes.skip(k + 1)),
        !any_aborted(Seq::<ProposeItem>::empty()),
{
    if any_aborted(outcomes) {
        let i = choose|i: int|
            0 <= i < outcomes.len() && (#[trigger] outcomes[i]).result is Aborted;
        if i < k {
            assert(outcomes.take(k)[i].result is Aborted);
        } else if i > k {
            assert(outcomes.skip(k + 1)[i - k - 1].result is Aborted);
        }
    }
}

} // verus!
