//! `POST /ai/classify`: which inbox tasks a classification run looks at, and
//! which it leaves alone because a proposal for them is pending or was rejected.
use super::actor::Actor;
use super::ai_runs::{not_triggered, start_run, trigger_step, AiRunItem, ItemV, Triggered};
use super::route::{parse_error, turned_away, Route};
use super::state::Sin90State;
use super::{error, error_response, Reply, ReplyV};
use crate::lists::{lemma_pick_then_change, lemma_picked, lemma_picked_from};
use crate::model::{
    Capability, DraftV, OpV, ProposalDraft, ProposalStatus, ProposalV, RejectedOpsRow, RejectedV, Sin90Op,
    Sin90Proposal, StoreError, Task, TaskId, TaskV,
};
use crate::text::{is_before, join3, same_text, text_lt};
use axum::http::{HeaderMap, HeaderValue};
use vstd::prelude::*;

verus! {

/// How many tasks one classification run looks at.
pub const MAX_CLASSIFY_TASK_IDS: usize = 20;

/// The largest inbox page read while looking for enough targets.
pub const AUTO_SELECT_MAX_PAGE: u32 = 2000;

/// The task a lone direction assignment is about.
pub open spec fn assigned_task(ops: Seq<OpV>) -> Option<Seq<char>> {
    if ops.len() == 1 {
        match ops[0] {
            OpV::AssignTaskDirection { task_id, .. } => Some(task_id),
            _ => None,
        }
    } else {
        None
    }
}

/// `id` is the id of one of `targets`.
pub open spec fn is_target(targets: Seq<TaskV>, id: Seq<char>) -> bool {
    exists|i: int| 0 <= i < targets.len() && #[trigger] targets[i].id == id
}

/// The draft of a pending direction assignment for one of `targets`.
pub open spec fn assignment_draft(targets: Seq<TaskV>) -> spec_fn(ProposalV) -> Option<DraftV> {
    |p: ProposalV|
        if p.status == ProposalStatus::Pending && (assigned_task(p.ops) matches Some(id)
            && is_target(targets, id)) {
            Some(p.draft())
        } else {
            None
        }
}

/// The pending direction assignments for `targets`.
pub open spec fn assignment_drafts(targets: Seq<TaskV>, pending: Seq<ProposalV>) -> Seq<DraftV> {
    pending.filter_map(assignment_draft(targets))
}

/// Some operation of the rejected proposal assigns a direction to `id`.
pub open spec fn assigns(row: RejectedV, id: Seq<char>) -> bool {
    exists|i: int|
        0 <= i < row.ops.len() && (#[trigger] row.ops[i] matches OpV::AssignTaskDirection {
            task_id,
            ..
        } && task_id == id)
}

/// When the most recent rejected assignment of `id` was proposed. The
/// rejections are listed oldest first.
pub open spec fn latest_rejection(rejected: Seq<RejectedV>, id: Seq<char>) -> Option<Seq<char>>
    decreases rejected.len(),
{
    if rejected.len() == 0 {
        None
    } else if assigns(rejected.last(), id) {
        Some(rejected.last().proposed_at)
    } else {
        latest_rejection(rejected.drop_last(), id)
    }
}

/// The facts a classification run's deduplication is decided on.
#[verifier::ext_equal]
pub struct InboxSituationV {
    pub targets: Seq<TaskV>,
    pub pending: Seq<ProposalV>,
    /// Which of the pending assignments still apply, in order.
    pub valid: Seq<bool>,
    /// The rejected classification proposals, oldest first.
    pub rejected: Seq<RejectedV>,
    /// When the newest eligible direction was created, if there is one;
    /// `None` if the read failed.
    pub max_new_direction: Option<Option<Seq<char>>>,
    /// For each query: whether the task was modified; `None` if the read failed.
    pub modified: Seq<Option<bool>>,
}

impl InboxSituationV {
    pub open spec fn drafts(self) -> Seq<DraftV> {
        assignment_drafts(self.targets, self.pending)
    }

    /// Pending assignment `k` still applies and is about `id`.
    pub open spec fn pending_for(self, k: int, id: Seq<char>) -> bool {
        &&& 0 <= k < self.drafts().len()
        &&& k < self.valid.len()
        &&& self.valid[k]
        &&& assigned_task(self.drafts()[k].ops) == Some(id)
    }

    /// A pending assignment that still applies is about `id`.
    pub open spec fn already_pending(self, id: Seq<char>) -> bool {
        exists|k: int| self.pending_for(k, id)
    }

    /// The question to ask about a target that was rejected before: was it
    /// modified since the rejected proposal was made.
    pub open spec fn query(self) -> spec_fn(TaskV) -> Option<(Seq<char>, Seq<char>)> {
        |t: TaskV|
            if self.already_pending(t.id) {
                None
            } else {
                match latest_rejection(self.rejected, t.id) {
                    Some(since) => Some((t.id, since)),
                    None => None,
                }
            }
    }

    pub open spec fn queries(self) -> Seq<(Seq<char>, Seq<char>)> {
        self.targets.filter_map(self.query())
    }

    /// No eligible direction was created after `since`. This is not known where
    /// the read failed, and then does not hold.
    pub open spec fn no_new_direction(self, since: Seq<char>) -> bool {
        match self.max_new_direction {
            Some(Some(created_at)) => !text_lt(since, created_at),
            Some(None) => true,
            None => false,
        }
    }

    /// Query `k` is about `id`, and nothing changed since the rejection:
    /// neither the task nor the eligible directions. Both had to be read.
    pub open spec fn unchanged_since(self, k: int, id: Seq<char>) -> bool {
        &&& 0 <= k < self.queries().len()
        &&& k < self.modified.len()
        &&& self.queries()[k].0 == id
        &&& self.modified[k] == Some(false)
        &&& self.no_new_direction(self.queries()[k].1)
    }

    /// The last rejection of `id` still stands.
    pub open spec fn suppressed(self, id: Seq<char>) -> bool {
        exists|k: int| self.unchanged_since(k, id)
    }

    /// Why `id` is left alone, if it is.
    pub open spec fn reason(self, id: Seq<char>) -> Option<Seq<char>> {
        if self.already_pending(id) {
            Some("dedup"@)
        } else if self.suppressed(id) {
            Some("suppressed_rejected"@)
        } else {
            None
        }
    }

    pub open spec fn keep(self) -> spec_fn(TaskV) -> Option<TaskV> {
        |t: TaskV|
            if self.reason(t.id) is None {
                Some(t)
            } else {
                None
            }
    }

    pub open spec fn skip(self) -> spec_fn(TaskV) -> Option<(Seq<char>, Seq<char>)> {
        |t: TaskV|
            match self.reason(t.id) {
                Some(why) => Some((t.id, why)),
                None => None,
            }
    }

    /// The targets left to classify, in order.
    pub open spec fn kept(self) -> Seq<TaskV> {
        self.targets.filter_map(self.keep())
    }

    /// The targets left alone, in order, each with the reason.
    pub open spec fn skipped(self) -> Seq<(Seq<char>, Seq<char>)> {
        self.targets.filter_map(self.skip())
    }
}

fn assigned<'a>(ops: &'a Vec<Sin90Op>) -> (r: Option<&'a TaskId>)
    ensures
        match r {
            Some(id) => assigned_task(ops.deep_view()) == Some(id@),
            None => assigned_task(ops.deep_view()) is None,
        },
{
    if ops.len() != 1 {
        return None;
    }
    assert(ops.deep_view()[0] == ops@[0].deep_view());
    match &ops[0] {
        Sin90Op::AssignTaskDirection { task_id, .. } => Some(task_id),
        _ => None,
    }
}

fn has_target(targets: &Vec<Task>, id: &str) -> (r: bool)
    ensures
        r == is_target(targets.deep_view(), id@),
{
    let ghost all = targets.deep_view();
    let mut i: usize = 0;
    while i < targets.len()
        invariant
            all == targets.deep_view(),
            i <= all.len(),
            forall|j: int| 0 <= j < i ==> #[trigger] all[j].id != id@,
        decreases all.len() - i,
    {
        if same_text(targets[i].id.as_str(), id) {
            assert(all[i as int].id == id@);
            return true;
        }
        i = i + 1;
    }
    false
}

/// The pending direction assignments for `targets`, to be checked again.
pub fn pending_assignments(targets: &Vec<Task>, pending: &Vec<Sin90Proposal>) -> (r: Vec<
    ProposalDraft,
>)
    ensures
        r.deep_view() == assignment_drafts(targets.deep_view(), pending.deep_view()),
{
    let ghost all = pending.deep_view();
    let ghost pick = assignment_draft(targets.deep_view());
    let mut out: Vec<ProposalDraft> = Vec::new();
    let mut i: usize = 0;
    assert(all.take(0).filter_map(pick) =~= Seq::empty()) by {
        reveal(Seq::filter_map);
    }
    assert(out.deep_view() =~= all.take(0).filter_map(pick));
    while i < pending.len()
        invariant
            all == pending.deep_view(),
            pick == assignment_draft(targets.deep_view()),
            i <= all.len(),
            out.deep_view() == all.take(i as int).filter_map(pick),
        decreases all.len() - i,
    {
        let p = &pending[i];
        let ghost before = out.deep_view();
        proof {
            assert(all[i as int] == p.deep_view());
            all.lemma_filter_map_take_succ(pick, i as int);
        }
        if p.status == ProposalStatus::Pending {
            match assigned(&p.ops) {
                Some(id) => {
                    if has_target(targets, id.as_str()) {
                        out.push(p.to_draft());
                        assert(out.deep_view() =~= before.push(p.deep_view().draft()));
                    }
                },
                None => {},
            }
        }
        i = i + 1;
    }
    assert(all.take(i as int) =~= all);
    out
}

fn row_assigns(row: &RejectedOpsRow, id: &str) -> (r: bool)
    ensures
        r == assigns(row.deep_view(), id@),
{
    let ghost all = row.deep_view().ops;
    let mut i: usize = 0;
    while i < row.ops.len()
        invariant
            all == row.ops.deep_view(),
            i <= all.len(),
            forall|j: int|
                0 <= j < i ==> !(#[trigger] all[j] matches OpV::AssignTaskDirection { task_id, .. }
                    && task_id == id@),
        decreases all.len() - i,
    {
        match &row.ops[i] {
            Sin90Op::AssignTaskDirection { task_id, .. } => {
                if same_text(task_id.as_str(), id) {
                    assert(all[i as int] matches OpV::AssignTaskDirection { task_id, .. }
                        && task_id == id@);
                    return true;
                }
            },
            _ => {},
        }
        i = i + 1;
    }
    false
}

fn last_rejection<'a>(rejected: &'a Vec<RejectedOpsRow>, id: &str) -> (r: Option<&'a String>)
    ensures
        match r {
            Some(since) => latest_rejection(rejected.deep_view(), id@) == Some(since@),
            None => latest_rejection(rejected.deep_view(), id@) is None,
        },
{
    let ghost all = rejected.deep_view();
    let mut n: usize = rejected.len();
    assert(all.take(n as int) =~= all);
    while n > 0
        invariant
            all == rejected.deep_view(),
            n <= all.len(),
            latest_rejection(all, id@) == latest_rejection(all.take(n as int), id@),
        decreases n,
    {
        assert(all.take(n as int).last() == rejected@[n - 1].deep_view());
        assert(all.take(n as int).drop_last() =~= all.take(n - 1));
        if row_assigns(&rejected[n - 1], id) {
            return Some(&rejected[n - 1].proposed_at);
        }
        n = n - 1;
    }
    None
}

/// Whether a pending assignment that still applies is about `id`.
fn is_pending(drafts: &Vec<ProposalDraft>, valid: &Vec<bool>, id: &str, Ghost(s): Ghost<
    InboxSituationV,
>) -> (r: bool)
    requires
        s.drafts() == drafts.deep_view(),
        s.valid == valid@,
    ensures
        r == s.already_pending(id@),
{
    let mut k: usize = 0;
    while k < drafts.len() && k < valid.len()
        invariant
            s.drafts() == drafts.deep_view(),
            s.valid == valid@,
            k <= drafts@.len(),
            forall|j: int| 0 <= j < k ==> !s.pending_for(j, id@),
        decreases drafts@.len() - k,
    {
        assert(s.drafts()[k as int] == drafts@[k as int].deep_view());
        if valid[k] {
            match assigned(&drafts[k].ops) {
                Some(task_id) => {
                    if same_text(task_id.as_str(), id) {
                        assert(s.pending_for(k as int, id@));
                        return true;
                    }
                },
                None => {},
            }
        }
        k = k + 1;
    }
    false
}

/// The question whether a task was modified after a given time.
#[derive(Debug)]
pub struct ModifiedQuery {
    pub task_id: TaskId,
    pub since: String,
}

impl DeepView for ModifiedQuery {
    type V = (Seq<char>, Seq<char>);

    open spec fn deep_view(&self) -> (Seq<char>, Seq<char>) {
        (self.task_id@, self.since@)
    }
}

fn queries_for(
    targets: &Vec<Task>,
    drafts: &Vec<ProposalDraft>,
    valid: &Vec<bool>,
    rejected: &Vec<RejectedOpsRow>,
    Ghost(s): Ghost<InboxSituationV>,
) -> (r: Vec<ModifiedQuery>)
    requires
        s.targets == targets.deep_view(),
        s.drafts() == drafts.deep_view(),
        s.valid == valid@,
        s.rejected == rejected.deep_view(),
    ensures
        r.deep_view() == s.queries(),
{
    let ghost all = targets.deep_view();
    let mut out: Vec<ModifiedQuery> = Vec::new();
    let mut i: usize = 0;
    assert(all.take(0).filter_map(s.query()) =~= Seq::empty()) by {
        reveal(Seq::filter_map);
    }
    assert(out.deep_view() =~= all.take(0).filter_map(s.query()));
    while i < targets.len()
        invariant
            all == targets.deep_view(),
            s.targets == all,
            s.drafts() == drafts.deep_view(),
            s.valid == valid@,
            s.rejected == rejected.deep_view(),
            i <= all.len(),
            out.deep_view() == all.take(i as int).filter_map(s.query()),
        decreases all.len() - i,
    {
        let t = &targets[i];
        let ghost before = out.deep_view();
        proof {
            assert(all[i as int] == t.deep_view());
            all.lemma_filter_map_take_succ(s.query(), i as int);
        }
        if !is_pending(drafts, valid, t.id.as_str(), Ghost(s)) {
            match last_rejection(rejected, t.id.as_str()) {
                Some(since) => {
                    out.push(ModifiedQuery { task_id: t.id.clone(), since: since.clone() });
                    assert(out.deep_view() =~= before.push((t.id@, since@)));
                },
                None => {},
            }
        }
        i = i + 1;
    }
    assert(all.take(i as int) =~= all);
    out
}

fn is_suppressed(
    queries: &Vec<ModifiedQuery>,
    modified: &Vec<Option<bool>>,
    max_new_direction: &Result<Option<String>, String>,
    id: &str,
    Ghost(s): Ghost<InboxSituationV>,
) -> (r: bool)
    requires
        s.queries() == queries.deep_view(),
        s.modified == modified@,
        s.max_new_direction == newest_direction(*max_new_direction),
    ensures
        r == s.suppressed(id@),
{
    let mut k: usize = 0;
    while k < queries.len() && k < modified.len()
        invariant
            s.queries() == queries.deep_view(),
            s.modified == modified@,
            s.max_new_direction == newest_direction(*max_new_direction),
            k <= queries@.len(),
            forall|j: int| 0 <= j < k ==> !s.unchanged_since(j, id@),
        decreases queries@.len() - k,
    {
        let q = &queries[k];
        assert(s.queries()[k as int] == q.deep_view());
        let no_newer = match max_new_direction {
            Ok(Some(created_at)) => !is_before(q.since.as_str(), created_at.as_str()),
            Ok(None) => true,
            Err(_) => false,
        };
        let untouched = match modified[k] {
            Some(was_modified) => !was_modified,
            None => false,
        };
        if untouched && no_newer && same_text(q.task_id.as_str(), id) {
            assert(s.unchanged_since(k as int, id@));
            return true;
        }
        k = k + 1;
    }
    false
}

/// What the reads of a classification run's deduplication came back with.
pub struct ClassifyReads {
    pub pending: Result<Vec<Sin90Proposal>, StoreError>,
    /// Which of `pending_assignments` still apply.
    pub valid: Vec<bool>,
    /// When the newest eligible direction was created.
    pub max_new_direction: Result<Option<String>, String>,
    /// The answers to `rejection_queries`; `None` where the read failed.
    pub modified: Vec<Option<bool>>,
}

/// When the newest eligible direction was created; `None` if the read failed.
pub open spec fn newest_direction(read: Result<Option<String>, String>) -> Option<
    Option<Seq<char>>,
> {
    match read {
        Ok(created_at) => Some(created_at.deep_view()),
        Err(_) => None,
    }
}

impl ClassifyReads {
    /// The situation the reads show.
    pub open spec fn situation(
        &self,
        targets: Seq<TaskV>,
        rejected: Seq<RejectedV>,
    ) -> InboxSituationV {
        InboxSituationV {
            targets,
            pending: self.pending->Ok_0.deep_view(),
            valid: self.valid@,
            rejected,
            max_new_direction: newest_direction(self.max_new_direction),
            modified: self.modified@,
        }
    }
}

/// Splits `targets` into those left to classify and those left alone, each
/// with the reason. A rejected task of which it could not be read whether
/// anything changed is left to classify.
pub fn dedup_targets_with_rejected(
    targets: &Vec<Task>,
    rejected: &Vec<RejectedOpsRow>,
    reads: ClassifyReads,
) -> (r: Result<(Vec<Task>, Vec<(TaskId, &'static str)>), StoreError>)
    ensures
        match r {
            Ok(split) => {
                &&& reads.pending is Ok
                &&& split.0.deep_view() == reads.situation(
                    targets.deep_view(),
                    rejected.deep_view(),
                ).kept()
                &&& split.1.deep_view() == reads.situation(
                    targets.deep_view(),
                    rejected.deep_view(),
                ).skipped()
            },
            Err(e) => reads.pending is Err && e == reads.pending->Err_0,
        },
{
    let ghost s = reads.situation(targets.deep_view(), rejected.deep_view());
    let pending = match reads.pending {
        Ok(v) => v,
        Err(e) => return Err(e),
    };
    let drafts = pending_assignments(targets, &pending);
    let queries = queries_for(targets, &drafts, &reads.valid, rejected, Ghost(s));
    let ghost all = targets.deep_view();
    let mut kept: Vec<Task> = Vec::new();
    let mut skipped: Vec<(TaskId, &'static str)> = Vec::new();
    let mut i: usize = 0;
    proof {
        reveal(Seq::filter_map);
        assert(all.take(0) =~= Seq::empty());
        assert(kept.deep_view() =~= all.take(0).filter_map(s.keep()));
        assert(skipped.deep_view() =~= all.take(0).filter_map(s.skip()));
    }
    while i < targets.len()
        invariant
            all == targets.deep_view(),
            s.targets == all,
            s.drafts() == drafts.deep_view(),
            s.valid == reads.valid@,
            s.queries() == queries.deep_view(),
            s.modified == reads.modified@,
            s.max_new_direction == newest_direction(reads.max_new_direction),
            i <= all.len(),
            kept.deep_view() == all.take(i as int).filter_map(s.keep()),
            skipped.deep_view() == all.take(i as int).filter_map(s.skip()),
        decreases all.len() - i,
    {
        let t = &targets[i];
        let ghost before = (kept.deep_view(), skipped.deep_view());
        proof {
            assert(all[i as int] == t.deep_view());
            all.lemma_filter_map_take_succ(s.keep(), i as int);
            all.lemma_filter_map_take_succ(s.skip(), i as int);
        }
        if is_pending(&drafts, &reads.valid, t.id.as_str(), Ghost(s)) {
            skipped.push((t.id.clone(), "dedup"));
            assert(skipped.deep_view() =~= before.1.push((t.id@, "dedup"@)));
        } else if is_suppressed(
            &queries,
            &reads.modified,
            &reads.max_new_direction,
            t.id.as_str(),
            Ghost(s),
        ) {
            skipped.push((t.id.clone(), "suppressed_rejected"));
            assert(skipped.deep_view() =~= before.1.push((t.id@, "suppressed_rejected"@)));
        } else {
            kept.push(t.clone());
            assert(kept.deep_view() =~= before.0.push(t.deep_view()));
        }
        i = i + 1;
    }
    assert(all.take(i as int) =~= all);
    Ok((kept, skipped))
}

/// What to ask the store about the targets that were rejected before.
pub fn rejection_queries(
    targets: &Vec<Task>,
    pending: &Vec<Sin90Proposal>,
    valid: &Vec<bool>,
    rejected: &Vec<RejectedOpsRow>,
) -> (r: Vec<ModifiedQuery>)
    ensures
        r.deep_view() == (InboxSituationV {
            targets: targets.deep_view(),
            pending: pending.deep_view(),
            valid: valid@,
            rejected: rejected.deep_view(),
            max_new_direction: None,
            modified: Seq::empty(),
        }).queries(),
{
    let ghost s = InboxSituationV {
        targets: targets.deep_view(),
        pending: pending.deep_view(),
        valid: valid@,
        rejected: rejected.deep_view(),
        max_new_direction: None,
        modified: Seq::empty(),
    };
    let drafts = pending_assignments(targets, pending);
    queries_for(targets, &drafts, valid, rejected, Ghost(s))
}

/// `dedup_targets_with_rejected` with the rejections as they were read: a
/// failed read counts as there being none.
pub fn dedup_targets(
    targets: &Vec<Task>,
    rejected: Result<Vec<RejectedOpsRow>, StoreError>,
    reads: ClassifyReads,
) -> (r: Result<(Vec<Task>, Vec<(TaskId, &'static str)>), StoreError>)
    ensures
        match r {
            Ok(split) => {
                let s = reads.situation(targets.deep_view(), rows_or_none(rejected));
                &&& reads.pending is Ok
                &&& split.0.deep_view() == s.kept()
                &&& split.1.deep_view() == s.skipped()
            },
            Err(e) => reads.pending is Err && e == reads.pending->Err_0,
        },
{
    let rows = or_no_rows(rejected);
    dedup_targets_with_rejected(targets, &rows, reads)
}

/// The rejections, or none when the read failed.
pub open spec fn rows_or_none(rejected: Result<Vec<RejectedOpsRow>, StoreError>) -> Seq<RejectedV> {
    match rejected {
        Ok(rows) => rows.deep_view(),
        Err(_) => Seq::empty(),
    }
}

/// The rejections, or none when the read failed.
pub fn or_no_rows(rejected: Result<Vec<RejectedOpsRow>, StoreError>) -> (r: Vec<RejectedOpsRow>)
    ensures
        r.deep_view() == rows_or_none(rejected),
{
    match rejected {
        Ok(rows) => rows,
        Err(_) => {
            let r: Vec<RejectedOpsRow> = Vec::new();
            assert(r.deep_view() =~= Seq::empty());
            r
        },
    }
}

// ---- triggering ----

/// The body of `POST /ai/classify`.
#[derive(Debug)]
pub struct ClassifyReq {
    /// The tasks to look at; none to choose them from the inbox.
    pub task_ids: Option<Vec<TaskId>>,
}

/// Why explicitly named tasks are refused.
#[derive(Debug)]
pub enum ClassifyInputError {
    EmptyTaskIds,
    TooManyTaskIds,
    TaskNotInInbox(TaskId),
    DuplicateTaskId(TaskId),
    ReadFailed(String),
}

/// The reply to tasks that are refused.
pub open spec fn input_error(e: ClassifyInputError) -> ReplyV {
    match e {
        ClassifyInputError::EmptyTaskIds => error(
            400,
            "invalid_request"@,
            "task_ids was given but empty; omit it entirely to auto-select from the inbox"@,
        ),
        ClassifyInputError::TooManyTaskIds => error(
            400,
            "invalid_request"@,
            "task_ids must have at most 20 entries"@,
        ),
        ClassifyInputError::TaskNotInInbox(id) => error(
            400,
            "invalid_request"@,
            "task "@ + id@ + " is not in the inbox"@,
        ),
        ClassifyInputError::DuplicateTaskId(id) => error(
            400,
            "invalid_request"@,
            "task_ids contains "@ + id@ + " more than once"@,
        ),
        ClassifyInputError::ReadFailed(message) => error(500, "internal"@, message@),
    }
}

/// The reply to tasks that are refused.
pub fn classify_input_error(e: ClassifyInputError) -> (r: Reply)
    ensures
        r@ == input_error(e),
{
    match e {
        ClassifyInputError::EmptyTaskIds => error_response(
            400,
            "invalid_request",
            "task_ids was given but empty; omit it entirely to auto-select from the inbox",
        ),
        ClassifyInputError::TooManyTaskIds => error_response(
            400,
            "invalid_request",
            "task_ids must have at most 20 entries",
        ),
        ClassifyInputError::TaskNotInInbox(id) => {
            let message = join3("task ", id.as_str(), " is not in the inbox");
            error_response(400, "invalid_request", message.as_str())
        },
        ClassifyInputError::DuplicateTaskId(id) => {
            let message = join3("task_ids contains ", id.as_str(), " more than once");
            error_response(400, "invalid_request", message.as_str())
        },
        ClassifyInputError::ReadFailed(message) => error_response(
            500,
            "internal",
            message.as_str(),
        ),
    }
}

/// Why a request is refused before the slot is looked at, if it is: first the
/// caller, then the body, then the tasks it names.
pub open spec fn classify_refusal(
    sender: Option<Actor>,
    parsed: Result<ClassifyReq, String>,
    selected: Result<Vec<Task>, ClassifyInputError>,
) -> Option<ReplyV> {
    match turned_away(Route::TriggerClassify, sender) {
        Some(reply) => Some(reply),
        None => match parsed {
            Err(why) => Some(parse_error("ai classify request"@, why@)),
            Ok(req) => match (req.task_ids, selected) {
                (Some(_), Err(e)) => Some(input_error(e)),
                _ => None,
            },
        },
    }
}

/// The tasks a request names, as they were selected; none when the run is to
/// choose them.
pub open spec fn explicit_targets(
    parsed: Result<ClassifyReq, String>,
    selected: Result<Vec<Task>, ClassifyInputError>,
) -> Option<Vec<Task>> {
    if parsed->Ok_0.task_ids is Some {
        Some(selected->Ok_0)
    } else {
        None
    }
}

/// Answers `POST /ai/classify`. `selected` is what selecting the named tasks
/// gave; without named tasks it is not looked at.
pub fn trigger_classify(
    state: &mut Sin90State,
    headers: &HeaderMap<HeaderValue>,
    parsed: Result<ClassifyReq, String>,
    selected: Result<Vec<Task>, ClassifyInputError>,
    unique: &str,
) -> (r: Triggered<Option<Vec<Task>>>)
    ensures
        final(state).actor_keys == old(state).actor_keys,
        trigger_step(
            old(state).ai_runs@,
            final(state).ai_runs@,
            classify_refusal(old(state).actor_keys.sender(*headers), parsed, selected),
            Capability::Classify,
            "run-"@ + unique@,
            explicit_targets(parsed, selected),
            r,
        ),
{
    let req = match state.receive(Route::TriggerClassify, headers, parsed) {
        Ok(req) => req,
        Err(reply) => return not_triggered(reply),
    };
    let targets = match req.task_ids {
        Some(_) => match selected {
            Ok(targets) => Some(targets),
            Err(e) => return not_triggered(classify_input_error(e)),
        },
        None => None,
    };
    start_run(&mut state.ai_runs, Capability::Classify, unique, targets)
}

// ---- choosing targets from the inbox ----

/// How far choosing targets from the inbox has got: the page to read next.
#[derive(Debug, Clone, Copy)]
pub struct AutoSelect {
    page: u32,
}

/// The next step of choosing targets.
#[derive(Debug)]
pub enum AutoStep {
    /// Read the inbox again, with a larger page.
    More(AutoSelect),
    /// The targets.
    Done(Vec<Task>),
}

/// What one page of the inbox leads to.
#[verifier::ext_equal]
pub enum AutoStepV {
    More(u32),
    Done(Seq<TaskV>),
}

impl DeepView for AutoStep {
    type V = AutoStepV;

    open spec fn deep_view(&self) -> AutoStepV {
        match *self {
            AutoStep::More(next) => AutoStepV::More(next@),
            AutoStep::Done(targets) => AutoStepV::Done(targets.deep_view()),
        }
    }
}

/// The page after `page`: twice as large, up to the largest.
pub open spec fn next_page(page: u32) -> u32 {
    if 2 * page <= AUTO_SELECT_MAX_PAGE {
        (2 * page) as u32
    } else {
        AUTO_SELECT_MAX_PAGE
    }
}

/// The first targets, as many as one run looks at.
pub open spec fn first_targets(kept: Seq<TaskV>) -> Seq<TaskV> {
    if kept.len() > MAX_CLASSIFY_TASK_IDS {
        kept.take(MAX_CLASSIFY_TASK_IDS as int)
    } else {
        kept
    }
}

/// What a page of `candidates`, of which `kept` are left to classify, leads to.
pub open spec fn after_page(page: u32, candidates: Seq<TaskV>, kept: Seq<TaskV>) -> AutoStepV {
    if kept.len() >= MAX_CLASSIFY_TASK_IDS || candidates.len() < page || page
        >= AUTO_SELECT_MAX_PAGE {
        AutoStepV::Done(first_targets(kept))
    } else {
        AutoStepV::More(next_page(page))
    }
}

impl View for AutoSelect {
    type V = u32;

    closed spec fn view(&self) -> u32 {
        self.page
    }
}

impl AutoSelect {
    #[verifier::type_invariant]
    spec fn well_formed(&self) -> bool {
        MAX_CLASSIFY_TASK_IDS <= self.page <= AUTO_SELECT_MAX_PAGE
    }

    /// The first page is as large as a run.
    pub fn new() -> (r: Self)
        ensures
            r@ == MAX_CLASSIFY_TASK_IDS,
    {
        AutoSelect { page: 20 }
    }

    /// How much of the inbox to read.
    pub fn page(&self) -> (r: u32)
        ensures
            r == self@,
            MAX_CLASSIFY_TASK_IDS <= r <= AUTO_SELECT_MAX_PAGE,
    {
        proof {
            use_type_invariant(self);
        }
        self.page
    }

    /// Takes the page that was read, `None` when the read failed, and what
    /// the deduplication of its tasks came back with. A failed read of the
    /// inbox ends the choice without targets; a failed deduplication keeps
    /// every task of the page.
    pub fn step(
        self,
        candidates: Option<Vec<Task>>,
        rejected: &Vec<RejectedOpsRow>,
        reads: ClassifyReads,
    ) -> (r: AutoStep)
        ensures
            r.deep_view() == match candidates {
                None => AutoStepV::Done(Seq::empty()),
                Some(tasks) => after_page(
                    self@,
                    tasks.deep_view(),
                    if reads.pending is Ok {
                        reads.situation(tasks.deep_view(), rejected.deep_view()).kept()
                    } else {
                        tasks.deep_view()
                    },
                ),
            },
            r matches AutoStep::More(next) ==> self@ < next@ <= AUTO_SELECT_MAX_PAGE,
            r matches AutoStep::Done(targets) ==> targets@.len() <= MAX_CLASSIFY_TASK_IDS,
    {
        proof {
            use_type_invariant(&self);
        }
        let candidates = match candidates {
            Some(tasks) => tasks,
            None => {
                let none: Vec<Task> = Vec::new();
                assert(none.deep_view() =~= Seq::empty());
                return AutoStep::Done(none);
            },
        };
        let n: usize = candidates.len();
        assert(candidates.deep_view().len() == n);
        let exhausted = n < self.page as usize;
        let mut kept = match dedup_targets_with_rejected(&candidates, rejected, reads) {
            Ok(split) => split.0,
            Err(_) => candidates,
        };
        let ghost all = kept.deep_view();
        assert(all.len() == kept@.len());
        if kept.len() >= MAX_CLASSIFY_TASK_IDS || exhausted || self.page >= AUTO_SELECT_MAX_PAGE {
            kept.truncate(MAX_CLASSIFY_TASK_IDS);
            assert(kept.deep_view() =~= first_targets(all));
            AutoStep::Done(kept)
        } else {
            let page: u32 = if self.page * 2 <= AUTO_SELECT_MAX_PAGE {
                self.page * 2
            } else {
                AUTO_SELECT_MAX_PAGE
            };
            AutoStep::More(AutoSelect { page })
        }
    }
}

// ---- running ----

/// What a run works on: the targets and the skipped ones, or all the targets
/// when the deduplication failed.
pub fn classify_plan(
    targets: Vec<Task>,
    rejected: Result<Vec<RejectedOpsRow>, StoreError>,
    reads: ClassifyReads,
) -> (r: (Vec<Task>, Vec<(TaskId, &'static str)>))
    ensures
        ({
            let s = reads.situation(targets.deep_view(), rows_or_none(rejected));
            if reads.pending is Ok {
                r.0.deep_view() == s.kept() && r.1.deep_view() == s.skipped()
            } else {
                r.0 == targets && r.1@.len() == 0
            }
        }),
{
    match dedup_targets(&targets, rejected, reads) {
        Ok(split) => split,
        Err(_) => (targets, Vec::new()),
    }
}

/// What became of one target.
#[derive(Debug)]
pub enum ItemResult {
    /// A proposal was submitted, under this id.
    Proposed(String),
    Nothing,
    Deferred,
    Rejected,
    Aborted,
}

/// One target of a run, and what became of it.
#[derive(Debug)]
pub struct ClassifyItem {
    pub task_id: TaskId,
    pub result: ItemResult,
    pub reason: Option<&'static str>,
}

/// The word a result is shown as.
pub open spec fn result_word(r: ItemResult) -> Seq<char> {
    match r {
        ItemResult::Proposed(_) => "proposed"@,
        ItemResult::Nothing => "nothing"@,
        ItemResult::Deferred => "deferred"@,
        ItemResult::Rejected => "rejected"@,
        ItemResult::Aborted => "aborted"@,
    }
}

/// The word a result is shown as.
pub fn item_result_str(r: &ItemResult) -> (word: &'static str)
    ensures
        word@ == result_word(*r),
{
    match r {
        ItemResult::Proposed(_) => "proposed",
        ItemResult::Nothing => "nothing",
        ItemResult::Deferred => "deferred",
        ItemResult::Rejected => "rejected",
        ItemResult::Aborted => "aborted",
    }
}

/// A skipped target as it is shown.
pub open spec fn skipped_item(s: (Seq<char>, Seq<char>)) -> ItemV {
    ItemV { target: s.0, result: "skipped"@, reason: Some(s.1) }
}

/// A target that was looked at, as it is shown.
pub open spec fn outcome_item(o: ClassifyItem) -> ItemV {
    ItemV {
        target: o.task_id@,
        result: result_word(o.result),
        reason: match o.reason {
            Some(why) => Some(why@),
            None => None,
        },
    }
}

/// What is shown of a run: the skipped targets, then the others.
pub open spec fn run_items(
    skipped: Seq<(Seq<char>, Seq<char>)>,
    outcomes: Seq<ClassifyItem>,
) -> Seq<ItemV> {
    skipped.map_values(|s: (Seq<char>, Seq<char>)| skipped_item(s)) + outcomes.map_values(
        |o: ClassifyItem| outcome_item(o),
    )
}

/// What is shown of a run: the skipped targets, then the others.
pub fn build_classify_run_items(
    skipped: Vec<(TaskId, &'static str)>,
    outcomes: Vec<ClassifyItem>,
) -> (r: Vec<AiRunItem>)
    ensures
        r.deep_view() == run_items(skipped.deep_view(), outcomes@),
{
    let ghost first = skipped.deep_view();
    let ghost given = skipped@;
    let ghost second = outcomes@;
    let mut items: Vec<AiRunItem> = Vec::new();
    for s in it: skipped
        invariant
            it.seq() == given,
            first.len() == given.len(),
            forall|j: int| 0 <= j < given.len() ==> #[trigger] first[j] == (given[j].0@, given[j].1@),
            items@.len() == it.index(),
            forall|j: int|
                0 <= j < items@.len() ==> (#[trigger] items@[j]).deep_view() == skipped_item(first[j]),
    {
        items.push(AiRunItem { target: s.0, result: "skipped".to_owned(), reason: Some(s.1) });
    }
    for o in it: outcomes
        invariant
            it.seq() == second,
            items@.len() == first.len() + it.index(),
            forall|j: int|
                0 <= j < first.len() ==> (#[trigger] items@[j]).deep_view() == skipped_item(first[j]),
            forall|j: int|
                first.len() <= j < items@.len() ==> (#[trigger] items@[j]).deep_view()
                    == outcome_item(second[j - first.len()]),
    {
        let result = item_result_str(&o.result).to_owned();
        items.push(AiRunItem { target: o.task_id, result, reason: o.reason });
    }
    assert(items.deep_view() =~= run_items(first, second));
    items
}

/// Some target was aborted.
pub open spec fn any_aborted(outcomes: Seq<ClassifyItem>) -> bool {
    exists|i: int| 0 <= i < outcomes.len() && (#[trigger] outcomes[i]).result is Aborted
}

fn has_aborted(outcomes: &Vec<ClassifyItem>) -> (r: bool)
    ensures
        r == any_aborted(outcomes@),
{
    let mut i: usize = 0;
    while i < outcomes.len()
        invariant
            i <= outcomes@.len(),
            forall|j: int| 0 <= j < i ==> !((#[trigger] outcomes@[j]).result is Aborted),
        decreases outcomes@.len() - i,
    {
        if let ItemResult::Aborted = &outcomes[i].result {
            assert(outcomes@[i as int].result is Aborted);
            return true;
        }
        i = i + 1;
    }
    false
}

/// How a run ends. `outcomes` is `None` when the run took longer than it may:
/// it then ends as aborted, and only the skipped targets are shown.
pub fn classify_end(
    skipped: Vec<(TaskId, &'static str)>,
    outcomes: Option<Vec<ClassifyItem>>,
) -> (r: (&'static str, Vec<AiRunItem>))
    ensures
        match outcomes {
            Some(o) => {
                &&& r.0@ == if any_aborted(o@) {
                    "aborted"@
                } else {
                    "done"@
                }
                &&& r.1.deep_view() == run_items(skipped.deep_view(), o@)
            },
            None => r.0@ == "aborted"@ && r.1.deep_view() == run_items(
                skipped.deep_view(),
                Seq::empty(),
            ),
        },
        r.0@ == "aborted"@ || r.0@ == "done"@,
        r.0@ == "done"@ <==> (outcomes matches Some(o) && forall|k: int|
            0 <= k < o@.len() ==> !((#[trigger] o@[k]).result is Aborted)),
        outcomes matches Some(o) ==> r.1@.len() == skipped@.len() + o@.len(),
        outcomes is None ==> r.1@.len() == skipped@.len(),
{
    proof {
        reveal_strlit("aborted");
        reveal_strlit("done");
        assert("aborted"@.len() != "done"@.len());
    }
    match outcomes {
        Some(outcomes) => {
            let word: &'static str = if has_aborted(&outcomes) {
                "aborted"
            } else {
                "done"
            };
            (word, build_classify_run_items(skipped, outcomes))
        },
        None => ("aborted", build_classify_run_items(skipped, Vec::new())),
    }
}

// ---- laws ----

proof fn lemma_split(s: InboxSituationV, targets: Seq<TaskV>)
    ensures
        targets.filter_map(s.keep()).len() + targets.filter_map(s.skip()).len() == targets.len(),
    decreases targets.len(),
{
    reveal(Seq::filter_map);
    if targets.len() > 0 {
        lemma_split(s, targets.drop_last());
        let last = targets.last();
        assert((s.keep())(last) is Some <==> (s.skip())(last) is None);
    }
}

/// Every target is either left to classify or left alone for a stated reason,
/// never both, and none is lost.
pub proof fn law_targets_are_split(s: InboxSituationV, t: TaskV)
    requires
        s.targets.contains(t),
    ensures
        s.kept().len() + s.skipped().len() == s.targets.len(),
        s.reason(t.id) is None <==> s.kept().contains(t),
        s.reason(t.id) matches Some(why) ==> s.skipped().contains((t.id, why)),
        forall|why: Seq<char>| #[trigger]
            s.skipped().contains((t.id, why)) ==> s.reason(t.id) == Some(why),
{
    lemma_split(s, s.targets);
    if s.reason(t.id) is None {
        lemma_picked(s.targets, s.keep(), t, t);
    }
    if s.kept().contains(t) {
        let u = lemma_picked_from(s.targets, s.keep(), t);
        assert(u == t);
    }
    assert forall|why: Seq<char>| #[trigger] s.skipped().contains((t.id, why)) == (s.reason(t.id)
        == Some(why)) by {
        if s.reason(t.id) == Some(why) {
            lemma_picked(s.targets, s.skip(), t, (t.id, why));
        }
        if s.skipped().contains((t.id, why)) {
            let u = lemma_picked_from(s.targets, s.skip(), (t.id, why));
            assert(u.id == t.id);
        }
    }
    if s.reason(t.id) is Some {
        assert(s.skipped().contains((t.id, s.reason(t.id)->0)));
    }
}

/// Whether a task counts as already pending does not depend on the rejections
/// or on any read about them.
pub proof fn law_pending_is_independent_of_rejections(
    s: InboxSituationV,
    t: InboxSituationV,
    id: Seq<char>,
)
    requires
        s.targets == t.targets,
        s.pending == t.pending,
        s.valid == t.valid,
    ensures
        s.already_pending(id) == t.already_pending(id),
        s.reason(id) == Some("dedup"@) <==> t.reason(id) == Some("dedup"@),
{
    reveal_strlit("dedup");
    reveal_strlit("suppressed_rejected");
    assert("dedup"@ != "suppressed_rejected"@) by {
        assert("dedup"@.len() != "suppressed_rejected"@.len());
    }
    if s.already_pending(id) {
        let k = choose|k: int| s.pending_for(k, id);
        assert(t.pending_for(k, id));
    }
    if t.already_pending(id) {
        let k = choose|k: int| t.pending_for(k, id);
        assert(s.pending_for(k, id));
    }
}

proof fn lemma_query(s: InboxSituationV, k: int)
    requires
        0 <= k < s.queries().len(),
    ensures
        latest_rejection(s.rejected, s.queries()[k].0) == Some(s.queries()[k].1),
        !s.already_pending(s.queries()[k].0),
{
    let q = s.queries()[k];
    assert(s.queries().contains(q));
    let t = lemma_picked_from(s.targets, s.query(), q);
    assert((s.query())(t) == Some(q));
}

/// A task that was never rejected is never suppressed.
pub proof fn law_only_rejected_tasks_are_suppressed(s: InboxSituationV, id: Seq<char>)
    requires
        latest_rejection(s.rejected, id) is None,
    ensures
        !s.suppressed(id),
{
    if s.suppressed(id) {
        let k = choose|k: int| s.unchanged_since(k, id);
        lemma_query(s, k);
    }
}

/// An eligible direction created after the rejected proposal lifts the
/// suppression.
pub proof fn law_a_new_direction_lifts_suppression(
    s: InboxSituationV,
    id: Seq<char>,
    since: Seq<char>,
    created_at: Seq<char>,
)
    requires
        latest_rejection(s.rejected, id) == Some(since),
        s.max_new_direction == Some(Some(created_at)),
        text_lt(since, created_at),
    ensures
        !s.suppressed(id),
{
    if s.suppressed(id) {
        let k = choose|k: int| s.unchanged_since(k, id);
        lemma_query(s, k);
    }
}

/// Where the newest eligible direction could not be read, no task is
/// suppressed: a rejected one is proposed again rather than hidden.
pub proof fn law_a_failed_read_of_the_directions_suppresses_nothing(
    s: InboxSituationV,
    id: Seq<char>,
)
    requires
        s.max_new_direction is None,
    ensures
        !s.suppressed(id),
        s.reason(id) is Some ==> s.already_pending(id),
{
}

/// A task that was modified since, or of which that could not be read, is not
/// suppressed.
pub proof fn law_a_modified_task_is_not_suppressed(s: InboxSituationV, id: Seq<char>)
    requires
        forall|k: int|
            0 <= k < s.queries().len() && k < s.modified.len() && (#[trigger] s.queries()[k]).0
                == id ==> s.modified[k] != Some(false),
    ensures
        !s.suppressed(id),
{
    if s.suppressed(id) {
        let k = choose|k: int| s.unchanged_since(k, id);
        assert(s.queries()[k].0 == id);
    }
}

/// As long as neither the task nor the eligible directions changed, a rejected
/// assignment is not proposed again.
pub proof fn law_a_rejection_stands_while_nothing_changes(
    s: InboxSituationV,
    t: TaskV,
    since: Seq<char>,
)
    requires
        s.targets.contains(t),
        !s.already_pending(t.id),
        latest_rejection(s.rejected, t.id) == Some(since),
        s.no_new_direction(since),
        s.modified.len() == s.queries().len(),
        forall|k: int| 0 <= k < s.modified.len() ==> s.modified[k] == Some(false),
    ensures
        s.reason(t.id) == Some("suppressed_rejected"@),
        s.skipped().contains((t.id, "suppressed_rejected"@)),
{
    assert((s.query())(t) == Some((t.id, since)));
    lemma_picked(s.targets, s.query(), t, (t.id, since));
    let k = choose|k: int| 0 <= k < s.queries().len() && s.queries()[k] == (t.id, since);
    assert(s.unchanged_since(k, t.id));
    law_targets_are_split(s, t);
}

/// Only the most recent rejection of a task counts.
pub proof fn law_the_latest_rejection_counts(
    earlier: Seq<RejectedV>,
    latest: RejectedV,
    id: Seq<char>,
)
    ensures
        latest_rejection(earlier.push(latest), id) == if assigns(latest, id) {
            Some(latest.proposed_at)
        } else {
            latest_rejection(earlier, id)
        },
{
    assert(earlier.push(latest).drop_last() =~= earlier);
    assert(earlier.push(latest).last() == latest);
}

/// The page after `n` enlargements.
pub open spec fn page_after(n: nat) -> u32
    decreases n,
{
    if n == 0 {
        MAX_CLASSIFY_TASK_IDS as u32
    } else {
        next_page(page_after((n - 1) as nat))
    }
}

/// Choosing targets reads the inbox at most eight times: the eighth page is
/// the largest, and ends the choice whatever it holds.
pub proof fn law_choosing_targets_ends(candidates: Seq<TaskV>, kept: Seq<TaskV>)
    ensures
        page_after(7) == AUTO_SELECT_MAX_PAGE,
        after_page(page_after(7), candidates, kept) is Done,
{
    reveal_with_fuel(page_after, 8);
}

/// The chosen targets are no more than one run looks at, and are the first
/// ones left after the deduplication.
pub proof fn law_the_first_targets_are_chosen(
    page: u32,
    candidates: Seq<TaskV>,
    kept: Seq<TaskV>,
)
    ensures
        after_page(page, candidates, kept) matches AutoStepV::Done(targets) ==> targets.len()
            <= MAX_CLASSIFY_TASK_IDS && targets.is_prefix_of(kept) && (targets.len()
            == MAX_CLASSIFY_TASK_IDS || targets == kept),
{
}

/// What a page of `inbox` holds: its oldest tasks.
pub open spec fn page_of(inbox: Seq<TaskV>, page: u32) -> Seq<TaskV> {
    if inbox.len() <= page {
        inbox
    } else {
        inbox.take(page as int)
    }
}

/// The targets that choosing from `inbox` ends with, from `page` on, where
/// `situations` gives the situation that the deduplication of each page finds.
pub open spec fn chosen(
    inbox: Seq<TaskV>,
    situations: spec_fn(u32) -> InboxSituationV,
    page: u32,
) -> Seq<TaskV>
    decreases AUTO_SELECT_MAX_PAGE - page,
{
    match after_page(page, page_of(inbox, page), situations(page).kept()) {
        AutoStepV::Done(targets) => targets,
        AutoStepV::More(next) => if page < next <= AUTO_SELECT_MAX_PAGE {
            chosen(inbox, situations, next)
        } else {
            Seq::empty()
        },
    }
}

proof fn lemma_kept(s: InboxSituationV, targets: Seq<TaskV>, left: spec_fn(TaskV) -> bool)
    requires
        forall|t: TaskV| #[trigger] left(t) == (s.reason(t.id) is None),
    ensures
        targets.filter_map(s.keep()) == targets.filter(left),
    decreases targets.len(),
{
    reveal(Seq::filter);
    if targets.len() > 0 {
        lemma_kept(s, targets.drop_last(), left);
        let last = targets.last();
        assert(left(last) == (s.reason(last.id) is None));
        assert(targets.filter_map(s.keep()) =~= targets.filter(left));
    }
}

proof fn lemma_chosen(
    inbox: Seq<TaskV>,
    situations: spec_fn(u32) -> InboxSituationV,
    left: spec_fn(TaskV) -> bool,
    page: u32,
)
    requires
        MAX_CLASSIFY_TASK_IDS <= page <= AUTO_SELECT_MAX_PAGE,
        forall|p: u32|
            MAX_CLASSIFY_TASK_IDS <= p <= AUTO_SELECT_MAX_PAGE ==> (#[trigger] situations(
                p,
            )).targets == page_of(inbox, p),
        forall|p: u32, t: TaskV|
            MAX_CLASSIFY_TASK_IDS <= p <= AUTO_SELECT_MAX_PAGE ==> #[trigger] left(t) == ((
            #[trigger] situations(p)).reason(t.id) is None),
    ensures
        chosen(inbox, situations, page) == first_targets(
            page_of(inbox, AUTO_SELECT_MAX_PAGE).filter(left),
        ),
    decreases AUTO_SELECT_MAX_PAGE - page,
{
    let here = page_of(inbox, page);
    let most = page_of(inbox, AUTO_SELECT_MAX_PAGE);
    let kept = situations(page).kept();
    assert(situations(page).targets == here);
    lemma_kept(situations(page), here, left);
    assert(kept == here.filter(left));
    let rest = most.skip(here.len() as int);
    assert(most =~= here + rest);
    Seq::filter_distributes_over_add(here, rest, left);
    let all = most.filter(left);
    assert(all == kept + rest.filter(left));
    if kept.len() >= MAX_CLASSIFY_TASK_IDS {
        assert(first_targets(kept) =~= first_targets(all));
    } else if here.len() < page || page >= AUTO_SELECT_MAX_PAGE {
        assert(here =~= most);
    } else {
        lemma_chosen(inbox, situations, left, next_page(page));
    }
}

/// Whichever page ends the choice, it gives the first tasks that are left
/// among the oldest of the inbox: no more than one run looks at, out of no
/// more than the largest page. This holds where every page is read from one
/// inbox and whether a task is left does not depend on the page.
pub proof fn law_the_oldest_tasks_left_are_chosen(
    inbox: Seq<TaskV>,
    situations: spec_fn(u32) -> InboxSituationV,
    left: spec_fn(TaskV) -> bool,
)
    requires
        forall|p: u32|
            MAX_CLASSIFY_TASK_IDS <= p <= AUTO_SELECT_MAX_PAGE ==> (#[trigger] situations(
                p,
            )).targets == page_of(inbox, p),
        forall|p: u32, t: TaskV|
            MAX_CLASSIFY_TASK_IDS <= p <= AUTO_SELECT_MAX_PAGE ==> #[trigger] left(t) == ((
            #[trigger] situations(p)).reason(t.id) is None),
    ensures
        chosen(inbox, situations, MAX_CLASSIFY_TASK_IDS as u32) == first_targets(
            page_of(inbox, AUTO_SELECT_MAX_PAGE).filter(left),
        ),
{
    lemma_chosen(inbox, situations, left, MAX_CLASSIFY_TASK_IDS as u32);
}

/// The drafts that are checked again are those of the proposals that are still
/// pending and whose one operation assigns a direction to a target, in order
/// and as they were proposed.
pub proof fn law_assignments_of_targets_are_checked_again(
    s: InboxSituationV,
    pick: spec_fn(ProposalV) -> bool,
)
    requires
        forall|p: ProposalV| #[trigger]
            pick(p) == (p.status == ProposalStatus::Pending && p.ops.len() == 1 && (
            p.ops[0] matches OpV::AssignTaskDirection { task_id, .. } && exists|i: int|
                0 <= i < s.targets.len() && #[trigger] s.targets[i].id == task_id)),
    ensures
        assignment_drafts(s.targets, s.pending) == s.pending.filter(pick).map_values(
            |p: ProposalV| DraftV { id: p.id, ops: p.ops, rationale: p.rationale },
        ),
        s.drafts() == assignment_drafts(s.targets, s.pending),
{
    let change = |p: ProposalV| DraftV { id: p.id, ops: p.ops, rationale: p.rationale };
    let f = assignment_draft(s.targets);
    assert forall|p: ProposalV| #[trigger]
        f(p) == if pick(p) {
            Some(change(p))
        } else {
            None
        } by {
        assert(pick(p) == (p.status == ProposalStatus::Pending && (
        assigned_task(p.ops) matches Some(id) && is_target(s.targets, id))));
    }
    lemma_pick_then_change(s.pending, f, pick, change);
}

/// A task counts as pending exactly when one of the drafts that still apply,
/// whichever it is, assigns a direction to it.
pub proof fn law_what_counts_as_pending(s: InboxSituationV, id: Seq<char>)
    ensures
        s.reason(id) == Some("dedup"@) <==> exists|k: int|
            0 <= k < s.drafts().len() && k < s.valid.len() && #[trigger] s.valid[k]
                && s.drafts()[k].ops.len() == 1 && (
            s.drafts()[k].ops[0] matches OpV::AssignTaskDirection { task_id, .. } && task_id == id),
{
    reveal_strlit("dedup");
    reveal_strlit("suppressed_rejected");
    assert("dedup"@.len() != "suppressed_rejected"@.len());
    if s.already_pending(id) {
        let k = choose|k: int| s.pending_for(k, id);
        assert(s.valid[k]);
    }
    if exists|k: int|
        0 <= k < s.drafts().len() && k < s.valid.len() && #[trigger] s.valid[k]
            && s.drafts()[k].ops.len() == 1 && (
        s.drafts()[k].ops[0] matches OpV::AssignTaskDirection { task_id, .. } && task_id == id) {
        let k = choose|k: int|
            0 <= k < s.drafts().len() && k < s.valid.len() && #[trigger] s.valid[k]
                && s.drafts()[k].ops.len() == 1 && (
            s.drafts()[k].ops[0] matches OpV::AssignTaskDirection { task_id, .. } && task_id == id);
        assert(s.pending_for(k, id));
    }
}

proof fn lemma_last_rejection(rejected: Seq<RejectedV>, id: Seq<char>, last: int)
    requires
        -1 <= last < rejected.len(),
        last >= 0 ==> assigns(rejected[last], id),
        forall|l: int| last < l < rejected.len() ==> !assigns(#[trigger] rejected[l], id),
    ensures
        latest_rejection(rejected, id) == if last >= 0 {
            Some(rejected[last].proposed_at)
        } else {
            None
        },
    decreases rejected.len(),
{
    if last < rejected.len() - 1 {
        assert(!assigns(rejected[rejected.len() - 1], id));
        assert forall|l: int| last < l < rejected.len() - 1 implies !assigns(
            #[trigger] rejected.drop_last()[l],
            id,
        ) by {
            assert(rejected.drop_last()[l] == rejected[l]);
        }
        lemma_last_rejection(rejected.drop_last(), id, last);
    }
}

/// Each target that is not pending and that some rejected proposal assigns a
/// direction to, by any of its operations, is asked about, in order: whether it
/// was modified since the last such proposal was made. `last` gives the index
/// of that proposal, or -1 where there is none.
pub proof fn law_rejected_targets_are_asked_about(
    s: InboxSituationV,
    last: spec_fn(Seq<char>) -> int,
)
    requires
        forall|id: Seq<char>| -1 <= #[trigger] last(id) < s.rejected.len(),
        forall|id: Seq<char>| #[trigger]
            last(id) >= 0 ==> exists|o: int|
                0 <= o < s.rejected[last(id)].ops.len() && (
                #[trigger] s.rejected[last(id)].ops[o] matches OpV::AssignTaskDirection {
                    task_id,
                    ..
                } && task_id == id),
        forall|id: Seq<char>, l: int, o: int|
            #![trigger last(id), s.rejected[l].ops[o]]
            last(id) < l < s.rejected.len() && 0 <= o < s.rejected[l].ops.len() ==> !(
            s.rejected[l].ops[o] matches OpV::AssignTaskDirection { task_id, .. } && task_id == id),
    ensures
        s.queries() == s.targets.filter(
            |t: TaskV| s.reason(t.id) != Some("dedup"@) && last(t.id) >= 0,
        ).map_values(|t: TaskV| (t.id, s.rejected[last(t.id)].proposed_at)),
{
    reveal_strlit("dedup");
    reveal_strlit("suppressed_rejected");
    assert("dedup"@.len() != "suppressed_rejected"@.len());
    let pick = |t: TaskV| s.reason(t.id) != Some("dedup"@) && last(t.id) >= 0;
    let change = |t: TaskV| (t.id, s.rejected[last(t.id)].proposed_at);
    let f = s.query();
    assert forall|t: TaskV| #[trigger]
        f(t) == if pick(t) {
            Some(change(t))
        } else {
            None
        } by {
        let l = last(t.id);
        assert forall|j: int| l < j < s.rejected.len() implies !assigns(
            #[trigger] s.rejected[j],
            t.id,
        ) by {
            if assigns(s.rejected[j], t.id) {
                let o = choose|o: int|
                    0 <= o < s.rejected[j].ops.len() && (
                    #[trigger] s.rejected[j].ops[o] matches OpV::AssignTaskDirection {
                        task_id,
                        ..
                    } && task_id == t.id);
                assert(last(t.id) < j);
                assert(s.rejected[j].ops[o] is AssignTaskDirection);
            }
        }
        lemma_last_rejection(s.rejected, t.id, l);
    }
    lemma_pick_then_change(s.targets, f, pick, change);
}

/// Whether a rejected task is left alone rests on the answer about that task
/// and no other: where some query about it, wherever it stands, was answered
/// that it was not modified, and no eligible direction is newer than the
/// rejected proposal, it is left alone; and without such a query it is not.
pub proof fn law_a_task_is_suppressed_by_its_own_answer(s: InboxSituationV, id: Seq<char>)
    ensures
        s.reason(id) == Some("suppressed_rejected"@) <==> s.reason(id) != Some("dedup"@)
            && exists|k: int|
            0 <= k < s.queries().len() && k < s.modified.len() && (#[trigger] s.queries()[k]).0 == id
                && s.modified[k] == Some(false) && (s.max_new_direction == Some(None::<Seq<char>>) || (
            s.max_new_direction matches Some(Some(newest)) && !text_lt(s.queries()[k].1, newest))),
        s.reason(id) is None || s.reason(id) == Some("dedup"@) || s.reason(id) == Some(
            "suppressed_rejected"@,
        ),
{
    reveal_strlit("dedup");
    reveal_strlit("suppressed_rejected");
    assert("dedup"@.len() != "suppressed_rejected"@.len());
    if s.suppressed(id) {
        let k = choose|k: int| s.unchanged_since(k, id);
        assert(s.queries()[k].0 == id);
    }
    if exists|k: int|
        0 <= k < s.queries().len() && k < s.modified.len() && (#[trigger] s.queries()[k]).0 == id
            && s.modified[k] == Some(false) && (s.max_new_direction == Some(None::<Seq<char>>) || (
        s.max_new_direction matches Some(Some(newest)) && !text_lt(s.queries()[k].1, newest))) {
        let k = choose|k: int|
            0 <= k < s.queries().len() && k < s.modified.len() && (#[trigger] s.queries()[k]).0 == id
                && s.modified[k] == Some(false) && (s.max_new_direction == Some(None::<Seq<char>>) || (
            s.max_new_direction matches Some(Some(newest)) && !text_lt(s.queries()[k].1, newest)));
        assert(s.unchanged_since(k, id));
    }
}

/// The answers about other tasks do not matter: two runs that differ in
/// nothing else treat a task alike.
pub proof fn law_other_answers_do_not_count(s: InboxSituationV, t: InboxSituationV, id: Seq<char>)
    requires
        s.targets == t.targets,
        s.pending == t.pending,
        s.valid == t.valid,
        s.rejected == t.rejected,
        s.max_new_direction == t.max_new_direction,
        s.modified.len() == t.modified.len(),
        forall|k: int|
            0 <= k < s.queries().len() && k < s.modified.len() && (#[trigger] s.queries()[k]).0 == id
                ==> s.modified[k] == t.modified[k],
    ensures
        s.reason(id) == t.reason(id),
{
    law_pending_is_independent_of_rejections(s, t, id);
    lemma_same_queries(s, t);
    if s.suppressed(id) {
        let k = choose|k: int| s.unchanged_since(k, id);
        assert(s.queries()[k].0 == id);
        assert(t.unchanged_since(k, id));
    }
    if t.suppressed(id) {
        let k = choose|k: int| t.unchanged_since(k, id);
        assert(s.queries()[k].0 == id);
        assert(s.unchanged_since(k, id));
    }
}

/// What is asked does not depend on what is answered.
proof fn lemma_same_queries(s: InboxSituationV, t: InboxSituationV)
    requires
        s.targets == t.targets,
        s.pending == t.pending,
        s.valid == t.valid,
        s.rejected == t.rejected,
    ensures
        s.queries() == t.queries(),
{
    assert forall|u: TaskV| #[trigger] (s.query())(u) == (t.query())(u) by {
        law_pending_is_independent_of_rejections(s, t, u.id);
    }
    assert(s.query() =~= t.query());
}

/// The targets that are left are those without a reason, and those left alone
/// are the others, each with its reason, both in order.
pub proof fn law_the_split_keeps_the_order(s: InboxSituationV)
    ensures
        s.kept() == s.targets.filter(|t: TaskV| s.reason(t.id) is None),
        s.skipped() == s.targets.filter(|t: TaskV| s.reason(t.id) is Some).map_values(
            |t: TaskV| (t.id, s.reason(t.id)->0),
        ),
{
    let left = |t: TaskV| s.reason(t.id) is None;
    lemma_kept(s, s.targets, left);
    let pick = |t: TaskV| s.reason(t.id) is Some;
    let change = |t: TaskV| (t.id, s.reason(t.id)->0);
    lemma_pick_then_change(s.targets, s.skip(), pick, change);
}

/// The situation is what was read, and a failed read of the rejections shows
/// none.
pub proof fn law_the_situation_is_what_was_read(
    reads: ClassifyReads,
    targets: Seq<TaskV>,
    rejected: Result<Vec<RejectedOpsRow>, StoreError>,
    pending: Vec<Sin90Proposal>,
)
    requires
        reads.pending == Ok::<Vec<Sin90Proposal>, StoreError>(pending),
    ensures
        ({
            let s = reads.situation(targets, rows_or_none(rejected));
            &&& s.targets == targets
            &&& s.pending == pending.deep_view()
            &&& s.valid == reads.valid@
            &&& s.modified == reads.modified@
            &&& reads.max_new_direction is Err <==> s.max_new_direction is None
            &&& reads.max_new_direction matches Ok(None) ==> s.max_new_direction == Some(
                None::<Seq<char>>,
            )
            &&& reads.max_new_direction matches Ok(Some(newest)) ==> s.max_new_direction == Some(
                Some(newest@),
            )
            &&& rejected matches Ok(rows) ==> s.rejected == rows.deep_view()
            &&& rejected is Err ==> s.rejected.len() == 0
        }),
{
}

/// A request is refused for its caller first, then for its body, then for the
/// tasks it names. Where it names none, what was selected does not matter.
pub proof fn law_what_a_classification_is_refused_for(
    sender: Option<Actor>,
    parsed: Result<ClassifyReq, String>,
    selected: Result<Vec<Task>, ClassifyInputError>,
)
    ensures
        classify_refusal(sender, parsed, selected) is None <==> sender is Some && (
        parsed matches Ok(req) && (req.task_ids is None || selected is Ok)),
        sender is None ==> classify_refusal(sender, parsed, selected) == Some(
            error(403, "forbidden"@, "missing or unrecognized actor key"@),
        ),
        sender is Some ==> (parsed matches Err(why) ==> classify_refusal(sender, parsed, selected)
            == Some(
            error(400, "invalid_request"@, "invalid "@ + "ai classify request"@ + ": "@ + why@),
        )),
        sender is Some ==> (parsed matches Ok(req) ==> req.task_ids is Some ==> (
        selected matches Err(e) ==> classify_refusal(sender, parsed, selected) == Some(
            input_error(e),
        ))),
        parsed matches Ok(req) ==> req.task_ids is None ==> explicit_targets(parsed, selected)
            is None,
        parsed matches Ok(req) ==> req.task_ids is Some ==> (selected matches Ok(tasks)
            ==> explicit_targets(parsed, selected) == Some(tasks)),
{
}

/// What refused tasks are answered.
pub proof fn law_what_refused_tasks_are_answered(id: TaskId, message: String)
    ensures
        input_error(ClassifyInputError::EmptyTaskIds) == error(
            400,
            "invalid_request"@,
            "task_ids was given but empty; omit it entirely to auto-select from the inbox"@,
        ),
        input_error(ClassifyInputError::TooManyTaskIds) == error(
            400,
            "invalid_request"@,
            "task_ids must have at most 20 entries"@,
        ),
        input_error(ClassifyInputError::TaskNotInInbox(id)) == error(
            400,
            "invalid_request"@,
            "task "@ + id@ + " is not in the inbox"@,
        ),
        input_error(ClassifyInputError::DuplicateTaskId(id)) == error(
            400,
            "invalid_request"@,
            "task_ids contains "@ + id@ + " more than once"@,
        ),
        input_error(ClassifyInputError::ReadFailed(message)) == error(500, "internal"@, message@),
{
}

/// A page ends the choice exactly when it leaves twenty tasks, when it is not
/// full, or when it is the largest; the choice is then the first twenty tasks
/// that are left, in order. Otherwise the next page is twice as large, up to
/// the largest of two thousand.
pub proof fn law_how_a_page_is_followed(
    page: u32,
    candidates: Seq<TaskV>,
    kept: Seq<TaskV>,
    i: int,
)
    ensures
        MAX_CLASSIFY_TASK_IDS == 20,
        AUTO_SELECT_MAX_PAGE == 2000,
        after_page(page, candidates, kept) is Done <==> kept.len() >= 20 || candidates.len() < page
            || page >= 2000,
        after_page(page, candidates, kept) matches AutoStepV::Done(targets) ==> targets.len() == (
        if kept.len() < 20 {
            kept.len()
        } else {
            20
        }) && (0 <= i < targets.len() ==> targets[i] == kept[i]),
        after_page(page, candidates, kept) matches AutoStepV::More(next) ==> next == if page
            <= 1000 {
            2 * page
        } else {
            2000
        },
{
}

/// What is shown of a run: as many items as targets, those left alone first,
/// each with its reason, then the others with what became of them.
pub proof fn law_how_a_run_is_shown(
    skipped: Seq<(Seq<char>, Seq<char>)>,
    outcomes: Seq<ClassifyItem>,
    i: int,
)
    ensures
        run_items(skipped, outcomes).len() == skipped.len() + outcomes.len(),
        0 <= i < skipped.len() ==> run_items(skipped, outcomes)[i] == (ItemV {
            target: skipped[i].0,
            result: "skipped"@,
            reason: Some(skipped[i].1),
        }),
        0 <= i < outcomes.len() ==> {
            let shown = run_items(skipped, outcomes)[skipped.len() + i];
            let o = outcomes[i];
            &&& shown.target == o.task_id@
            &&& o.reason is None <==> shown.reason is None
            &&& o.reason matches Some(why) ==> shown.reason == Some(why@)
            &&& o.result is Proposed ==> shown.result == "proposed"@
            &&& o.result is Nothing ==> shown.result == "nothing"@
            &&& o.result is Deferred ==> shown.result == "deferred"@
            &&& o.result is Rejected ==> shown.result == "rejected"@
            &&& o.result is Aborted ==> shown.result == "aborted"@
            &&& shown.result == result_word(o.result)
        },
{
}

/// One aborted target, wherever it stands, aborts the run, and nothing else
/// does.
pub proof fn law_any_aborted_target_aborts_the_run(outcomes: Seq<ClassifyItem>, k: int)
    requires
        0 <= k < outcomes.len(),
    ensures
        outcomes[k].result is Aborted ==> any_aborted(outcomes),
        any_aborted(outcomes) ==> any_aborted(outcomes.take(k)) || outcomes[k].result is Aborted
            || any_aborted(outcomes.skip(k + 1)),
        !any_aborted(Seq::<ClassifyItem>::empty()),
{
    if any_aborted(outcomes) {
        let i = choose|i: int|
            0 <= i < outcomes.len() && (#[trigger] outcomes[i]).result is Aborted;
        if i < k {
            assert(outcomes.take(k)[i].result is Aborted);
        } else if i > k {
            assert(outcomes.skip(k + 1)[i - k - 1].result is Aborted);
        }
    }
}

/// Questions and steps are seen by what they hold.
pub proof fn law_questions_and_steps_are_seen_by_what_they_hold(
    query: ModifiedQuery,
    next: AutoSelect,
    targets: Vec<Task>,
)
    ensures
        query.deep_view().0 == query.task_id@,
        query.deep_view().1 == query.since@,
        AutoStep::More(next).deep_view() == AutoStepV::More(next@),
        AutoStep::Done(targets).deep_view() == AutoStepV::Done(targets.deep_view()),
{
}

} // verus!
