//! The domain values the HTTP layer decides about: proposals and their
//! operations, tasks, AI capabilities and outcomes, and store failures.
use vstd::prelude::*;

verus! {

pub type TaskId = String;

pub type WeekId = String;

pub type DirectionId = String;

/// The three AI capabilities that can be triggered over HTTP.
#[derive(Debug, Clone, Copy, PartialEq, Eq, Structural, Hash)]
pub enum Capability {
    Classify,
    Propose,
    Summarize,
}

impl Capability {
    /// The capability's wire name.
    pub open spec fn name(self) -> Seq<char> {
        match self {
            Capability::Classify => "classify"@,
            Capability::Propose => "propose"@,
            Capability::Summarize => "summarize"@,
        }
    }

    /// The capability's wire name.
    pub fn as_str(self) -> (r: &'static str)
        ensures
            r@ == self.name(),
    {
        match self {
            Capability::Classify => "classify",
            Capability::Propose => "propose",
            Capability::Summarize => "summarize",
        }
    }
}

/// A task a proposal wants to create.
#[derive(Debug)]
pub struct NewTask {
    pub title: String,
    pub direction_id: Option<DirectionId>,
}

#[verifier::ext_equal]
pub struct NewTaskV {
    pub title: Seq<char>,
    pub direction_id: Option<Seq<char>>,
}

impl DeepView for NewTask {
    type V = NewTaskV;

    open spec fn deep_view(&self) -> NewTaskV {
        NewTaskV { title: self.title@, direction_id: self.direction_id.deep_view() }
    }
}

impl Clone for NewTask {
    fn clone(&self) -> (r: Self)
        ensures
            r.deep_view() == self.deep_view(),
    {
        NewTask { title: self.title.clone(), direction_id: self.direction_id.clone() }
    }
}

/// One operation of a proposal. Operations that no rule here looks into are
/// carried as their encoded text.
#[derive(Debug)]
pub enum Sin90Op {
    AssignTaskDirection { task_id: TaskId, direction_id: DirectionId },
    CarryOverTask { task_id: TaskId, to_week: WeekId },
    ReorderTasks { week_id: WeekId, order: Vec<TaskId> },
    CreateTasks { week_id: WeekId, tasks: Vec<NewTask> },
    DraftReviewBody { review_id: String, base_body_sha256: String, body: String },
    Other { encoded: String },
}

#[verifier::ext_equal]
pub enum OpV {
    AssignTaskDirection { task_id: Seq<char>, direction_id: Seq<char> },
    CarryOverTask { task_id: Seq<char>, to_week: Seq<char> },
    ReorderTasks { week_id: Seq<char>, order: Seq<Seq<char>> },
    CreateTasks { week_id: Seq<char>, tasks: Seq<NewTaskV> },
    DraftReviewBody { review_id: Seq<char>, base_body_sha256: Seq<char>, body: Seq<char> },
    Other { encoded: Seq<char> },
}

impl DeepView for Sin90Op {
    type V = OpV;

    open spec fn deep_view(&self) -> OpV {
        match *self {
            Sin90Op::AssignTaskDirection { task_id, direction_id } => OpV::AssignTaskDirection {
                task_id: task_id@,
                direction_id: direction_id@,
            },
            Sin90Op::CarryOverTask { task_id, to_week } => OpV::CarryOverTask {
                task_id: task_id@,
                to_week: to_week@,
            },
            Sin90Op::ReorderTasks { week_id, order } => OpV::ReorderTasks {
                week_id: week_id@,
                order: order.deep_view(),
            },
            Sin90Op::CreateTasks { week_id, tasks } => OpV::CreateTasks {
                week_id: week_id@,
                tasks: tasks.deep_view(),
            },
            Sin90Op::DraftReviewBody { review_id, base_body_sha256, body } => OpV::DraftReviewBody {
                review_id: review_id@,
                base_body_sha256: base_body_sha256@,
                body: body@,
            },
            Sin90Op::Other { encoded } => OpV::Other { encoded: encoded@ },
        }
    }
}

impl Clone for Sin90Op {
    fn clone(&self) -> (r: Self)
        ensures
            r.deep_view() == self.deep_view(),
    {
        match self {
            Sin90Op::AssignTaskDirection { task_id, direction_id } => Sin90Op::AssignTaskDirection {
                task_id: task_id.clone(),
                direction_id: direction_id.clone(),
            },
            Sin90Op::CarryOverTask { task_id, to_week } => Sin90Op::CarryOverTask {
                task_id: task_id.clone(),
                to_week: to_week.clone(),
            },
            Sin90Op::ReorderTasks { week_id, order } => {
                let copied = order.clone();
                assert(copied.deep_view() =~= order.deep_view());
                Sin90Op::ReorderTasks { week_id: week_id.clone(), order: copied }
            },
            Sin90Op::CreateTasks { week_id, tasks } => {
                let copied = tasks.clone();
                assert(copied.deep_view() =~= tasks.deep_view());
                Sin90Op::CreateTasks { week_id: week_id.clone(), tasks: copied }
            },
            Sin90Op::DraftReviewBody { review_id, base_body_sha256, body } => Sin90Op::DraftReviewBody {
                review_id: review_id.clone(),
                base_body_sha256: base_body_sha256.clone(),
                body: body.clone(),
            },
            Sin90Op::Other { encoded } => Sin90Op::Other { encoded: encoded.clone() },
        }
    }
}

/// Copies a list of operations.
pub fn copy_ops(ops: &Vec<Sin90Op>) -> (r: Vec<Sin90Op>)
    ensures
        r.deep_view() == ops.deep_view(),
{
    let r = ops.clone();
    assert(r.deep_view() =~= ops.deep_view());
    r
}

#[derive(Debug, Clone, Copy, PartialEq, Eq, Structural)]
pub enum ProposalStatus {
    Pending,
    Applied,
    Rejected,
}

/// A stored proposal.
#[derive(Debug)]
pub struct Sin90Proposal {
    pub id: String,
    pub status: ProposalStatus,
    pub ops: Vec<Sin90Op>,
    pub rationale: Option<String>,
}

#[verifier::ext_equal]
pub struct ProposalV {
    pub id: Seq<char>,
    pub status: ProposalStatus,
    pub ops: Seq<OpV>,
    pub rationale: Option<Seq<char>>,
}

impl DeepView for Sin90Proposal {
    type V = ProposalV;

    open spec fn deep_view(&self) -> ProposalV {
        ProposalV {
            id: self.id@,
            status: self.status,
            ops: self.ops.deep_view(),
            rationale: self.rationale.deep_view(),
        }
    }
}

/// What of a proposal is checked again before it blocks a new run.
#[derive(Debug)]
pub struct ProposalDraft {
    pub id: String,
    pub ops: Vec<Sin90Op>,
    pub rationale: Option<String>,
}

#[verifier::ext_equal]
pub struct DraftV {
    pub id: Seq<char>,
    pub ops: Seq<OpV>,
    pub rationale: Option<Seq<char>>,
}

impl DeepView for ProposalDraft {
    type V = DraftV;

    open spec fn deep_view(&self) -> DraftV {
        DraftV { id: self.id@, ops: self.ops.deep_view(), rationale: self.rationale.deep_view() }
    }
}

impl ProposalV {
    /// The draft of a stored proposal.
    pub open spec fn draft(self) -> DraftV {
        DraftV { id: self.id, ops: self.ops, rationale: self.rationale }
    }
}

impl Sin90Proposal {
    /// The draft of a stored proposal.
    pub fn to_draft(&self) -> (r: ProposalDraft)
        ensures
            r.deep_view() == self.deep_view().draft(),
    {
        ProposalDraft {
            id: self.id.clone(),
            ops: copy_ops(&self.ops),
            rationale: self.rationale.clone(),
        }
    }
}

/// A proposal a human rejected: its operations and when it was proposed.
#[derive(Debug)]
pub struct RejectedOpsRow {
    pub ops: Vec<Sin90Op>,
    pub proposed_at: String,
}

#[verifier::ext_equal]
pub struct RejectedV {
    pub ops: Seq<OpV>,
    pub proposed_at: Seq<char>,
}

impl DeepView for RejectedOpsRow {
    type V = RejectedV;

    open spec fn deep_view(&self) -> RejectedV {
        RejectedV { ops: self.ops.deep_view(), proposed_at: self.proposed_at@ }
    }
}

/// A task, as far as the rules here read it.
#[derive(Debug)]
pub struct Task {
    pub id: TaskId,
    /// Whether its status is one no work follows.
    pub terminal: bool,
}

#[verifier::ext_equal]
pub struct TaskV {
    pub id: Seq<char>,
    pub terminal: bool,
}

impl DeepView for Task {
    type V = TaskV;

    open spec fn deep_view(&self) -> TaskV {
        TaskV { id: self.id@, terminal: self.terminal }
    }
}

impl Clone for Task {
    fn clone(&self) -> (r: Self)
        ensures
            r.deep_view() == self.deep_view(),
    {
        Task { id: self.id.clone(), terminal: self.terminal }
    }
}

/// Why the store refused or failed.
#[derive(Debug)]
pub enum StoreError {
    NotFound(String),
    /// An illegal status change; holds its description.
    Transition(String),
    /// A proposal that does not apply; holds its description.
    Proposal(String),
    Conflict(String),
    Invalid(String),
    WeekNotOpen(TaskId),
    SameWeekCarry(TaskId),
    Internal(String),
    /// A database failure, and whether it was a foreign-key violation.
    Sqlx { fk_violation: bool },
    Migrate,
    Serde,
}

#[verifier::ext_equal]
pub enum StoreErrorV {
    NotFound(Seq<char>),
    Transition(Seq<char>),
    Proposal(Seq<char>),
    Conflict(Seq<char>),
    Invalid(Seq<char>),
    WeekNotOpen(Seq<char>),
    SameWeekCarry(Seq<char>),
    Internal(Seq<char>),
    Sqlx { fk_violation: bool },
    Migrate,
    Serde,
}

impl DeepView for StoreError {
    type V = StoreErrorV;

    open spec fn deep_view(&self) -> StoreErrorV {
        match *self {
            StoreError::NotFound(m) => StoreErrorV::NotFound(m@),
            StoreError::Transition(m) => StoreErrorV::Transition(m@),
            StoreError::Proposal(m) => StoreErrorV::Proposal(m@),
            StoreError::Conflict(m) => StoreErrorV::Conflict(m@),
            StoreError::Invalid(m) => StoreErrorV::Invalid(m@),
            StoreError::WeekNotOpen(m) => StoreErrorV::WeekNotOpen(m@),
            StoreError::SameWeekCarry(m) => StoreErrorV::SameWeekCarry(m@),
            StoreError::Internal(m) => StoreErrorV::Internal(m@),
            StoreError::Sqlx { fk_violation } => StoreErrorV::Sqlx { fk_violation },
            StoreError::Migrate => StoreErrorV::Migrate,
            StoreError::Serde => StoreErrorV::Serde,
        }
    }
}

impl StoreError {
    /// Whether a reference to a missing row caused the failure.
    pub fn is_fk_violation(&self) -> (r: bool)
        ensures
            r == (*self matches StoreError::Sqlx { fk_violation } && fk_violation),
    {
        match self {
            StoreError::Sqlx { fk_violation } => *fk_violation,
            _ => false,
        }
    }
}

/// The capabilities go by three different names.
pub proof fn law_capability_names()
    ensures
        Capability::Classify.name() == "classify"@,
        Capability::Propose.name() == "propose"@,
        Capability::Summarize.name() == "summarize"@,
{
}

/// The view of an operation has its fields, each under its own name.
pub proof fn law_an_operation_is_seen_by_its_fields(op: Sin90Op)
    ensures
        op matches Sin90Op::AssignTaskDirection { task_id, direction_id } ==> op.deep_view() == (
        OpV::AssignTaskDirection { task_id: task_id@, direction_id: direction_id@ }),
        op matches Sin90Op::CarryOverTask { task_id, to_week } ==> op.deep_view() == (
        OpV::CarryOverTask { task_id: task_id@, to_week: to_week@ }),
        op matches Sin90Op::ReorderTasks { week_id, order } ==> op.deep_view() == (
        OpV::ReorderTasks { week_id: week_id@, order: order.deep_view() }),
        op matches Sin90Op::CreateTasks { week_id, tasks } ==> op.deep_view() == (
        OpV::CreateTasks { week_id: week_id@, tasks: tasks.deep_view() }),
        op matches Sin90Op::DraftReviewBody { review_id, base_body_sha256, body }
            ==> op.deep_view() == (OpV::DraftReviewBody {
            review_id: review_id@,
            base_body_sha256: base_body_sha256@,
            body: body@,
        }),
        op matches Sin90Op::Other { encoded } ==> op.deep_view() == (OpV::Other {
            encoded: encoded@,
        }),
{
}

/// The views of the stored values have their fields, each under its own name.
pub proof fn law_stored_values_are_seen_by_their_fields(
    task: Task,
    new_task: NewTask,
    proposal: Sin90Proposal,
    draft: ProposalDraft,
    row: RejectedOpsRow,
)
    ensures
        task.deep_view().id == task.id@,
        task.deep_view().terminal == task.terminal,
        new_task.deep_view().title == new_task.title@,
        new_task.deep_view().direction_id == new_task.direction_id.deep_view(),
        proposal.deep_view().id == proposal.id@,
        proposal.deep_view().status == proposal.status,
        proposal.deep_view().ops == proposal.ops.deep_view(),
        proposal.deep_view().rationale == proposal.rationale.deep_view(),
        draft.deep_view().id == draft.id@,
        draft.deep_view().ops == draft.ops.deep_view(),
        draft.deep_view().rationale == draft.rationale.deep_view(),
        row.deep_view().ops == row.ops.deep_view(),
        row.deep_view().proposed_at == row.proposed_at@,
        proposal.deep_view().draft().id == proposal.id@,
        proposal.deep_view().draft().ops == proposal.ops.deep_view(),
        proposal.deep_view().draft().rationale == proposal.rationale.deep_view(),
{
}

} // verus!
