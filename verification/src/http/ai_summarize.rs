//! `POST /ai/summarize`: drafting the body of a weekly review, unless a draft
//! is pending or was rejected for the body as it stands.
use super::actor::Actor;
use super::ai_runs::{not_triggered, start_run, trigger_step, AiRunItem, ItemV, Triggered};
use super::route::{parse_error, turned_away, Route};
use super::state::Sin90State;
use super::{error, error_response, Reply, ReplyV};
use crate::lists::{lemma_pick_then_change, lemma_picked, lemma_picked_from};
use crate::model::{
    Capability, DraftV, OpV, ProposalDraft, ProposalV, RejectedOpsRow, RejectedV, Sin90Op,
    Sin90Proposal, StoreError,
};
use crate::text::{join3, join5, same_text};
use axum::http::{HeaderMap, HeaderValue};
use vstd::prelude::*;

verus! {

/// The hash of the body that a lone draft for `review` was written against.
pub open spec fn draft_base(ops: Seq<OpV>, review: Seq<char>) -> Option<Seq<char>> {
    if ops.len() == 1 {
        match ops[0] {
            OpV::DraftReviewBody { review_id, base_body_sha256, .. } => if review_id == review {
                Some(base_body_sha256)
            } else {
                None
            },
            _ => None,
        }
    } else {
        None
    }
}

/// The draft of a pending proposal for `review`.
pub open spec fn body_draft(review: Seq<char>) -> spec_fn(ProposalV) -> Option<DraftV> {
    |p: ProposalV|
        if draft_base(p.ops, review) is Some {
            Some(p.draft())
        } else {
            None
        }
}

/// The pending drafts for `review`.
pub open spec fn body_drafts(review: Seq<char>, pending: Seq<ProposalV>) -> Seq<DraftV> {
    pending.filter_map(body_draft(review))
}

/// The hash of the body the most recently rejected draft for `review` was
/// written against. The rejections are listed oldest first.
pub open spec fn latest_rejected_base(rejected: Seq<RejectedV>, review: Seq<char>) -> Option<
    Seq<char>,
>
    decreases rejected.len(),
{
    if rejected.len() == 0 {
        None
    } else if draft_base(rejected.last().ops, review) is Some {
        draft_base(rejected.last().ops, review)
    } else {
        latest_rejected_base(rejected.drop_last(), review)
    }
}

fn base_of<'a>(ops: &'a Vec<Sin90Op>, review: &str) -> (r: Option<&'a String>)
    ensures
        match r {
            Some(base) => draft_base(ops.deep_view(), review@) == Some(base@),
            None => draft_base(ops.deep_view(), review@) is None,
        },
{
    if ops.len() != 1 {
        return None;
    }
    assert(ops.deep_view()[0] == ops@[0].deep_view());
    match &ops[0] {
        Sin90Op::DraftReviewBody { review_id, base_body_sha256, .. } => if same_text(
            review_id.as_str(),
            review,
        ) {
            Some(base_body_sha256)
        } else {
            None
        },
        _ => None,
    }
}

/// The pending drafts for `review_id`, to be checked again.
pub fn pending_body_drafts(review_id: &str, pending: &Vec<Sin90Proposal>) -> (r: Vec<ProposalDraft>)
    ensures
        r.deep_view() == body_drafts(review_id@, pending.deep_view()),
{
    let ghost all = pending.deep_view();
    let ghost pick = body_draft(review_id@);
    let mut out: Vec<ProposalDraft> = Vec::new();
    let mut i: usize = 0;
    assert(all.take(0).filter_map(pick) =~= Seq::empty()) by {
        reveal(Seq::filter_map);
    }
    assert(out.deep_view() =~= all.take(0).filter_map(pick));
    while i < pending.len()
        invariant
            all == pending.deep_view(),
            pick == body_draft(review_id@),
            i <= all.len(),
            out.deep_view() == all.take(i as int).filter_map(pick),
        decreases all.len() - i,
    {
        let p = &pending[i];
        let ghost before = out.deep_view();
        proof {
            assert(all[i as int] == p.deep_view());
            all.lemma_filter_map_take_succ(pick, i as int);
        }
        if base_of(&p.ops, review_id).is_some() {
            out.push(p.to_draft());
            assert(out.deep_view() =~= before.push(p.deep_view().draft()));
        }
        i = i + 1;
    }
    assert(all.take(i as int) =~= all);
    out
}

fn last_rejected_base<'a>(rejected: &'a Vec<RejectedOpsRow>, review: &str) -> (r: Option<&'a String>)
    ensures
        match r {
            Some(base) => latest_rejected_base(rejected.deep_view(), review@) == Some(base@),
            None => latest_rejected_base(rejected.deep_view(), review@) is None,
        },
{
    let ghost all = rejected.deep_view();
    let mut n: usize = rejected.len();
    assert(all.take(n as int) =~= all);
    while n > 0
        invariant
            all == rejected.deep_view(),
            n <= all.len(),
            latest_rejected_base(all, review@) == latest_rejected_base(
                all.take(n as int),
                review@,
            ),
        decreases n,
    {
        assert(all.take(n as int).last() == rejected@[n - 1].deep_view());
        assert(all.take(n as int).drop_last() =~= all.take(n - 1));
        if let Some(base) = base_of(&rejected[n - 1].ops, review) {
            return Some(base);
        }
        n = n - 1;
    }
    None
}

/// What the reads of a summarizing run's deduplication came back with. A read
/// that was not needed may hold anything.
pub struct SummarizeReads {
    pub pending: Result<Vec<Sin90Proposal>, StoreError>,
    /// Which of `pending_body_drafts` still apply.
    pub valid: Vec<bool>,
    /// The rejected summarizing proposals, oldest first.
    pub rejected: Result<Vec<RejectedOpsRow>, StoreError>,
    /// The hash of the review's body as it stands.
    pub current_body_sha256: Result<String, StoreError>,
}

/// Some draft still applies.
pub open spec fn any_valid(valid: Seq<bool>) -> bool {
    exists|k: int| 0 <= k < valid.len() && valid[k]
}

/// Why a review is left alone, if it is: a pending draft that still applies,
/// or a rejection of a draft for the very same body.
pub open spec fn reason_for(
    review: Seq<char>,
    pending: Seq<ProposalV>,
    valid: Seq<bool>,
    rejected: Seq<RejectedV>,
    current: Seq<char>,
) -> Option<Seq<char>> {
    if body_drafts(review, pending).len() > 0 && any_valid(valid) {
        Some("dedup"@)
    } else if latest_rejected_base(rejected, review) == Some(current) {
        Some("suppressed_rejected"@)
    } else {
        None
    }
}

impl SummarizeReads {
    /// A pending draft that still applies settles the matter.
    pub open spec fn is_pending(&self, review: Seq<char>) -> bool {
        body_drafts(review, self.pending->Ok_0.deep_view()).len() > 0 && any_valid(self.valid@)
    }

    /// The first failed read among those that were needed.
    pub open spec fn failure(&self, review: Seq<char>) -> Option<StoreError> {
        if let Err(e) = self.pending {
            Some(e)
        } else if self.is_pending(review) {
            None
        } else if let Err(e) = self.rejected {
            Some(e)
        } else if latest_rejected_base(self.rejected->Ok_0.deep_view(), review) is None {
            None
        } else if let Err(e) = self.current_body_sha256 {
            Some(e)
        } else {
            None
        }
    }

    /// Why the review is left alone, if it is.
    pub open spec fn reason(&self, review: Seq<char>) -> Option<Seq<char>> {
        reason_for(
            review,
            self.pending->Ok_0.deep_view(),
            self.valid@,
            self.rejected->Ok_0.deep_view(),
            self.current_body_sha256->Ok_0@,
        )
    }
}

fn some_valid(valid: &Vec<bool>) -> (r: bool)
    ensures
        r == any_valid(valid@),
{
    let mut k: usize = 0;
    while k < valid.len()
        invariant
            k <= valid@.len(),
            forall|j: int| 0 <= j < k ==> !valid@[j],
        decreases valid@.len() - k,
    {
        if valid[k] {
            return true;
        }
        k = k + 1;
    }
    false
}

/// Why a run leaves `review_id` alone, if it does.
pub fn dedup_summarize(review_id: &str, reads: SummarizeReads) -> (r: Result<
    Option<&'static str>,
    StoreError,
>)
    ensures
        match r {
            Ok(reason) => {
                &&& reads.failure(review_id@) is None
                &&& match reason {
                    Some(why) => reads.reason(review_id@) == Some(why@),
                    None => reads.reason(review_id@) is None,
                }
            },
            Err(e) => reads.failure(review_id@) == Some(e),
        },
{
    let pending = match reads.pending {
        Ok(v) => v,
        Err(e) => return Err(e),
    };
    let drafts = pending_body_drafts(review_id, &pending);
    assert(drafts.deep_view().len() == drafts@.len());
    if drafts.len() > 0 && some_valid(&reads.valid) {
        return Ok(Some("dedup"));
    }
    let rejected = match reads.rejected {
        Ok(v) => v,
        Err(e) => return Err(e),
    };
    let base = match last_rejected_base(&rejected, review_id) {
        Some(base) => base,
        None => return Ok(None),
    };
    match reads.current_body_sha256 {
        Ok(current) => if same_text(base.as_str(), current.as_str()) {
            Ok(Some("suppressed_rejected"))
        } else {
            Ok(None)
        },
        Err(e) => Err(e),
    }
}

// ---- triggering ----

/// The body of `POST /ai/summarize`.
#[derive(Debug)]
pub struct SummarizeReq {
    pub review_id: String,
}

/// Why a review is refused.
#[derive(Debug)]
pub enum SummarizeInputError {
    UnknownReview(String),
    /// The review's kind as it is shown.
    UnsupportedKind(String),
    /// The review, and its status as it is shown.
    NotDraft(String, String),
    ReadFailed(String),
}

/// The reply to a review that is refused.
pub open spec fn input_error(e: SummarizeInputError) -> ReplyV {
    match e {
        SummarizeInputError::UnknownReview(id) => error(
            404,
            "not_found"@,
            "review "@ + id@ + " does not exist"@,
        ),
        SummarizeInputError::UnsupportedKind(kind) => error(
            400,
            "unsupported_kind"@,
            "summarize only supports weekly reviews, got "@ + kind@,
        ),
        SummarizeInputError::NotDraft(id, status) => error(
            409,
            "conflict"@,
            "review "@ + id@ + " is not a draft (status "@ + status@ + ")"@,
        ),
        SummarizeInputError::ReadFailed(message) => error(500, "internal"@, message@),
    }
}

/// The reply to a review that is refused.
pub fn summarize_input_error(e: SummarizeInputError) -> (r: Reply)
    ensures
        r@ == input_error(e),
{
    match e {
        SummarizeInputError::UnknownReview(id) => {
            let message = join3("review ", id.as_str(), " does not exist");
            error_response(404, "not_found", message.as_str())
        },
        SummarizeInputError::UnsupportedKind(kind) => {
            let mut message: String = "summarize only supports weekly reviews, got ".to_owned();
            message.append(kind.as_str());
            error_response(400, "unsupported_kind", message.as_str())
        },
        SummarizeInputError::NotDraft(id, status) => {
            let message = join5(
                "review ",
                id.as_str(),
                " is not a draft (status ",
                status.as_str(),
                ")",
            );
            error_response(409, "conflict", message.as_str())
        },
        SummarizeInputError::ReadFailed(message) => error_response(
            500,
            "internal",
            message.as_str(),
        ),
    }
}

/// Why a request is refused before the slot is looked at, if it is: first the
/// caller, then the body, then the review it names.
pub open spec fn summarize_refusal(
    sender: Option<Actor>,
    parsed: Result<SummarizeReq, String>,
    selected: Result<String, SummarizeInputError>,
) -> Option<ReplyV> {
    match turned_away(Route::TriggerSummarize, sender) {
        Some(reply) => Some(reply),
        None => match (parsed, selected) {
            (Err(why), _) => Some(parse_error("ai summarize request"@, why@)),
            (Ok(_), Err(e)) => Some(input_error(e)),
            (Ok(_), Ok(_)) => None,
        },
    }
}

/// Answers `POST /ai/summarize`. `selected` is what selecting the named review
/// gave: its id.
pub fn trigger_summarize(
    state: &mut Sin90State,
    headers: &HeaderMap<HeaderValue>,
    parsed: Result<SummarizeReq, String>,
    selected: Result<String, SummarizeInputError>,
    unique: &str,
) -> (r: Triggered<String>)
    ensures
        final(state).actor_keys == old(state).actor_keys,
        trigger_step(
            old(state).ai_runs@,
            final(state).ai_runs@,
            summarize_refusal(old(state).actor_keys.sender(*headers), parsed, selected),
            Capability::Summarize,
            "run-"@ + unique@,
            selected->Ok_0,
            r,
        ),
{
    if let Err(reply) = state.receive(Route::TriggerSummarize, headers, parsed) {
        return not_triggered(reply);
    }
    match selected {
        Ok(review) => start_run(&mut state.ai_runs, Capability::Summarize, unique, review),
        Err(e) => not_triggered(summarize_input_error(e)),
    }
}

// ---- running ----

/// Why a run leaves the review alone: for no reason when the deduplication
/// failed.
pub fn summarize_plan(review_id: &str, reads: SummarizeReads) -> (r: Option<&'static str>)
    ensures
        match r {
            Some(why) => reads.failure(review_id@) is None && reads.reason(review_id@) == Some(
                why@,
            ),
            None => reads.failure(review_id@) is Some || reads.reason(review_id@) is None,
        },
{
    match dedup_summarize(review_id, reads) {
        Ok(reason) => reason,
        Err(_) => None,
    }
}

/// What became of the review.
#[derive(Debug)]
pub enum SummarizeItemResult {
    /// A proposal was submitted, under this id.
    Proposed(String),
    Nothing,
    Deferred,
    Rejected,
    Aborted,
    /// A human wrote in the body.
    Skipped,
    /// The facts could not be read.
    ReadFailed(String),
}

/// The word a result is shown as.
pub open spec fn result_word(r: SummarizeItemResult) -> Seq<char> {
    match r {
        SummarizeItemResult::Proposed(_) => "proposed"@,
        SummarizeItemResult::Nothing => "nothing"@,
        SummarizeItemResult::Deferred => "deferred"@,
        SummarizeItemResult::Rejected => "rejected"@,
        SummarizeItemResult::Aborted | SummarizeItemResult::ReadFailed(_) => "aborted"@,
        SummarizeItemResult::Skipped => "skipped"@,
    }
}

/// The word a result is shown as.
pub fn item_result_str(r: &SummarizeItemResult) -> (word: &'static str)
    ensures
        word@ == result_word(*r),
{
    match r {
        SummarizeItemResult::Proposed(_) => "proposed",
        SummarizeItemResult::Nothing => "nothing",
        SummarizeItemResult::Deferred => "deferred",
        SummarizeItemResult::Rejected => "rejected",
        SummarizeItemResult::Aborted => "aborted",
        SummarizeItemResult::Skipped => "skipped",
        SummarizeItemResult::ReadFailed(_) => "aborted",
    }
}

/// How a run went: it left the review alone for a reason, or it ran.
#[derive(Debug)]
pub enum SummarizeOutcome {
    LeftAlone(&'static str),
    Ran(SummarizeItemResult),
}

/// The review as it is shown.
pub open spec fn outcome_item(review: Seq<char>, outcome: SummarizeOutcome) -> ItemV {
    match outcome {
        SummarizeOutcome::LeftAlone(why) => ItemV {
            target: review,
            result: "skipped"@,
            reason: Some(why@),
        },
        SummarizeOutcome::Ran(result) => ItemV {
            target: review,
            result: result_word(result),
            reason: if result is Skipped {
                Some("human_text"@)
            } else {
                None
            },
        },
    }
}

/// The run ends as aborted.
pub open spec fn is_aborted(outcome: SummarizeOutcome) -> bool {
    outcome matches SummarizeOutcome::Ran(result) && (result is Aborted || result is ReadFailed)
}

/// How a run ends: with the one review, shown. `outcome` is `None` when the
/// run took longer than it may: it then ends as aborted, and nothing is shown.
pub fn summarize_end(review_id: String, outcome: Option<SummarizeOutcome>) -> (r: (
    &'static str,
    Vec<AiRunItem>,
))
    ensures
        match outcome {
            Some(o) => {
                &&& r.0@ == if is_aborted(o) {
                    "aborted"@
                } else {
                    "done"@
                }
                &&& r.1.deep_view() == Seq::empty().push(outcome_item(review_id@, o))
            },
            None => r.0@ == "aborted"@ && r.1@.len() == 0,
        },
{
    let outcome = match outcome {
        Some(o) => o,
        None => return ("aborted", Vec::new()),
    };
    let ghost shown = outcome_item(review_id@, outcome);
    let (word, item): (&'static str, AiRunItem) = match outcome {
        SummarizeOutcome::LeftAlone(why) => (
            "done",
            AiRunItem { target: review_id, result: "skipped".to_owned(), reason: Some(why) },
        ),
        SummarizeOutcome::Ran(result) => {
            let reason: Option<&'static str> = match &result {
                SummarizeItemResult::Skipped => Some("human_text"),
                _ => None,
            };
            let word: &'static str = match &result {
                SummarizeItemResult::Aborted => "aborted",
                SummarizeItemResult::ReadFailed(_) => "aborted",
                _ => "done",
            };
            let result = item_result_str(&result).to_owned();
            (word, AiRunItem { target: review_id, result, reason })
        },
    };
    let mut items: Vec<AiRunItem> = Vec::new();
    items.push(item);
    assert(items.deep_view() =~= Seq::empty().push(shown));
    (word, items)
}

// ---- laws ----

/// Only the most recent rejection of a draft for the review counts.
pub proof fn law_the_latest_rejection_counts(
    earlier: Seq<RejectedV>,
    latest: RejectedV,
    review: Seq<char>,
)
    ensures
        latest_rejected_base(earlier.push(latest), review) == if draft_base(latest.ops, review)
            is Some {
            draft_base(latest.ops, review)
        } else {
            latest_rejected_base(earlier, review)
        },
{
    assert(earlier.push(latest).drop_last() =~= earlier);
    assert(earlier.push(latest).last() == latest);
}

/// A rejected draft is not proposed again for the same body.
pub proof fn law_a_rejection_stands_until_the_body_changes(
    review: Seq<char>,
    pending: Seq<ProposalV>,
    valid: Seq<bool>,
    rejected: Seq<RejectedV>,
    base: Seq<char>,
)
    requires
        latest_rejected_base(rejected, review) == Some(base),
    ensures
        reason_for(review, pending, valid, rejected, base) is Some,
{
}

/// A body other than the one the rejected draft was written against, and no
/// pending draft that still applies: the review is not left alone.
pub proof fn law_an_edited_body_lifts_the_rejection(
    review: Seq<char>,
    pending: Seq<ProposalV>,
    valid: Seq<bool>,
    rejected: Seq<RejectedV>,
    current: Seq<char>,
)
    requires
        latest_rejected_base(rejected, review) != Some(current),
        body_drafts(review, pending).len() == 0 || !any_valid(valid),
    ensures
        reason_for(review, pending, valid, rejected, current) is None,
{
}

/// A pending draft that still applies keeps the review from being drafted
/// again, whatever was rejected.
pub proof fn law_a_pending_draft_blocks(
    review: Seq<char>,
    pending: Seq<ProposalV>,
    valid: Seq<bool>,
    rejected: Seq<RejectedV>,
    current: Seq<char>,
)
    requires
        body_drafts(review, pending).len() > 0,
        any_valid(valid),
    ensures
        reason_for(review, pending, valid, rejected, current) == Some("dedup"@),
{
}

/// A pending draft for the review, wherever it is listed, and any one of the
/// answers that a draft still applies, wherever it stands, leave the review
/// alone: no other answer and no other read matters.
pub proof fn law_any_draft_that_applies_blocks(
    reads: SummarizeReads,
    review: Seq<char>,
    i: int,
    k: int,
)
    requires
        reads.pending is Ok,
        0 <= i < reads.pending->Ok_0@.len(),
        reads.pending->Ok_0@[i].ops@.len() == 1,
        reads.pending->Ok_0@[i].ops@[0] matches Sin90Op::DraftReviewBody { review_id, .. }
            && review_id@ == review,
        0 <= k < reads.valid@.len(),
        reads.valid@[k],
    ensures
        reads.failure(review) is None,
        reads.reason(review) == Some("dedup"@),
{
    let pending = reads.pending->Ok_0.deep_view();
    let p = pending[i];
    assert(p == reads.pending->Ok_0@[i].deep_view());
    assert(p.ops[0] == reads.pending->Ok_0@[i].ops@[0].deep_view());
    assert(pending.contains(p));
    lemma_picked(pending, body_draft(review), p, p.draft());
    assert(body_drafts(review, pending).contains(p.draft()));
    assert(any_valid(reads.valid@));
}

/// Without a pending draft for the review, or without an answer that one still
/// applies, the review is not left alone as pending.
pub proof fn law_nothing_else_counts_as_pending(reads: SummarizeReads, review: Seq<char>)
    requires
        reads.pending is Ok,
        (forall|i: int| #![trigger reads.pending->Ok_0@[i]]
            0 <= i < reads.pending->Ok_0@.len() ==> !(reads.pending->Ok_0@[i].ops@.len() == 1 && (
            reads.pending->Ok_0@[i].ops@[0] matches Sin90Op::DraftReviewBody { review_id, .. }
                && review_id@ == review))) || (forall|k: int|
            0 <= k < reads.valid@.len() ==> !#[trigger] reads.valid@[k]),
    ensures
        reads.reason(review) != Some("dedup"@),
        reads.rejected matches Err(e) ==> reads.failure(review) == Some(e),
{
    let pending = reads.pending->Ok_0.deep_view();
    reveal_strlit("dedup");
    reveal_strlit("suppressed_rejected");
    assert("dedup"@.len() != "suppressed_rejected"@.len());
    if reads.is_pending(review) {
        let d = body_drafts(review, pending)[0];
        let p = lemma_picked_from(pending, body_draft(review), d);
        let i = choose|i: int| 0 <= i < pending.len() && pending[i] == p;
        assert(p == reads.pending->Ok_0@[i].deep_view());
        assert(p.ops[0] == reads.pending->Ok_0@[i].ops@[0].deep_view());
        assert(false);
    }
}

/// The most recent rejected draft for the review is the `j`th: it alone says
/// whether the review is left alone, by the body it was written against.
pub proof fn law_the_last_rejected_draft_decides(
    reads: SummarizeReads,
    review: Seq<char>,
    j: int,
    base: Seq<char>,
)
    requires
        reads.pending is Ok,
        reads.rejected is Ok,
        forall|k: int| 0 <= k < reads.valid@.len() ==> !#[trigger] reads.valid@[k],
        0 <= j < reads.rejected->Ok_0@.len(),
        reads.rejected->Ok_0@[j].ops@.len() == 1,
        reads.rejected->Ok_0@[j].ops@[0] matches Sin90Op::DraftReviewBody {
            review_id,
            base_body_sha256,
            ..
        } && review_id@ == review && base_body_sha256@ == base,
        forall|l: int| #![trigger reads.rejected->Ok_0@[l]]
            j < l < reads.rejected->Ok_0@.len() ==> !(reads.rejected->Ok_0@[l].ops@.len() == 1 && (
            reads.rejected->Ok_0@[l].ops@[0] matches Sin90Op::DraftReviewBody { review_id, .. }
                && review_id@ == review)),
    ensures
        reads.current_body_sha256 matches Err(e) ==> reads.failure(review) == Some(e),
        reads.current_body_sha256 matches Ok(current) ==> reads.failure(review) is None && (
        if current@ == base {
            reads.reason(review) == Some("suppressed_rejected"@)
        } else {
            reads.reason(review) is None
        }),
{
    let rows = reads.rejected->Ok_0.deep_view();
    assert forall|l: int| 0 <= l < rows.len() implies #[trigger] rows[l]
        == reads.rejected->Ok_0@[l].deep_view() && (rows[l].ops.len() > 0 ==> rows[l].ops[0]
        == reads.rejected->Ok_0@[l].ops@[0].deep_view()) by {}
    assert(rows[j].ops[0] == reads.rejected->Ok_0@[j].ops@[0].deep_view());
    assert forall|l: int| j < l < rows.len() implies draft_base((#[trigger] rows[l]).ops, review)
        is None by {
        assert(rows[l] == reads.rejected->Ok_0@[l].deep_view());
    }
    lemma_last_base(rows, review, j);
}

/// Without a rejected draft for the review there is nothing to compare its
/// body with: it is not read, and the review is not left alone for it.
pub proof fn law_without_a_rejected_draft_the_body_does_not_matter(
    reads: SummarizeReads,
    review: Seq<char>,
)
    requires
        reads.pending is Ok,
        reads.rejected is Ok,
        forall|k: int| 0 <= k < reads.valid@.len() ==> !#[trigger] reads.valid@[k],
        forall|l: int| #![trigger reads.rejected->Ok_0@[l]]
            0 <= l < reads.rejected->Ok_0@.len() ==> !(reads.rejected->Ok_0@[l].ops@.len() == 1 && (
            reads.rejected->Ok_0@[l].ops@[0] matches Sin90Op::DraftReviewBody { review_id, .. }
                && review_id@ == review)),
    ensures
        reads.failure(review) is None,
        reads.reason(review) is None,
{
    let rows = reads.rejected->Ok_0.deep_view();
    assert forall|l: int| 0 <= l < rows.len() implies draft_base((#[trigger] rows[l]).ops, review)
        is None by {
        assert(rows[l] == reads.rejected->Ok_0@[l].deep_view());
        if rows[l].ops.len() > 0 {
            assert(rows[l].ops[0] == reads.rejected->Ok_0@[l].ops@[0].deep_view());
        }
    }
    lemma_no_base(rows, review);
}

/// A failed read of the pending proposals fails the deduplication.
pub proof fn law_the_pending_proposals_are_needed(reads: SummarizeReads, review: Seq<char>)
    ensures
        reads.pending matches Err(e) ==> reads.failure(review) == Some(e),
{
}

proof fn lemma_last_base(rows: Seq<RejectedV>, review: Seq<char>, j: int)
    requires
        0 <= j < rows.len(),
        draft_base(rows[j].ops, review) is Some,
        forall|l: int| j < l < rows.len() ==> draft_base((#[trigger] rows[l]).ops, review) is None,
    ensures
        latest_rejected_base(rows, review) == draft_base(rows[j].ops, review),
    decreases rows.len(),
{
    if j < rows.len() - 1 {
        assert(draft_base(rows[rows.len() - 1].ops, review) is None);
        assert forall|l: int| j < l < rows.len() - 1 implies draft_base(
            (#[trigger] rows.drop_last()[l]).ops,
            review,
        ) is None by {
            assert(rows.drop_last()[l] == rows[l]);
        }
        lemma_last_base(rows.drop_last(), review, j);
    }
}

proof fn lemma_no_base(rows: Seq<RejectedV>, review: Seq<char>)
    requires
        forall|l: int| 0 <= l < rows.len() ==> draft_base((#[trigger] rows[l]).ops, review) is None,
    ensures
        latest_rejected_base(rows, review) is None,
    decreases rows.len(),
{
    if rows.len() > 0 {
        assert(draft_base(rows[rows.len() - 1].ops, review) is None);
        assert forall|l: int| 0 <= l < rows.len() - 1 implies draft_base(
            (#[trigger] rows.drop_last()[l]).ops,
            review,
        ) is None by {
            assert(rows.drop_last()[l] == rows[l]);
        }
        lemma_no_base(rows.drop_last(), review);
    }
}

/// The drafts that are checked again are those of the pending proposals whose
/// one operation drafts the review's body, in order and as they were proposed.
pub proof fn law_drafts_for_the_review_are_checked_again(
    review: Seq<char>,
    pending: Seq<ProposalV>,
    pick: spec_fn(ProposalV) -> bool,
)
    requires
        forall|p: ProposalV| #[trigger]
            pick(p) == (p.ops.len() == 1 && (p.ops[0] matches OpV::DraftReviewBody {
                review_id,
                ..
            } && review_id == review)),
    ensures
        body_drafts(review, pending) == pending.filter(pick).map_values(
            |p: ProposalV| DraftV { id: p.id, ops: p.ops, rationale: p.rationale },
        ),
{
    let change = |p: ProposalV| DraftV { id: p.id, ops: p.ops, rationale: p.rationale };
    let f = body_draft(review);
    assert forall|p: ProposalV| #[trigger]
        f(p) == if pick(p) {
            Some(change(p))
        } else {
            None
        } by {
        assert(pick(p) == (draft_base(p.ops, review) is Some));
    }
    lemma_pick_then_change(pending, f, pick, change);
}

/// A request is refused for its caller first, then for its body, then for the
/// review it names, and for nothing else.
pub proof fn law_what_a_summary_is_refused_for(
    sender: Option<Actor>,
    parsed: Result<SummarizeReq, String>,
    selected: Result<String, SummarizeInputError>,
)
    ensures
        summarize_refusal(sender, parsed, selected) is None <==> sender is Some && parsed is Ok
            && selected is Ok,
        sender is None ==> summarize_refusal(sender, parsed, selected) == Some(
            error(403, "forbidden"@, "missing or unrecognized actor key"@),
        ),
        sender is Some ==> (parsed matches Err(why) ==> summarize_refusal(
            sender,
            parsed,
            selected,
        ) == Some(
            error(
                400,
                "invalid_request"@,
                "invalid "@ + "ai summarize request"@ + ": "@ + why@,
            ),
        )),
        sender is Some && parsed is Ok ==> (selected matches Err(e)
            ==> summarize_refusal(sender, parsed, selected) == Some(input_error(e))),
{
}

/// What each refused review is answered.
pub proof fn law_what_a_refused_review_is_answered(id: String, what: String)
    ensures
        input_error(SummarizeInputError::UnknownReview(id)) == error(
            404,
            "not_found"@,
            "review "@ + id@ + " does not exist"@,
        ),
        input_error(SummarizeInputError::UnsupportedKind(what)) == error(
            400,
            "unsupported_kind"@,
            "summarize only supports weekly reviews, got "@ + what@,
        ),
        input_error(SummarizeInputError::NotDraft(id, what)) == error(
            409,
            "conflict"@,
            "review "@ + id@ + " is not a draft (status "@ + what@ + ")"@,
        ),
        input_error(SummarizeInputError::ReadFailed(what)) == error(500, "internal"@, what@),
{
}

/// How the review is shown for each result, and which of them abort the run.
pub proof fn law_how_each_result_is_shown(
    review: Seq<char>,
    result: SummarizeItemResult,
    why: &'static str,
)
    ensures
        ({
            let ran = SummarizeOutcome::Ran(result);
            let left = SummarizeOutcome::LeftAlone(why);
            &&& outcome_item(review, ran).target == review
            &&& outcome_item(review, left) == (ItemV {
                target: review,
                result: "skipped"@,
                reason: Some(why@),
            })
            &&& outcome_item(review, ran).reason == if result is Skipped {
                Some("human_text"@)
            } else {
                None
            }
            &&& result is Proposed ==> outcome_item(review, ran).result == "proposed"@
            &&& result is Nothing ==> outcome_item(review, ran).result == "nothing"@
            &&& result is Deferred ==> outcome_item(review, ran).result == "deferred"@
            &&& result is Rejected ==> outcome_item(review, ran).result == "rejected"@
            &&& result is Skipped ==> outcome_item(review, ran).result == "skipped"@
            &&& result is Aborted || result is ReadFailed ==> outcome_item(review, ran).result
                == "aborted"@
            &&& is_aborted(ran) <==> result is Aborted || result is ReadFailed
            &&& !is_aborted(left)
            &&& result_word(result) == outcome_item(review, ran).result
        }),
{
}

} // verus!
