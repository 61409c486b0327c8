//! Sending queued Jira updates: a state machine that decides, update by
//! update, which Jira call to make next and what the store records of each
//! outcome. The calls themselves are made by the program around the library,
//! which feeds their outcomes back as events.

use crate::models::{OutboxAction, opt_text};
use crate::storage::outbox::{count_in_state, outbox_updated};
use crate::storage::records::{has_outbox, outbox_ids_increasing, outbox_index, OutboxRecord};
use crate::storage::{same_but_outbox, AppStorage};
use crate::storage::outbox::pending_records;
use crate::storage::outbox::action_of;
use crate::text::{is_white_space, law_trim_cuts_only_outer_white_space, trim, trim_text};
use vstd::prelude::*;
use vstd::string::*;

verus! {

/// Updates sent per run when the caller asks for 0.
pub const DEFAULT_MAX_ACTIONS: usize = 50;

/// What a run of the queue did, and what it left.
#[derive(Debug, Clone, Copy, PartialEq, Eq)]
pub struct QueueRunSummary {
    pub attempted: usize,
    pub succeeded: usize,
    pub failed: usize,
    pub remaining_pending: usize,
    pub remaining_failed: usize,
}

impl Default for QueueRunSummary {
    fn default() -> (r: Self)
        ensures
            r.attempted == 0 && r.succeeded == 0 && r.failed == 0 && r.remaining_pending == 0
                && r.remaining_failed == 0,
    {
        QueueRunSummary {
            attempted: 0,
            succeeded: 0,
            failed: 0,
            remaining_pending: 0,
            remaining_failed: 0,
        }
    }
}

/// How many updates a run takes: `max_actions`, or the default for 0.
pub open spec fn run_batch_size(max_actions: usize) -> usize {
    if max_actions == 0 {
        DEFAULT_MAX_ACTIONS
    } else {
        max_actions
    }
}

/// How many updates a run takes: `max_actions`, or the default for 0.
pub fn batch_size(max_actions: usize) -> (r: usize)
    ensures
        r == run_batch_size(max_actions),
{
    if max_actions == 0 {
        DEFAULT_MAX_ACTIONS
    } else {
        max_actions
    }
}

/// Where the run stands.
#[derive(Debug, Clone, Copy, PartialEq, Eq, Structural)]
pub enum SyncPhase {
    /// About to take up the next update (or to finish).
    Ready,
    /// Waiting for the outcome of the current update's transition.
    AwaitingTransition,
    /// Waiting for the outcome of the current update's comment.
    AwaitingComment,
    /// The run is over.
    Finished,
}

/// What the program reports back.
#[derive(Debug, PartialEq, Eq)]
pub enum SyncEvent {
    /// Go on (the answer to `Continue`, and the start of a run).
    Proceed,
    /// The Jira call succeeded.
    CallSucceeded,
    /// The Jira call failed, for this reason.
    CallFailed(String),
}

/// What the program is to do next.
#[derive(Debug, PartialEq, Eq)]
pub enum SyncCommand {
    /// Move the issue through this transition.
    TransitionIssue { issue_key: String, transition_id: String },
    /// Post this comment on the issue.
    AddComment { issue_key: String, body: String },
    /// Nothing to call: report `Proceed`.
    Continue,
    /// The run is over, with this summary.
    Finished(QueueRunSummary),
}

/// A run over a batch of queued updates.
#[derive(Debug)]
pub struct OutboxSync {
    pub batch: Vec<OutboxAction>,
    pub position: usize,
    pub phase: SyncPhase,
    pub summary: QueueRunSummary,
}

/// The comment an update posts: its comment trimmed, when that is not blank.
pub open spec fn comment_to_post(a: OutboxAction) -> Option<Seq<char>> {
    match a.comment {
        Some(c) => if trim(c@).len() > 0 {
            Some(trim(c@))
        } else {
            None
        },
        None => None,
    }
}

/// The details recorded when the transition of update `a` fails for `cause`.
pub open spec fn transition_failure(a: OutboxAction, cause: Seq<char>) -> Seq<char> {
    "failed to transition issue "@ + a.issue_key@ + " with transition "@ + match a.transition_id {
        Some(t) => t@,
        None => Seq::empty(),
    } + ": "@ + cause
}

/// The details recorded when the comment of update `a` fails for `cause`.
pub open spec fn comment_failure(a: OutboxAction, cause: Seq<char>) -> Seq<char> {
    "failed to add comment to issue "@ + a.issue_key@ + ": "@ + cause
}

/// The stored update after a step: the state set (or kept when `state` is
/// None), the transition and the comment dropped as told, the rest kept.
pub open spec fn row_after(
    a: OutboxRecord,
    b: OutboxRecord,
    state: Option<Seq<char>>,
    drop_transition: bool,
    drop_comment: bool,
) -> bool {
    &&& b.id == a.id
    &&& b.issue_key == a.issue_key
    &&& if drop_transition {
        b.transition_to is None && b.transition_id is None && b.transition_name is None
    } else {
        b.transition_to == a.transition_to && b.transition_id == a.transition_id
            && b.transition_name == a.transition_name
    }
    &&& if drop_comment {
        b.comment is None
    } else {
        b.comment == a.comment
    }
    &&& match state {
        Some(s) => b.state@ == s,
        None => b.state == a.state,
    }
    &&& b.last_error == a.last_error
    &&& b.created_at == a.created_at
}

/// The stored update after its failure is recorded.
pub open spec fn row_failed(a: OutboxRecord, b: OutboxRecord, details: Seq<char>) -> bool {
    &&& b.id == a.id
    &&& b.issue_key == a.issue_key
    &&& b.transition_to == a.transition_to
    &&& b.transition_id == a.transition_id
    &&& b.transition_name == a.transition_name
    &&& b.comment == a.comment
    &&& b.state@ == "failed"@
    &&& opt_text(b.last_error) == Some(details)
    &&& b.created_at == a.created_at
}

/// The event fits the phase.
pub open spec fn accepts(phase: SyncPhase, event: SyncEvent) -> bool {
    match phase {
        SyncPhase::Ready => event is Proceed,
        SyncPhase::AwaitingTransition => !(event is Proceed),
        SyncPhase::AwaitingComment => !(event is Proceed),
        SyncPhase::Finished => false,
    }
}

/// The outcome of reaching an update's comment: post it when it is not
/// blank, else the update is done.
pub open spec fn comment_stage(
    old: OutboxSync,
    new: OutboxSync,
    cmd: SyncCommand,
    old_rows: Seq<OutboxRecord>,
    new_rows: Seq<OutboxRecord>,
    id: i64,
    state: Option<Seq<char>>,
    drop_transition: bool,
    attempted: usize,
) -> bool {
    let a = old.batch@[old.position as int];
    match comment_to_post(a) {
        Some(body) => {
            &&& new.phase == SyncPhase::AwaitingComment
            &&& new.position == old.position
            &&& new.summary == (QueueRunSummary { attempted, ..old.summary })
            &&& cmd matches SyncCommand::AddComment { issue_key, body: b } && issue_key == a.issue_key
                && b@ == body
            &&& outbox_updated(
                old_rows,
                new_rows,
                id,
                |x: OutboxRecord, y: OutboxRecord| row_after(x, y, state, drop_transition, false),
            )
        },
        None => {
            &&& new.phase == SyncPhase::Ready
            &&& new.position == old.position + 1
            &&& new.summary == (QueueRunSummary {
                attempted,
                succeeded: (old.summary.succeeded + 1) as usize,
                ..old.summary
            })
            &&& cmd is Continue
            &&& outbox_updated(
                old_rows,
                new_rows,
                id,
                |x: OutboxRecord, y: OutboxRecord|
                    row_after(x, y, Some("done"@), drop_transition, a.comment is Some),
            )
        },
    }
}

/// The outcome of a failed call: the update is marked failed with these
/// details and counted as failed.
pub open spec fn failed_step(
    old: OutboxSync,
    new: OutboxSync,
    cmd: SyncCommand,
    old_rows: Seq<OutboxRecord>,
    new_rows: Seq<OutboxRecord>,
    details: Seq<char>,
) -> bool {
    &&& new.phase == SyncPhase::Ready
    &&& new.position == old.position + 1
    &&& new.summary == (QueueRunSummary { failed: (old.summary.failed + 1) as usize, ..old.summary })
    &&& cmd is Continue
    &&& outbox_updated(
        old_rows,
        new_rows,
        old.batch@[old.position as int].id,
        |x: OutboxRecord, y: OutboxRecord| row_failed(x, y, details),
    )
}

/// How many more steps the run can take at most: each update takes up to
/// three (its transition, its comment, and moving on), and finishing one more.
pub open spec fn steps_left(run: OutboxSync) -> int {
    4 * (run.batch@.len() - run.position) + match run.phase {
        SyncPhase::Ready => 3int,
        SyncPhase::AwaitingTransition => 2int,
        SyncPhase::AwaitingComment => 1int,
        SyncPhase::Finished => 0int,
    }
}

impl OutboxSync {
    /// The run's bookkeeping holds: the position within the batch, every
    /// update before it counted as succeeded or failed, and the current one
    /// counted as attempted while its call is awaited.
    pub open spec fn wf(&self) -> bool {
        &&& self.position <= self.batch@.len()
        &&& self.summary.succeeded + self.summary.failed == self.position
        &&& match self.phase {
            SyncPhase::Ready => self.summary.attempted == self.position,
            SyncPhase::AwaitingTransition => self.position < self.batch@.len()
                && self.summary.attempted == self.position + 1
                && self.batch@[self.position as int].transition_id is Some,
            SyncPhase::AwaitingComment => self.position < self.batch@.len()
                && self.summary.attempted == self.position + 1
                && comment_to_post(self.batch@[self.position as int]) is Some,
            SyncPhase::Finished => self.position == self.batch@.len()
                && self.summary.attempted == self.position,
        }
    }

    /// Whether the run takes this event now.
    pub fn accepts_event(&self, event: &SyncEvent) -> (r: bool)
        ensures
            r == accepts(self.phase, *event),
    {
        match self.phase {
            SyncPhase::Ready => matches!(event, SyncEvent::Proceed),
            SyncPhase::AwaitingTransition => !matches!(event, SyncEvent::Proceed),
            SyncPhase::AwaitingComment => !matches!(event, SyncEvent::Proceed),
            SyncPhase::Finished => false,
        }
    }
}


proof fn lemma_compose(
    s0: Seq<OutboxRecord>,
    s1: Seq<OutboxRecord>,
    s2: Seq<OutboxRecord>,
    id: i64,
    f: spec_fn(OutboxRecord, OutboxRecord) -> bool,
    g: spec_fn(OutboxRecord, OutboxRecord) -> bool,
    h: spec_fn(OutboxRecord, OutboxRecord) -> bool,
)
    requires
        outbox_ids_increasing(s0),
        outbox_ids_increasing(s1),
        outbox_updated(s0, s1, id, f),
        outbox_updated(s1, s2, id, g),
        forall|x: OutboxRecord, y: OutboxRecord| #[trigger] f(x, y) ==> y.id == x.id,
        forall|x: OutboxRecord, y: OutboxRecord, z: OutboxRecord|
            #[trigger] f(x, y) && #[trigger] g(y, z) ==> h(x, z),
    ensures
        outbox_updated(s0, s2, id, h),
{
    if has_outbox(s0, id) {
        let i = outbox_index(s0, id);
        crate::storage::records::lemma_outbox_index_at(s0, i);
        assert(f(s0[i], s1[i]));
        crate::storage::records::lemma_outbox_index_at(s1, i);
        assert(g(s1[i], s2[i]));
    }
}

proof fn lemma_count_disjoint(s: Seq<OutboxRecord>, a: Seq<char>, b: Seq<char>)
    requires
        a != b,
    ensures
        count_in_state(s, a) + count_in_state(s, b) <= s.len(),
    decreases s.len(),
{
    if s.len() > 0 {
        lemma_count_disjoint(s.drop_last(), a, b);
    }
}

fn failure_details(context: &str, issue_key: &str, middle: &str, tail: &str, cause: &str) -> (r: String)
    ensures
        r@ == context@ + issue_key@ + middle@ + tail@ + ": "@ + cause@,
{
    let mut r = context.to_owned();
    r.append(issue_key);
    r.append(middle);
    r.append(tail);
    r.append(": ");
    r.append(cause);
    r
}

impl OutboxSync {
    /// A run over the first pending updates, as many as `batch_size(max_actions)`.
    pub fn start(storage: &AppStorage, max_actions: usize) -> (r: OutboxSync)
        requires
            storage.wf(),
        ensures
            r.wf(),
            r.position == 0,
            r.phase == SyncPhase::Ready,
            r.summary == (QueueRunSummary {
                attempted: 0,
                succeeded: 0,
                failed: 0,
                remaining_pending: 0,
                remaining_failed: 0,
            }),
            max_actions > 0 ==> r.batch@.len() == if pending_records(storage@.outbox@).len()
                < max_actions {
                pending_records(storage@.outbox@).len()
            } else {
                max_actions as nat
            },
            r.batch@.len() == if pending_records(storage@.outbox@).len() < run_batch_size(max_actions) {
                pending_records(storage@.outbox@).len()
            } else {
                run_batch_size(max_actions) as nat
            },
            forall|i: int|
                0 <= i < r.batch@.len() ==> action_of(
                    pending_records(storage@.outbox@)[i],
                    #[trigger] r.batch@[i],
                ),
    {
        let limit = batch_size(max_actions);
        let batch = storage.load_processable_outbox_actions(limit);
        OutboxSync { batch, position: 0, phase: SyncPhase::Ready, summary: QueueRunSummary::default() }
    }

    fn comment_stage_step(&mut self, storage: &mut AppStorage) -> (cmd: SyncCommand)
        requires
            old(self).position < old(self).batch@.len(),
            old(self).summary.succeeded + old(self).summary.failed == old(self).position,
            old(self).summary.attempted == old(self).position + 1,
            old(storage).wf(),
        ensures
            final(storage).wf(),
            final(self).wf(),
            final(self).batch == old(self).batch,
            same_but_outbox(final(storage)@, old(storage)@),
            final(storage)@.last_outbox_id == old(storage)@.last_outbox_id,
            comment_stage(
                *old(self),
                *final(self),
                cmd,
                old(storage)@.outbox@,
                final(storage)@.outbox@,
                old(self).batch@[old(self).position as int].id,
                None,
                false,
                old(self).summary.attempted,
            ),
    {
        let pos = self.position;
        let id = self.batch[pos].id;
        let ghost a = self.batch@[pos as int];
        let ghost rows0 = storage@.outbox@;
        match &self.batch[pos].comment {
            Some(c) => {
                let clean = trim_text(c.as_str());
                if clean.unicode_len() > 0 {
                    self.phase = SyncPhase::AwaitingComment;
                    let issue_key = self.batch[pos].issue_key.clone();
                    return SyncCommand::AddComment { issue_key, body: clean };
                }
                storage.clear_outbox_comment(id);
            },
            None => {},
        }
        let ghost rows1 = storage@.outbox@;
        storage.mark_outbox_action_done(id);
        let ghost rows2 = storage@.outbox@;
        proof {
            let h = |x: OutboxRecord, y: OutboxRecord|
                row_after(x, y, Some("done"@), false, a.comment is Some);
            if a.comment is Some {
                lemma_compose(
                    rows0,
                    rows1,
                    rows2,
                    id,
                    |x: OutboxRecord, y: OutboxRecord| crate::storage::outbox::without_comment(x, y),
                    |x: OutboxRecord, y: OutboxRecord| crate::storage::outbox::with_state(x, y, "done"@),
                    h,
                );
            } else {
                assert(rows1 == rows0);
            }
        }
        self.summary.succeeded = self.summary.succeeded + 1;
        self.position = pos + 1;
        self.phase = SyncPhase::Ready;
        SyncCommand::Continue
    }

    /// Takes one step of the run on the event the program reports.
    ///
    /// Ready: at the end of the batch the run finishes, counting what is left
    /// pending (pending or being processed) and failed; otherwise the next
    /// update is counted as attempted, marked as processing, and its
    /// transition is asked for, or else its comment stage is reached.
    /// Comment stage: a non-blank comment is asked for (trimmed); otherwise the
    /// update is done (a blank comment dropped) and counted as succeeded.
    /// A transition that succeeded is dropped from the update, then the
    /// comment stage is reached. A comment that succeeded is dropped and the
    /// update is done. A failed call marks the update failed with the call's
    /// context and cause, and counts it as failed.
    pub fn step(&mut self, storage: &mut AppStorage, event: SyncEvent) -> (cmd: SyncCommand)
        requires
            old(self).wf(),
            old(storage).wf(),
            accepts(old(self).phase, event),
        ensures
            final(self).wf(),
            final(storage).wf(),
            final(self).batch == old(self).batch,
            0 <= steps_left(*final(self)) < steps_left(*old(self)),
            same_but_outbox(final(storage)@, old(storage)@),
            final(storage)@.last_outbox_id == old(storage)@.last_outbox_id,
            old(self).phase == SyncPhase::Ready && old(self).position == old(self).batch@.len() ==> {
                &&& final(self).phase == SyncPhase::Finished
                &&& final(self).position == old(self).position
                &&& final(storage)@.outbox@ == old(storage)@.outbox@
                &&& final(self).summary == (QueueRunSummary {
                    remaining_pending: (count_in_state(old(storage)@.outbox@, "pending"@)
                        + count_in_state(old(storage)@.outbox@, "processing"@)) as usize,
                    remaining_failed: count_in_state(old(storage)@.outbox@, "failed"@) as usize,
                    ..old(self).summary
                })
                &&& cmd == SyncCommand::Finished(final(self).summary)
            },
            old(self).phase == SyncPhase::Ready && old(self).position < old(self).batch@.len() ==> {
                let a = old(self).batch@[old(self).position as int];
                let attempted = (old(self).summary.attempted + 1) as usize;
                match a.transition_id {
                    Some(t) => {
                        &&& final(self).phase == SyncPhase::AwaitingTransition
                        &&& final(self).position == old(self).position
                        &&& final(self).summary == (QueueRunSummary { attempted, ..old(self).summary })
                        &&& cmd matches SyncCommand::TransitionIssue { issue_key, transition_id }
                            && issue_key == a.issue_key && transition_id == t
                        &&& outbox_updated(
                            old(storage)@.outbox@,
                            final(storage)@.outbox@,
                            a.id,
                            |x: OutboxRecord, y: OutboxRecord|
                                row_after(x, y, Some("processing"@), false, false),
                        )
                    },
                    None => comment_stage(
                        *old(self),
                        *final(self),
                        cmd,
                        old(storage)@.outbox@,
                        final(storage)@.outbox@,
                        a.id,
                        Some("processing"@),
                        false,
                        attempted,
                    ),
                }
            },
            old(self).phase == SyncPhase::AwaitingTransition && event is CallSucceeded ==> comment_stage(
                *old(self),
                *final(self),
                cmd,
                old(storage)@.outbox@,
                final(storage)@.outbox@,
                old(self).batch@[old(self).position as int].id,
                None,
                true,
                old(self).summary.attempted,
            ),
            old(self).phase == SyncPhase::AwaitingComment && event is CallSucceeded ==> {
                &&& final(self).phase == SyncPhase::Ready
                &&& final(self).position == old(self).position + 1
                &&& final(self).summary == (QueueRunSummary {
                    succeeded: (old(self).summary.succeeded + 1) as usize,
                    ..old(self).summary
                })
                &&& cmd is Continue
                &&& outbox_updated(
                    old(storage)@.outbox@,
                    final(storage)@.outbox@,
                    old(self).batch@[old(self).position as int].id,
                    |x: OutboxRecord, y: OutboxRecord| row_after(x, y, Some("done"@), false, true),
                )
            },
            old(self).phase == SyncPhase::AwaitingTransition && event is CallFailed ==> failed_step(
                *old(self),
                *final(self),
                cmd,
                old(storage)@.outbox@,
                final(storage)@.outbox@,
                transition_failure(old(self).batch@[old(self).position as int], event->CallFailed_0@),
            ),
            old(self).phase == SyncPhase::AwaitingComment && event is CallFailed ==> failed_step(
                *old(self),
                *final(self),
                cmd,
                old(storage)@.outbox@,
                final(storage)@.outbox@,
                comment_failure(old(self).batch@[old(self).position as int], event->CallFailed_0@),
            ),
    {
        let pos = self.position;
        match self.phase {
            SyncPhase::Ready => {
                if pos == self.batch.len() {
                    proof {
                        reveal_strlit("pending");
                        reveal_strlit("processing");
                        assert("pending"@.len() != "processing"@.len());
                        lemma_count_disjoint(storage@.outbox@, "pending"@, "processing"@);
                    }
                    // Both counts are counts of queued updates, so their sum
                    // is at most the queue's length, which fits in a usize.
                    let queued = storage.outbox_len();
                    let pending = storage.count_outbox_actions_by_state("pending");
                    let processing = storage.count_outbox_actions_by_state("processing");
                    assert(pending + processing <= queued);
                    let failed = storage.count_outbox_actions_by_state("failed");
                    self.summary.remaining_pending = pending + processing;
                    self.summary.remaining_failed = failed;
                    self.phase = SyncPhase::Finished;
                    return SyncCommand::Finished(self.summary);
                }
                let id = self.batch[pos].id;
                let ghost rows0 = storage@.outbox@;
                self.summary.attempted = self.summary.attempted + 1;
                storage.mark_outbox_action_processing(id);
                let ghost rows1 = storage@.outbox@;
                match &self.batch[pos].transition_id {
                    Some(t) => {
                        let transition_id = t.clone();
                        let issue_key = self.batch[pos].issue_key.clone();
                        self.phase = SyncPhase::AwaitingTransition;
                        SyncCommand::TransitionIssue { issue_key, transition_id }
                    },
                    None => {
                        let ghost mid = *self;
                        let cmd = self.comment_stage_step(storage);
                        let ghost rows2 = storage@.outbox@;
                        proof {
                            let a = self.batch@[pos as int];
                            match comment_to_post(a) {
                                Some(_) => {
                                    lemma_compose(
                                        rows0,
                                        rows1,
                                        rows2,
                                        id,
                                        |x: OutboxRecord, y: OutboxRecord|
                                            crate::storage::outbox::with_state(x, y, "processing"@),
                                        |x: OutboxRecord, y: OutboxRecord|
                                            row_after(x, y, None, false, false),
                                        |x: OutboxRecord, y: OutboxRecord|
                                            row_after(x, y, Some("processing"@), false, false),
                                    );
                                },
                                None => {
                                    lemma_compose(
                                        rows0,
                                        rows1,
                                        rows2,
                                        id,
                                        |x: OutboxRecord, y: OutboxRecord|
                                            crate::storage::outbox::with_state(x, y, "processing"@),
                                        |x: OutboxRecord, y: OutboxRecord|
                                            row_after(x, y, Some("done"@), false, a.comment is Some),
                                        |x: OutboxRecord, y: OutboxRecord|
                                            row_after(x, y, Some("done"@), false, a.comment is Some),
                                    );
                                },
                            }
                        }
                        cmd
                    },
                }
            },
            SyncPhase::AwaitingTransition => {
                let id = self.batch[pos].id;
                match event {
                    SyncEvent::CallSucceeded => {
                        let ghost rows0 = storage@.outbox@;
                        storage.clear_outbox_transition(id);
                        let ghost rows1 = storage@.outbox@;
                        let cmd = self.comment_stage_step(storage);
                        let ghost rows2 = storage@.outbox@;
                        proof {
                            let a = self.batch@[pos as int];
                            match comment_to_post(a) {
                                Some(_) => {
                                    lemma_compose(
                                        rows0,
                                        rows1,
                                        rows2,
                                        id,
                                        |x: OutboxRecord, y: OutboxRecord|
                                            crate::storage::outbox::without_transition(x, y),
                                        |x: OutboxRecord, y: OutboxRecord|
                                            row_after(x, y, None, false, false),
                                        |x: OutboxRecord, y: OutboxRecord|
                                            row_after(x, y, None, true, false),
                                    );
                                },
                                None => {
                                    lemma_compose(
                                        rows0,
                                        rows1,
                                        rows2,
                                        id,
                                        |x: OutboxRecord, y: OutboxRecord|
                                            crate::storage::outbox::without_transition(x, y),
                                        |x: OutboxRecord, y: OutboxRecord|
                                            row_after(x, y, Some("done"@), false, a.comment is Some),
                                        |x: OutboxRecord, y: OutboxRecord|
                                            row_after(x, y, Some("done"@), true, a.comment is Some),
                                    );
                                },
                            }
                        }
                        cmd
                    },
                    SyncEvent::CallFailed(cause) => {
                        let details = match &self.batch[pos].transition_id {
                            Some(t) => failure_details(
                                "failed to transition issue ",
                                self.batch[pos].issue_key.as_str(),
                                " with transition ",
                                t.as_str(),
                                cause.as_str(),
                            ),
                            None => failure_details(
                                "failed to transition issue ",
                                self.batch[pos].issue_key.as_str(),
                                " with transition ",
                                "",
                                cause.as_str(),
                            ),
                        };
                        storage.mark_outbox_action_failed(id, details.as_str());
                        self.summary.failed = self.summary.failed + 1;
                        self.position = pos + 1;
                        self.phase = SyncPhase::Ready;
                        SyncCommand::Continue
                    },
                    SyncEvent::Proceed => {
                        proof {
                            assert(false);
                        }
                        SyncCommand::Continue
                    },
                }
            },
            SyncPhase::AwaitingComment => {
                let id = self.batch[pos].id;
                match event {
                    SyncEvent::CallSucceeded => {
                        let ghost rows0 = storage@.outbox@;
                        storage.clear_outbox_comment(id);
                        let ghost rows1 = storage@.outbox@;
                        storage.mark_outbox_action_done(id);
                        let ghost rows2 = storage@.outbox@;
                        proof {
                            lemma_compose(
                                rows0,
                                rows1,
                                rows2,
                                id,
                                |x: OutboxRecord, y: OutboxRecord|
                                    crate::storage::outbox::without_comment(x, y),
                                |x: OutboxRecord, y: OutboxRecord|
                                    crate::storage::outbox::with_state(x, y, "done"@),
                                |x: OutboxRecord, y: OutboxRecord|
                                    row_after(x, y, Some("done"@), false, true),
                            );
                        }
                        self.summary.succeeded = self.summary.succeeded + 1;
                        self.position = pos + 1;
                        self.phase = SyncPhase::Ready;
                        SyncCommand::Continue
                    },
                    SyncEvent::CallFailed(cause) => {
                        let details = failure_details(
                            "failed to add comment to issue ",
                            self.batch[pos].issue_key.as_str(),
                            "",
                            "",
                            cause.as_str(),
                        );
                        proof {
                            reveal_strlit("");
                            assert(details@ =~= comment_failure(self.batch@[pos as int], cause@));
                        }
                        storage.mark_outbox_action_failed(id, details.as_str());
                        self.summary.failed = self.summary.failed + 1;
                        self.position = pos + 1;
                        self.phase = SyncPhase::Ready;
                        SyncCommand::Continue
                    },
                    SyncEvent::Proceed => {
                        proof {
                            assert(false);
                        }
                        SyncCommand::Continue
                    },
                }
            },
            SyncPhase::Finished => {
                proof {
                    assert(false);
                }
                SyncCommand::Continue
            },
        }
    }
}

/// A finished run accounts for its whole batch: every update it took up was
/// attempted once and either succeeded or failed.
pub proof fn law_finished_run_accounts_for_batch(run: OutboxSync)
    requires
        run.wf(),
        run.phase == SyncPhase::Finished,
    ensures
        run.summary.attempted == run.batch@.len(),
        run.summary.succeeded + run.summary.failed == run.summary.attempted,
        steps_left(run) == 0,
{
}

/// A run that has not finished takes another event, whatever its phase, so
/// a run only stops at its end.
pub proof fn law_unfinished_run_takes_an_event(run: OutboxSync)
    requires
        run.wf(),
        run.phase != SyncPhase::Finished,
    ensures
        accepts(run.phase, SyncEvent::Proceed) || accepts(run.phase, SyncEvent::CallSucceeded),
        steps_left(run) > 0,
{
}

/// A run takes as many updates as asked for, or 50 when asked for none.
pub proof fn law_batch_is_the_requested_size(max_actions: usize)
    ensures
        max_actions > 0 ==> run_batch_size(max_actions) == max_actions,
        max_actions == 0 ==> run_batch_size(max_actions) == 50,
{
}

/// The comment posted for an update is its stored comment with only the
/// outer white space cut: the piece of it between `bounds.0` and `bounds.1`,
/// with only white space around it and a character that is not white space at
/// each end; inner characters, line breaks included, are kept. Nothing is
/// posted for a missing or blank comment.
pub proof fn law_posted_comment_cuts_only_outer_white_space(a: OutboxAction) -> (bounds: (int, int))
    ensures
        comment_to_post(a) is None <==> match a.comment {
            None => true,
            Some(c) => forall|k: int| 0 <= k < c@.len() ==> is_white_space(#[trigger] c@[k]),
        },
        a.comment matches Some(c) ==> (comment_to_post(a) is Some ==> {
            &&& 0 <= bounds.0 < bounds.1 <= c@.len()
            &&& comment_to_post(a) == Some(c@.subrange(bounds.0, bounds.1))
            &&& forall|k: int| 0 <= k < bounds.0 ==> is_white_space(#[trigger] c@[k])
            &&& forall|k: int| bounds.1 <= k < c@.len() ==> is_white_space(#[trigger] c@[k])
            &&& !is_white_space(c@[bounds.0])
            &&& !is_white_space(c@[bounds.1 - 1])
        }),
{
    match a.comment {
        Some(c) => {
            let bounds = law_trim_cuts_only_outer_white_space(c@);
            if bounds.0 == bounds.1 {
                assert forall|k: int| 0 <= k < c@.len() implies is_white_space(#[trigger] c@[k]) by {
                    if k >= bounds.0 {
                        assert(bounds.1 <= k);
                    }
                }
            } else {
                assert(!is_white_space(c@[bounds.0]));
            }
            bounds
        },
        None => (0, 0),
    }
}

} // verus!
