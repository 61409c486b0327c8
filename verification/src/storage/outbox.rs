//! The queued Jira updates: queueing, the states a queued update goes
//! through, and the counts the sync reports.

use crate::models::{copy_opt_text, opt_text, OutboxAction};
use crate::storage::records::{find_outbox, has_outbox, outbox_ids_increasing, outbox_index, OutboxRecord};
use crate::storage::{same_but_outbox, same_tables, AppStorage, StorageError, StorageTables};
use crate::text::same_text;
use vstd::prelude::*;
use vstd::string::*;

verus! {

/// The view of an optional borrowed text.
pub open spec fn opt_str(o: Option<&str>) -> Option<Seq<char>> {
    match o {
        Some(s) => Some(s@),
        None => None,
    }
}

fn own_opt(o: Option<&str>) -> (r: Option<String>)
    ensures
        opt_text(r) == opt_str(o),
{
    match o {
        Some(s) => Some(s.to_owned()),
        None => None,
    }
}

/// The transition name a queued update shows: its name, or the name kept in
/// the older `transition_to` column.
pub open spec fn shown_transition_name(r: OutboxRecord) -> Option<String> {
    match r.transition_name {
        Some(n) => Some(n),
        None => r.transition_to,
    }
}

/// `a` is how the queued update `r` is shown.
pub open spec fn action_of(r: OutboxRecord, a: OutboxAction) -> bool {
    &&& a.id == r.id
    &&& a.issue_key == r.issue_key
    &&& a.transition_id == r.transition_id
    &&& a.transition_name == shown_transition_name(r)
    &&& a.comment == r.comment
    &&& a.state == r.state
    &&& a.last_error == r.last_error
    &&& a.created_at == r.created_at
}

/// Shows a queued update.
pub fn action_from_record(r: &OutboxRecord) -> (a: OutboxAction)
    ensures
        action_of(*r, a),
{
    let transition_name = match &r.transition_name {
        Some(n) => Some(n.clone()),
        None => copy_opt_text(&r.transition_to),
    };
    OutboxAction {
        id: r.id,
        issue_key: r.issue_key.clone(),
        transition_id: copy_opt_text(&r.transition_id),
        transition_name,
        comment: copy_opt_text(&r.comment),
        state: r.state.clone(),
        last_error: copy_opt_text(&r.last_error),
        created_at: r.created_at.clone(),
    }
}

/// The queued updates after the one with `id` is changed as `change` says;
/// when there is none with that id, nothing changes.
pub open spec fn outbox_updated(
    old: Seq<OutboxRecord>,
    new: Seq<OutboxRecord>,
    id: i64,
    change: spec_fn(OutboxRecord, OutboxRecord) -> bool,
) -> bool {
    if has_outbox(old, id) {
        let i = outbox_index(old, id);
        &&& new.len() == old.len()
        &&& forall|j: int| 0 <= j < old.len() && j != i ==> #[trigger] new[j] == old[j]
        &&& change(old[i], new[i])
    } else {
        new == old
    }
}

/// Every field the same except the state, which becomes `state`.
pub open spec fn with_state(a: OutboxRecord, b: OutboxRecord, state: Seq<char>) -> bool {
    &&& b.id == a.id
    &&& b.issue_key == a.issue_key
    &&& b.transition_to == a.transition_to
    &&& b.transition_id == a.transition_id
    &&& b.transition_name == a.transition_name
    &&& b.comment == a.comment
    &&& b.state@ == state
    &&& b.last_error == a.last_error
    &&& b.created_at == a.created_at
}

/// Every field the same except the state, "failed", and the last error.
pub open spec fn with_failure(a: OutboxRecord, b: OutboxRecord, error: Seq<char>) -> bool {
    &&& b.id == a.id
    &&& b.issue_key == a.issue_key
    &&& b.transition_to == a.transition_to
    &&& b.transition_id == a.transition_id
    &&& b.transition_name == a.transition_name
    &&& b.comment == a.comment
    &&& b.state@ == "failed"@
    &&& opt_text(b.last_error) == Some(error)
    &&& b.created_at == a.created_at
}

/// Every field the same except the transition, which is gone.
pub open spec fn without_transition(a: OutboxRecord, b: OutboxRecord) -> bool {
    &&& b.id == a.id
    &&& b.issue_key == a.issue_key
    &&& b.transition_to is None
    &&& b.transition_id is None
    &&& b.transition_name is None
    &&& b.comment == a.comment
    &&& b.state == a.state
    &&& b.last_error == a.last_error
    &&& b.created_at == a.created_at
}

/// Every field the same except the comment, which is gone.
pub open spec fn without_comment(a: OutboxRecord, b: OutboxRecord) -> bool {
    &&& b.id == a.id
    &&& b.issue_key == a.issue_key
    &&& b.transition_to == a.transition_to
    &&& b.transition_id == a.transition_id
    &&& b.transition_name == a.transition_name
    &&& b.comment is None
    &&& b.state == a.state
    &&& b.last_error == a.last_error
    &&& b.created_at == a.created_at
}

/// Every field the same except the transition name, which falls back on the
/// older `transition_to` column.
pub open spec fn with_migrated_name(a: OutboxRecord, b: OutboxRecord) -> bool {
    &&& b.id == a.id
    &&& b.issue_key == a.issue_key
    &&& b.transition_to == a.transition_to
    &&& b.transition_id == a.transition_id
    &&& b.transition_name == shown_transition_name(a)
    &&& b.comment == a.comment
    &&& b.state == a.state
    &&& b.last_error == a.last_error
    &&& b.created_at == a.created_at
}

/// How many queued updates are in a state.
pub open spec fn count_in_state(s: Seq<OutboxRecord>, state: Seq<char>) -> nat
    decreases s.len(),
{
    if s.len() == 0 {
        0
    } else {
        count_in_state(s.drop_last(), state) + if s.last().state@ == state {
            1nat
        } else {
            0nat
        }
    }
}

/// The pending updates, in queue order.
pub open spec fn pending_records(s: Seq<OutboxRecord>) -> Seq<OutboxRecord>
    decreases s.len(),
{
    if s.len() == 0 {
        s
    } else if s.last().state@ == "pending"@ {
        pending_records(s.drop_last()).push(s.last())
    } else {
        pending_records(s.drop_last())
    }
}

/// The store after an update is queued: one update appended with the next
/// id, the issue key, the transition (its name also in the older column), the
/// comment, the state "pending" and no error; the other tables as before.
pub open spec fn update_queued(
    before: StorageTables,
    after: StorageTables,
    issue_key: Seq<char>,
    transition_id: Option<Seq<char>>,
    transition_name: Option<Seq<char>>,
    comment: Option<Seq<char>>,
) -> bool {
    let new = after.outbox@;
    let old_q = before.outbox@;
    &&& same_but_outbox(after, before)
    &&& after.last_outbox_id == before.last_outbox_id + 1
    &&& new.len() == old_q.len() + 1
    &&& new.subrange(0, old_q.len() as int) == old_q
    &&& new.last().id == before.last_outbox_id + 1
    &&& new.last().issue_key@ == issue_key
    &&& opt_text(new.last().transition_to) == transition_name
    &&& opt_text(new.last().transition_id) == transition_id
    &&& opt_text(new.last().transition_name) == transition_name
    &&& opt_text(new.last().comment) == comment
    &&& new.last().state@ == "pending"@
    &&& new.last().last_error is None
}

/// What queueing an update does: with neither a transition nor a comment,
/// nothing; when ids have run out, nothing and the error; else the update is
/// queued.
pub open spec fn queue_result(
    before: StorageTables,
    after: StorageTables,
    issue_key: Seq<char>,
    transition_id: Option<Seq<char>>,
    transition_name: Option<Seq<char>>,
    comment: Option<Seq<char>>,
    r: Result<(), StorageError>,
) -> bool {
    &&& transition_id is None && comment is None ==> r is Ok && same_tables(after, before)
    &&& !(transition_id is None && comment is None) && before.last_outbox_id == i64::MAX ==> r
        == Err::<(), _>(StorageError::IdsExhausted) && same_tables(after, before)
    &&& !(transition_id is None && comment is None) && before.last_outbox_id < i64::MAX ==> r is Ok
        && update_queued(before, after, issue_key, transition_id, transition_name, comment)
}

impl AppStorage {
    /// Queues a Jira update for an issue: a transition (by id, with its name)
    /// and a comment, each optional. With neither a transition nor a comment
    /// nothing is queued. The update gets the next id, the state "pending",
    /// no error, and `created_at`. The issue key is not checked against the
    /// stored issues: the store keeps no link between its tables.
    pub fn queue_jira_update(
        &mut self,
        issue_key: &str,
        transition_id: Option<&str>,
        transition_name: Option<&str>,
        comment: Option<&str>,
        created_at: &str,
    ) -> (r: Result<(), StorageError>)
        requires
            old(self).wf(),
        ensures
            final(self).wf(),
            queue_result(
                old(self)@,
                final(self)@,
                issue_key@,
                opt_str(transition_id),
                opt_str(transition_name),
                opt_str(comment),
                r,
            ),
            final(self)@.outbox@.len() > old(self)@.outbox@.len() ==> final(self)@.outbox@.last().created_at@
                == created_at@,
    {
        if transition_id.is_none() && comment.is_none() {
            return Ok(());
        }
        if self.tables.last_outbox_id == i64::MAX {
            return Err(StorageError::IdsExhausted);
        }
        let ghost old_q = self.tables.outbox@;
        let id = self.tables.last_outbox_id + 1;
        let record = OutboxRecord {
            id,
            issue_key: issue_key.to_owned(),
            transition_to: own_opt(transition_name),
            transition_id: own_opt(transition_id),
            transition_name: own_opt(transition_name),
            comment: own_opt(comment),
            state: "pending".to_owned(),
            last_error: None,
            created_at: created_at.to_owned(),
        };
        self.tables.outbox.push(record);
        self.tables.last_outbox_id = id;
        let ghost new_q = self.tables.outbox@;
        assert(new_q.subrange(0, old_q.len() as int) =~= old_q);
        assert forall|a: int, b: int| 0 <= a < b < new_q.len() implies #[trigger] new_q[a].id
            < #[trigger] new_q[b].id by {
            assert(new_q[a] == old_q[a]);
            if b < old_q.len() {
                assert(new_q[b] == old_q[b]);
            }
        }
        Ok(())
    }

    /// Replaces the queued update at a position by a record with the same id.
    fn replace_outbox(&mut self, i: usize, record: OutboxRecord)
        requires
            old(self).wf(),
            i < old(self)@.outbox@.len(),
            record.id == old(self)@.outbox@[i as int].id,
        ensures
            final(self).wf(),
            same_but_outbox(final(self)@, old(self)@),
            final(self)@.last_outbox_id == old(self)@.last_outbox_id,
            final(self)@.outbox@ == old(self)@.outbox@.update(i as int, record),
    {
        let ghost old_q = self.tables.outbox@;
        self.tables.outbox.set(i, record);
        let ghost new_q = self.tables.outbox@;
        assert forall|a: int, b: int| 0 <= a < b < new_q.len() implies #[trigger] new_q[a].id
            < #[trigger] new_q[b].id by {
            assert(new_q[a].id == old_q[a].id);
            assert(new_q[b].id == old_q[b].id);
        }
        assert forall|a: int| 0 <= a < new_q.len() implies #[trigger] new_q[a].id
            <= self.tables.last_outbox_id by {
            assert(new_q[a].id == old_q[a].id);
        }
    }

    /// Sets the state of the queued update with `id`.
    pub fn set_outbox_action_state(&mut self, id: i64, state: &str)
        requires
            old(self).wf(),
        ensures
            final(self).wf(),
            same_but_outbox(final(self)@, old(self)@),
            final(self)@.last_outbox_id == old(self)@.last_outbox_id,
            outbox_updated(
                old(self)@.outbox@,
                final(self)@.outbox@,
                id,
                |a: OutboxRecord, b: OutboxRecord| with_state(a, b, state@),
            ),
    {
        match find_outbox(&self.tables.outbox, id) {
            Some(i) => {
                let mut record = self.tables.outbox[i].clone();
                record.state = state.to_owned();
                self.replace_outbox(i, record);
            },
            None => {},
        }
    }

    /// Marks the queued update with `id` as being processed.
    pub fn mark_outbox_action_processing(&mut self, id: i64)
        requires
            old(self).wf(),
        ensures
            final(self).wf(),
            same_but_outbox(final(self)@, old(self)@),
            final(self)@.last_outbox_id == old(self)@.last_outbox_id,
            outbox_updated(
                old(self)@.outbox@,
                final(self)@.outbox@,
                id,
                |a: OutboxRecord, b: OutboxRecord| with_state(a, b, "processing"@),
            ),
    {
        self.set_outbox_action_state(id, "processing");
    }

    /// Marks the queued update with `id` as done.
    pub fn mark_outbox_action_done(&mut self, id: i64)
        requires
            old(self).wf(),
        ensures
            final(self).wf(),
            same_but_outbox(final(self)@, old(self)@),
            final(self)@.last_outbox_id == old(self)@.last_outbox_id,
            outbox_updated(
                old(self)@.outbox@,
                final(self)@.outbox@,
                id,
                |a: OutboxRecord, b: OutboxRecord| with_state(a, b, "done"@),
            ),
    {
        self.set_outbox_action_state(id, "done");
    }

    /// Marks the queued update with `id` as failed, with the error's details.
    pub fn mark_outbox_action_failed(&mut self, id: i64, error: &str)
        requires
            old(self).wf(),
        ensures
            final(self).wf(),
            same_but_outbox(final(self)@, old(self)@),
            final(self)@.last_outbox_id == old(self)@.last_outbox_id,
            outbox_updated(
                old(self)@.outbox@,
                final(self)@.outbox@,
                id,
                |a: OutboxRecord, b: OutboxRecord| with_failure(a, b, error@),
            ),
    {
        match find_outbox(&self.tables.outbox, id) {
            Some(i) => {
                let mut record = self.tables.outbox[i].clone();
                record.state = "failed".to_owned();
                record.last_error = Some(error.to_owned());
                self.replace_outbox(i, record);
            },
            None => {},
        }
    }

    /// Drops the transition of the queued update with `id`: it has been made.
    pub fn clear_outbox_transition(&mut self, id: i64)
        requires
            old(self).wf(),
        ensures
            final(self).wf(),
            same_but_outbox(final(self)@, old(self)@),
            final(self)@.last_outbox_id == old(self)@.last_outbox_id,
            outbox_updated(
                old(self)@.outbox@,
                final(self)@.outbox@,
                id,
                |a: OutboxRecord, b: OutboxRecord| without_transition(a, b),
            ),
    {
        match find_outbox(&self.tables.outbox, id) {
            Some(i) => {
                let mut record = self.tables.outbox[i].clone();
                record.transition_to = None;
                record.transition_id = None;
                record.transition_name = None;
                self.replace_outbox(i, record);
            },
            None => {},
        }
    }

    /// Drops the comment of the queued update with `id`: it has been posted.
    pub fn clear_outbox_comment(&mut self, id: i64)
        requires
            old(self).wf(),
        ensures
            final(self).wf(),
            same_but_outbox(final(self)@, old(self)@),
            final(self)@.last_outbox_id == old(self)@.last_outbox_id,
            outbox_updated(
                old(self)@.outbox@,
                final(self)@.outbox@,
                id,
                |a: OutboxRecord, b: OutboxRecord| without_comment(a, b),
            ),
    {
        match find_outbox(&self.tables.outbox, id) {
            Some(i) => {
                let mut record = self.tables.outbox[i].clone();
                record.comment = None;
                self.replace_outbox(i, record);
            },
            None => {},
        }
    }

    /// How many updates are queued, in any state.
    pub fn outbox_len(&self) -> (r: usize)
        ensures
            r == self@.outbox@.len(),
    {
        self.tables.outbox.len()
    }

    /// How many queued updates are in `state`.
    pub fn count_outbox_actions_by_state(&self, state: &str) -> (r: usize)
        requires
            self.wf(),
        ensures
            r == count_in_state(self@.outbox@, state@),
    {
        let q = &self.tables.outbox;
        let mut count: usize = 0;
        let mut i: usize = 0;
        while i < q.len()
            invariant
                i <= q@.len(),
                count == count_in_state(q@.subrange(0, i as int), state@),
                count <= i,
            decreases q@.len() - i,
        {
            let ghost prefix = q@.subrange(0, i + 1);
            assert(prefix.drop_last() =~= q@.subrange(0, i as int));
            if same_text(q[i].state.as_str(), state) {
                count = count + 1;
            }
            i = i + 1;
        }
        assert(q@.subrange(0, q@.len() as int) =~= q@);
        count
    }

    /// The first `limit` pending updates, oldest first.
    pub fn load_processable_outbox_actions(&self, limit: usize) -> (r: Vec<OutboxAction>)
        requires
            self.wf(),
        ensures
            r@.len() == if pending_records(self@.outbox@).len() < limit {
                pending_records(self@.outbox@).len()
            } else {
                limit as nat
            },
            forall|i: int|
                0 <= i < r@.len() ==> action_of(pending_records(self@.outbox@)[i], #[trigger] r@[i]),
    {
        let q = &self.tables.outbox;
        let mut r: Vec<OutboxAction> = Vec::new();
        let mut i: usize = 0;
        proof {
            reveal_strlit("pending");
        }
        while i < q.len() && r.len() < limit
            invariant
                i <= q@.len(),
                r@.len() <= limit,
                r@.len() == pending_records(q@.subrange(0, i as int)).len(),
                forall|k: int|
                    0 <= k < r@.len() ==> action_of(
                        pending_records(q@.subrange(0, i as int))[k],
                        #[trigger] r@[k],
                    ),
            decreases q@.len() - i,
        {
            let ghost prefix = q@.subrange(0, i + 1);
            assert(prefix.drop_last() =~= q@.subrange(0, i as int));
            if same_text(q[i].state.as_str(), "pending") {
                let a = action_from_record(&q[i]);
                r.push(a);
            }
            i = i + 1;
        }
        proof {
            lemma_pending_prefix(q@, i as int);
        }
        r
    }

    /// Fills in each queued update's transition name from the older
    /// `transition_to` column where the name is missing.
    pub fn ensure_outbox_action_columns(&mut self)
        requires
            old(self).wf(),
        ensures
            final(self).wf(),
            same_but_outbox(final(self)@, old(self)@),
            final(self)@.last_outbox_id == old(self)@.last_outbox_id,
            final(self)@.outbox@.len() == old(self)@.outbox@.len(),
            forall|i: int|
                0 <= i < old(self)@.outbox@.len() ==> with_migrated_name(
                    old(self)@.outbox@[i],
                    #[trigger] final(self)@.outbox@[i],
                ),
    {
        let ghost old_q = self.tables.outbox@;
        let ghost old_self = self@;
        let mut i: usize = 0;
        while i < self.tables.outbox.len()
            invariant
                self.wf(),
                same_but_outbox(self@, old_self),
                self@.last_outbox_id == old_self.last_outbox_id,
                self@.outbox@.len() == old_q.len(),
                i <= old_q.len(),
                forall|k: int| 0 <= k < i ==> with_migrated_name(old_q[k], #[trigger] self@.outbox@[k]),
                forall|k: int| i <= k < old_q.len() ==> #[trigger] self@.outbox@[k] == old_q[k],
            decreases old_q.len() - i,
        {
            let record = &self.tables.outbox[i];
            if record.transition_name.is_none() && record.transition_to.is_some() {
                let mut updated = record.clone();
                updated.transition_name = copy_opt_text(&record.transition_to);
                self.replace_outbox(i, updated);
            }
            i = i + 1;
        }
    }
}

proof fn lemma_pending_prefix(q: Seq<OutboxRecord>, i: int)
    requires
        0 <= i <= q.len(),
    ensures
        pending_records(q.subrange(0, i)).len() <= pending_records(q).len(),
        forall|k: int|
            0 <= k < pending_records(q.subrange(0, i)).len() ==> #[trigger] pending_records(
                q.subrange(0, i),
            )[k] == pending_records(q)[k],
        i == q.len() ==> pending_records(q.subrange(0, i)) == pending_records(q),
    decreases q.len() - i,
{
    if i == q.len() {
        assert(q.subrange(0, i) =~= q);
    } else {
        lemma_pending_prefix(q, i + 1);
        let p = q.subrange(0, i + 1);
        assert(p.drop_last() =~= q.subrange(0, i));
        let a = pending_records(q.subrange(0, i));
        let b = pending_records(p);
        assert forall|k: int| 0 <= k < a.len() implies #[trigger] a[k] == pending_records(q)[k] by {
            assert(a[k] == b[k]);
        }
    }
}

/// A queued update is pending, and it is taken up after every update that
/// was pending before it: it joins the end of the pending updates, and the
/// pending count goes up by one.
pub proof fn law_queued_update_joins_pending(
    before: StorageTables,
    after: StorageTables,
    issue_key: Seq<char>,
    transition_id: Option<Seq<char>>,
    transition_name: Option<Seq<char>>,
    comment: Option<Seq<char>>,
)
    requires
        update_queued(before, after, issue_key, transition_id, transition_name, comment),
    ensures
        pending_records(after.outbox@) == pending_records(before.outbox@).push(after.outbox@.last()),
        count_in_state(after.outbox@, "pending"@) == count_in_state(before.outbox@, "pending"@) + 1,
{
    assert(after.outbox@.drop_last() =~= before.outbox@) by {
        assert(after.outbox@.drop_last() =~= after.outbox@.subrange(0, before.outbox@.len() as int));
    }
}

/// The pending updates, in queue order: each is pending, their ids ascend,
/// and every pending update of the queue is among them.
pub proof fn law_pending_in_queue_order(s: Seq<OutboxRecord>)
    requires
        outbox_ids_increasing(s),
    ensures
        forall|i: int|
            0 <= i < pending_records(s).len() ==> (#[trigger] pending_records(s)[i]).state@
                == "pending"@,
        forall|i: int, j: int|
            0 <= i < j < pending_records(s).len() ==> (#[trigger] pending_records(s)[i]).id < (
            #[trigger] pending_records(s)[j]).id,
        forall|i: int|
            0 <= i < s.len() && (#[trigger] s[i]).state@ == "pending"@ ==> pending_records(
                s,
            ).contains(s[i]),
        forall|x: OutboxRecord| #[trigger] pending_records(s).contains(x) ==> s.contains(x),
    decreases s.len(),
{
    broadcast use vstd::seq_lib::group_seq_properties;

    if s.len() > 0 {
        let d = s.drop_last();
        assert(outbox_ids_increasing(d)) by {
            assert forall|i: int, j: int| 0 <= i < j < d.len() implies #[trigger] d[i].id
                < #[trigger] d[j].id by {
                assert(d[i] == s[i] && d[j] == s[j]);
            }
        }
        law_pending_in_queue_order(d);
        let pd = pending_records(d);
        let ps = pending_records(s);
        assert(s =~= d.push(s.last()));
        assert forall|x: OutboxRecord| #[trigger] ps.contains(x) implies s.contains(x) by {
            if pd.contains(x) {
                let k = choose|k: int| 0 <= k < d.len() && d[k] == x;
                assert(s[k] == x);
            } else {
                assert(s[s.len() - 1] == x);
            }
        }
        assert forall|i: int, j: int| 0 <= i < j < ps.len() implies (#[trigger] ps[i]).id < (
        #[trigger] ps[j]).id by {
            if s.last().state@ == "pending"@ && j == pd.len() {
                assert(ps[i] == pd[i]);
                assert(pd.contains(pd[i]));
                let k = choose|k: int| 0 <= k < d.len() && d[k] == pd[i];
                assert(s[k] == d[k]);
            } else {
                assert(ps[i] == pd[i] && ps[j] == pd[j]);
            }
        }
        assert forall|i: int| 0 <= i < s.len() && (#[trigger] s[i]).state@ == "pending"@ implies ps.contains(
            s[i],
        ) by {
            if i < d.len() {
                assert(s[i] == d[i]);
                assert(pd.contains(d[i]));
            }
        }
    }
}

} // verus!
