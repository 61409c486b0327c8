//! What the board's controls do to the store, and the notice each shows:
//! adding a column, saving a card dropped in a column, and dropping a card
//! back among the unmapped issues.

use crate::board::{max_rank, next_rank, next_rank_for_column, normalize_optional, optional_text, UiState};
use crate::models::opt_text;
use crate::storage::columns::{column_created, next_sort_order};
use crate::storage::outbox::queue_result;
use crate::storage::placements::{issue_moved, issue_unmapped};
use crate::storage::records::placement_lookup;
use crate::storage::{same_tables, AppStorage, StorageError, StorageTables};
use crate::text::{trim, trim_text};
use vstd::prelude::*;
use vstd::string::*;

verus! {

/// What a control did: whether the board is to be reloaded from the store
/// (it changed), and the notice to show.
#[derive(Debug, PartialEq, Eq)]
pub struct ControlOutcome {
    pub reload: bool,
    pub notice: String,
}

/// The transition a drop queues: the chosen transition id, trimmed, and its
/// name, trimmed; none when no transition was chosen.
pub open spec fn chosen_transition(
    transition_id: Seq<char>,
    transition_name: Seq<char>,
) -> (Option<Seq<char>>, Option<Seq<char>>) {
    match optional_text(transition_id) {
        Some(id) => (Some(id), optional_text(transition_name)),
        None => (None, None),
    }
}

/// The store after a card is saved in a column at a rank, with the update
/// for the transition and comment queued as `queue_result` says.
pub open spec fn move_saved(
    before: StorageTables,
    after: StorageTables,
    issue_key: Seq<char>,
    column_id: i64,
    rank: i64,
    transition_id: Option<Seq<char>>,
    transition_name: Option<Seq<char>>,
    comment: Option<Seq<char>>,
    r: Result<(), StorageError>,
) -> bool {
    exists|moved: StorageTables|
        #[trigger] issue_moved(before, moved, issue_key, column_id, rank) && queue_result(
            moved,
            after,
            issue_key,
            transition_id,
            transition_name,
            comment,
            r,
        )
}

fn as_opt_str(o: &Option<String>) -> (r: Option<&str>)
    ensures
        match r {
            Some(s) => o matches Some(t) && s@ == t@,
            None => o is None,
        },
{
    match o {
        Some(s) => Some(s.as_str()),
        None => None,
    }
}

/// The issue's placement is stamped with `now`.
pub open spec fn move_stamped(t: StorageTables, issue_key: Seq<char>, now: Seq<char>) -> bool {
    placement_lookup(t.placements@, issue_key) matches Some(p) && p.moved_at@ == now
}

/// Saves a card dropped in a column at time `now`: it is placed after the
/// column's cards (at the next rank the board shows), and the chosen
/// transition and the comment, each trimmed and blank meaning none, are
/// queued as one Jira update. Returns whether an update was queued.
pub fn save_move(
    storage: &mut AppStorage,
    board: &UiState,
    issue_key: &str,
    column_id: i64,
    transition_id: &str,
    transition_name: &str,
    comment: &str,
    now: &str,
) -> (r: Result<bool, StorageError>)
    requires
        old(storage).wf(),
        max_rank(board.placements@, column_id) matches Some(m) ==> m < i64::MAX,
    ensures
        final(storage).wf(),
        move_saved(
            old(storage)@,
            final(storage)@,
            issue_key@,
            column_id,
            next_rank(board.placements@, column_id) as i64,
            chosen_transition(transition_id@, transition_name@).0,
            chosen_transition(transition_id@, transition_name@).1,
            optional_text(comment@),
            match r {
                Ok(_) => Ok(()),
                Err(e) => Err(e),
            },
        ),
        r matches Ok(queued) ==> queued == (chosen_transition(transition_id@, transition_name@).0 is Some
            || optional_text(comment@) is Some),
        move_stamped(final(storage)@, issue_key@, now@),
        final(storage)@.outbox@.len() > old(storage)@.outbox@.len() ==> final(storage)@.outbox@.last().created_at@
            == now@,
{
    let rank = next_rank_for_column(board, column_id);
    let tid = normalize_optional(transition_id);
    let tname = match &tid {
        Some(_) => normalize_optional(transition_name),
        None => None,
    };
    let body = normalize_optional(comment);
    storage.move_issue(issue_key, column_id, rank, now);
    let ghost moved = storage@;
    let queued = tid.is_some() || body.is_some();
    let r = storage.queue_jira_update(
        issue_key,
        as_opt_str(&tid),
        as_opt_str(&tname),
        as_opt_str(&body),
        now,
    );
    assert(issue_moved(old(storage)@, moved, issue_key@, column_id, rank));
    match r {
        Ok(()) => Ok(queued),
        Err(e) => Err(e),
    }
}

/// The notice after a move is saved.
pub open spec fn move_saved_notice(queued: bool) -> Seq<char> {
    if queued {
        "Move saved locally and Jira update queued."@
    } else {
        "Move saved locally."@
    }
}

/// The "Save Move" control: saves the move and tells what was done, or why
/// it could not be saved.
pub fn save_move_control(
    storage: &mut AppStorage,
    board: &UiState,
    issue_key: &str,
    column_id: i64,
    transition_id: &str,
    transition_name: &str,
    comment: &str,
    now: &str,
) -> (r: ControlOutcome)
    requires
        old(storage).wf(),
        max_rank(board.placements@, column_id) matches Some(m) ==> m < i64::MAX,
    ensures
        final(storage).wf(),
        exists|res: Result<(), StorageError>|
            #[trigger] move_saved(
                old(storage)@,
                final(storage)@,
                issue_key@,
                column_id,
                next_rank(board.placements@, column_id) as i64,
                chosen_transition(transition_id@, transition_name@).0,
                chosen_transition(transition_id@, transition_name@).1,
                optional_text(comment@),
                res,
            ) && match res {
                Ok(_) => r.reload && r.notice@ == move_saved_notice(
                    chosen_transition(transition_id@, transition_name@).0 is Some || optional_text(
                        comment@,
                    ) is Some,
                ),
                Err(_) => !r.reload && r.notice@ == "Could not save move: failed to queue jira update"@,
            },
        move_stamped(final(storage)@, issue_key@, now@),
        final(storage)@.outbox@.len() > old(storage)@.outbox@.len() ==> final(storage)@.outbox@.last().created_at@
            == now@,
{
    let r = save_move(storage, board, issue_key, column_id, transition_id, transition_name, comment, now);
    let ghost res = match r {
        Ok(_) => Ok::<(), StorageError>(()),
        Err(e) => Err(e),
    };
    match r {
        Ok(queued) => {
            let notice = if queued {
                "Move saved locally and Jira update queued.".to_owned()
            } else {
                "Move saved locally.".to_owned()
            };
            assert(move_saved(
                old(storage)@,
                storage@,
                issue_key@,
                column_id,
                next_rank(board.placements@, column_id) as i64,
                chosen_transition(transition_id@, transition_name@).0,
                chosen_transition(transition_id@, transition_name@).1,
                optional_text(comment@),
                res,
            ));
            ControlOutcome { reload: true, notice }
        },
        Err(_) => {
            let notice = "Could not save move: failed to queue jira update".to_owned();
            assert(move_saved(
                old(storage)@,
                storage@,
                issue_key@,
                column_id,
                next_rank(board.placements@, column_id) as i64,
                chosen_transition(transition_id@, transition_name@).0,
                chosen_transition(transition_id@, transition_name@).1,
                optional_text(comment@),
                res,
            ));
            ControlOutcome { reload: false, notice }
        },
    }
}

/// The "Add Column" control: a blank name is refused with a hint and the
/// store is left as it was; otherwise the column is created under the trimmed
/// name, stamped with `created_at`, or the reason it could not be is shown.
pub fn add_column_control(storage: &mut AppStorage, input: &str, created_at: &str) -> (r: ControlOutcome)
    requires
        old(storage).wf(),
    ensures
        final(storage).wf(),
        trim(input@).len() == 0 ==> {
            &&& same_tables(final(storage)@, old(storage)@)
            &&& !r.reload
            &&& r.notice@ == "Type a column name before adding it."@
        },
        trim(input@).len() != 0 && next_sort_order(old(storage)@.columns@) > i64::MAX ==> {
            &&& same_tables(final(storage)@, old(storage)@)
            &&& !r.reload
            &&& r.notice@ == "Failed to add column: "@
                + StorageError::ColumnOrderUnavailable.message_text()
        },
        trim(input@).len() != 0 && next_sort_order(old(storage)@.columns@) <= i64::MAX
            && old(storage)@.last_column_id == i64::MAX ==> {
            &&& same_tables(final(storage)@, old(storage)@)
            &&& !r.reload
            &&& r.notice@ == "Failed to add column: failed to insert column"@
        },
        trim(input@).len() != 0 && next_sort_order(old(storage)@.columns@) <= i64::MAX
            && old(storage)@.last_column_id < i64::MAX ==> {
            &&& column_created(old(storage)@, final(storage)@, input@)
            &&& final(storage)@.columns@.last().created_at@ == created_at@
            &&& r.reload
            &&& r.notice@ == "Added column '"@ + trim(input@) + "'."@
        },
{
    let name = trim_text(input);
    proof {
        crate::text::law_trim_idempotent(input@);
    }
    if name.unicode_len() == 0 {
        return ControlOutcome { reload: false, notice: "Type a column name before adding it.".to_owned() };
    }
    match storage.create_column(name.as_str(), created_at) {
        Ok(()) => {
            let mut notice = "Added column '".to_owned();
            notice.append(name.as_str());
            notice.append("'.");
            ControlOutcome { reload: true, notice }
        },
        Err(StorageError::IdsExhausted) => ControlOutcome {
            reload: false,
            notice: "Failed to add column: failed to insert column".to_owned(),
        },
        Err(e) => {
            let mut notice = "Failed to add column: ".to_owned();
            let m = e.message();
            notice.append(m.as_str());
            ControlOutcome { reload: false, notice }
        },
    }
}

/// Dropping a card back among the unmapped issues removes its placement.
pub fn unmap_control(storage: &mut AppStorage, issue_key: &str) -> (r: ControlOutcome)
    requires
        old(storage).wf(),
    ensures
        final(storage).wf(),
        issue_unmapped(old(storage)@, final(storage)@, issue_key@),
        r.reload,
        r.notice@ == "Issue moved back to Unmapped."@,
{
    storage.unmap_issue(issue_key);
    ControlOutcome { reload: true, notice: "Issue moved back to Unmapped.".to_owned() }
}

} // verus!
