//! What the board shows: the unmapped issues, the cards of each column in
//! rank order, the rank of a card dropped in a column, and the count of
//! pending Jira updates.

use crate::models::{
    opt_text, BoardColumn, IssuePlacement, IssueSnapshot, OutboxAction, PersistedState,
};
use crate::storage::placements::put_placement;
use crate::storage::records::{
    find_placement, has_placement, lemma_placement_lookup_at, placement_keys_unique,
    placement_lookup,
};
use crate::storage::placements::{issue_moved, issue_unmapped};
use crate::storage::state::state_loaded;
use crate::storage::{tables_wf, StorageTables};
use crate::text::{is_white_space, law_trim_cuts_only_outer_white_space, same_text, trim, trim_text};
use vstd::prelude::*;
use vstd::string::*;

verus! {

/// The board as shown: issues, columns, placements keyed by issue key, the
/// number of pending Jira updates, and the messages for the user.
#[derive(Debug)]
pub struct UiState {
    pub issues: Vec<IssueSnapshot>,
    pub columns: Vec<BoardColumn>,
    pub placements: Vec<IssuePlacement>,
    pub outbox_pending_count: usize,
    pub notice: Option<String>,
    pub load_error: Option<String>,
}

/// The last placement of a list with the given key, if any.
pub open spec fn last_placement_with_key(s: Seq<IssuePlacement>, k: Seq<char>) -> Option<
    IssuePlacement,
>
    decreases s.len(),
{
    if s.len() == 0 {
        None
    } else if s.last().issue_key@ == k {
        Some(s.last())
    } else {
        last_placement_with_key(s.drop_last(), k)
    }
}

/// How many updates are pending.
pub open spec fn pending_count(s: Seq<OutboxAction>) -> nat
    decreases s.len(),
{
    if s.len() == 0 {
        0
    } else {
        pending_count(s.drop_last()) + if s.last().state@ == "pending"@ {
            1nat
        } else {
            0nat
        }
    }
}

/// Some placement puts the issue with this key in a column.
pub open spec fn in_a_column(placements: Seq<IssuePlacement>, issue_key: Seq<char>) -> bool {
    exists|i: int|
        0 <= i < placements.len() && #[trigger] placements[i].issue_key@ == issue_key
            && placements[i].column_id is Some
}

/// The issues without a personal column, in order: those with no placement,
/// and those whose placement has no column (its column was deleted).
pub open spec fn unmapped(issues: Seq<IssueSnapshot>, placements: Seq<IssuePlacement>) -> Seq<
    IssueSnapshot,
>
    decreases issues.len(),
{
    if issues.len() == 0 {
        issues
    } else if in_a_column(placements, issues.last().issue_key@) {
        unmapped(issues.drop_last(), placements)
    } else {
        unmapped(issues.drop_last(), placements).push(issues.last())
    }
}

/// The issues placed in a column, in order, each with its rank.
pub open spec fn column_entries(
    issues: Seq<IssueSnapshot>,
    placements: Seq<IssuePlacement>,
    column_id: i64,
) -> Seq<(i64, IssueSnapshot)>
    decreases issues.len(),
{
    if issues.len() == 0 {
        Seq::empty()
    } else {
        let rest = column_entries(issues.drop_last(), placements, column_id);
        match placement_lookup(placements, issues.last().issue_key@) {
            Some(p) => if p.column_id == Some(column_id) {
                rest.push((p.rank, issues.last()))
            } else {
                rest
            },
            None => rest,
        }
    }
}

/// Where an entry of rank `r` goes in a list sorted by rank: after every
/// entry of rank at most `r`.
pub open spec fn rank_slot(s: Seq<(i64, IssueSnapshot)>, r: i64) -> int
    decreases s.len(),
{
    if s.len() == 0 {
        0
    } else if s.last().0 <= r {
        s.len() as int
    } else {
        rank_slot(s.drop_last(), r)
    }
}

/// The entries sorted by rank, ascending; entries of equal rank keep their order.
pub open spec fn sort_by_rank(s: Seq<(i64, IssueSnapshot)>) -> Seq<(i64, IssueSnapshot)>
    decreases s.len(),
{
    if s.len() == 0 {
        s
    } else {
        let sorted = sort_by_rank(s.drop_last());
        sorted.insert(rank_slot(sorted, s.last().0), s.last())
    }
}

/// The cards of a column: its issues sorted by rank.
pub open spec fn column_cards(
    issues: Seq<IssueSnapshot>,
    placements: Seq<IssuePlacement>,
    column_id: i64,
) -> Seq<IssueSnapshot> {
    sort_by_rank(column_entries(issues, placements, column_id)).map_values(
        |e: (i64, IssueSnapshot)| e.1,
    )
}

/// The largest rank in a column, if the column holds a card.
pub open spec fn max_rank(placements: Seq<IssuePlacement>, column_id: i64) -> Option<int>
    decreases placements.len(),
{
    if placements.len() == 0 {
        None
    } else {
        let rest = max_rank(placements.drop_last(), column_id);
        let p = placements.last();
        if p.column_id == Some(column_id) {
            match rest {
                None => Some(p.rank as int),
                Some(m) => Some(
                    if m >= p.rank {
                        m
                    } else {
                        p.rank as int
                    },
                ),
            }
        } else {
            rest
        }
    }
}

/// The rank for a card dropped in a column: one more than the largest, or 1.
pub open spec fn next_rank(placements: Seq<IssuePlacement>, column_id: i64) -> int {
    match max_rank(placements, column_id) {
        None => 1,
        Some(m) => m + 1,
    }
}

/// The board shown for what the store holds: issues and columns as loaded,
/// placements keyed by issue key (a later placement of a key replacing an
/// earlier one), the number of pending updates, no notice and no error.
pub open spec fn board_from(persisted: PersistedState, r: UiState) -> bool {
    &&& r.issues@ == persisted.issues@
    &&& r.columns@ == persisted.columns@
    &&& placement_keys_unique(r.placements@)
    &&& forall|k: Seq<char>| #[trigger] placement_lookup(r.placements@, k) == last_placement_with_key(
        persisted.placements@,
        k,
    )
    &&& r.outbox_pending_count == pending_count(persisted.outbox_actions@)
    &&& r.notice is None
    &&& r.load_error is None
}

impl UiState {
    /// The board shown when the store could not be loaded: empty, with the
    /// reason as the load error.
    pub fn load_failed(message: &str) -> (r: UiState)
        ensures
            r.issues@.len() == 0,
            r.columns@.len() == 0,
            r.placements@.len() == 0,
            r.outbox_pending_count == 0,
            r.notice is None,
            r.load_error matches Some(e) && e@ == "Failed to load local data: "@ + message@,
    {
        let mut error = "Failed to load local data: ".to_owned();
        error.append(message);
        UiState {
            issues: Vec::new(),
            columns: Vec::new(),
            placements: Vec::new(),
            outbox_pending_count: 0,
            notice: None,
            load_error: Some(error),
        }
    }

    /// The board for what the store holds: placements keyed by issue key
    /// (a later placement of a key replacing an earlier one), and the number
    /// of pending updates; no notice and no error.
    pub fn from_persisted(persisted: PersistedState) -> (r: UiState)
        ensures
            board_from(persisted, r),
    {
        let PersistedState { issues, columns, placements: source, outbox_actions } = persisted;
        let mut placements: Vec<IssuePlacement> = Vec::new();
        let mut i: usize = 0;
        while i < source.len()
            invariant
                i <= source@.len(),
                placement_keys_unique(placements@),
                forall|k: Seq<char>| #[trigger] placement_lookup(placements@, k) == last_placement_with_key(
                    source@.subrange(0, i as int),
                    k,
                ),
            decreases source@.len() - i,
        {
            let p = source[i].clone();
            put_placement(&mut placements, p);
            let ghost prefix = source@.subrange(0, i + 1);
            assert(prefix.drop_last() =~= source@.subrange(0, i as int));
            i = i + 1;
        }
        assert(source@.subrange(0, source@.len() as int) =~= source@);
        let mut count: usize = 0;
        let mut j: usize = 0;
        proof {
            reveal_strlit("pending");
        }
        while j < outbox_actions.len()
            invariant
                j <= outbox_actions@.len(),
                count == pending_count(outbox_actions@.subrange(0, j as int)),
                count <= j,
            decreases outbox_actions@.len() - j,
        {
            let ghost prefix = outbox_actions@.subrange(0, j + 1);
            assert(prefix.drop_last() =~= outbox_actions@.subrange(0, j as int));
            if same_text(outbox_actions[j].state.as_str(), "pending") {
                count = count + 1;
            }
            j = j + 1;
        }
        assert(outbox_actions@.subrange(0, outbox_actions@.len() as int) =~= outbox_actions@);
        UiState {
            issues,
            columns,
            placements,
            outbox_pending_count: count,
            notice: None,
            load_error: None,
        }
    }
}

/// Whether some placement puts the issue with this key in a column.
fn placed_in_a_column(placements: &Vec<IssuePlacement>, issue_key: &str) -> (r: bool)
    ensures
        r == in_a_column(placements@, issue_key@),
{
    let mut i: usize = 0;
    while i < placements.len()
        invariant
            i <= placements@.len(),
            forall|j: int|
                0 <= j < i ==> !(#[trigger] placements@[j].issue_key@ == issue_key@
                    && placements@[j].column_id is Some),
        decreases placements@.len() - i,
    {
        if placements[i].column_id.is_some() && same_text(
            placements[i].issue_key.as_str(),
            issue_key,
        ) {
            return true;
        }
        i = i + 1;
    }
    false
}

/// The issues without a personal column (no placement, or a placement with
/// no column), in the order the board lists issues.
pub fn unmapped_issues(state: &UiState) -> (r: Vec<IssueSnapshot>)
    ensures
        r@ == unmapped(state.issues@, state.placements@),
{
    let mut r: Vec<IssueSnapshot> = Vec::new();
    let mut i: usize = 0;
    while i < state.issues.len()
        invariant
            i <= state.issues@.len(),
            r@ == unmapped(state.issues@.subrange(0, i as int), state.placements@),
        decreases state.issues@.len() - i,
    {
        let ghost prefix = state.issues@.subrange(0, i + 1);
        assert(prefix.drop_last() =~= state.issues@.subrange(0, i as int));
        let issue = &state.issues[i];
        if !placed_in_a_column(&state.placements, issue.issue_key.as_str()) {
            r.push(issue.clone());
        }
        i = i + 1;
    }
    assert(state.issues@.subrange(0, state.issues@.len() as int) =~= state.issues@);
    r
}

/// The cards of a column: the issues placed in it, sorted by rank; cards of
/// equal rank keep the order in which the board lists issues.
pub fn issues_in_column(state: &UiState, column_id: i64) -> (r: Vec<IssueSnapshot>)
    requires
        placement_keys_unique(state.placements@),
    ensures
        r@ == column_cards(state.issues@, state.placements@, column_id),
{
    let ghost issues = state.issues@;
    let ghost placements = state.placements@;
    let mut sorted: Vec<(i64, IssueSnapshot)> = Vec::new();
    let mut i: usize = 0;
    while i < state.issues.len()
        invariant
            i <= issues.len(),
            issues == state.issues@,
            placements == state.placements@,
            placement_keys_unique(placements),
            sorted@ == sort_by_rank(column_entries(issues.subrange(0, i as int), placements, column_id)),
        decreases issues.len() - i,
    {
        let ghost prefix = issues.subrange(0, i + 1);
        assert(prefix.drop_last() =~= issues.subrange(0, i as int));
        let issue = &state.issues[i];
        match find_placement(&state.placements, issue.issue_key.as_str()) {
            Some(k) => {
                proof {
                    lemma_placement_lookup_at(placements, k as int);
                }
                let placement = &state.placements[k];
                if placement.column_id == Some(column_id) {
                    let rank = placement.rank;
                    let mut j = sorted.len();
                    let ghost before = sorted@;
                    assert(before.subrange(0, before.len() as int) =~= before);
                    while j > 0 && sorted[j - 1].0 > rank
                        invariant
                            sorted@ == before,
                            j <= before.len(),
                            rank_slot(before, rank) == rank_slot(before.subrange(0, j as int), rank),
                        decreases j,
                    {
                        let ghost sub = before.subrange(0, j as int);
                        assert(sub.drop_last() =~= before.subrange(0, j - 1));
                        j = j - 1;
                    }
                    proof {
                        let sub = before.subrange(0, j as int);
                        if j == before.len() {
                            assert(sub =~= before);
                        }
                        if j > 0 {
                            assert(sub.last() == before[j - 1]);
                        }
                    }
                    assert(rank_slot(before, rank) == j);
                    let entry = (rank, issue.clone());
                    sorted.insert(j, entry);
                    proof {
                        let old_entries = column_entries(issues.subrange(0, i as int), placements, column_id);
                        let new_entries = column_entries(prefix, placements, column_id);
                        assert(prefix.last() == issues[i as int]);
                        assert(new_entries == old_entries.push(entry));
                        assert(new_entries.drop_last() =~= old_entries);
                    }
                } else {
                    proof {
                        assert(prefix.last() == issues[i as int]);
                    }
                }
            },
            None => {
                proof {
                    assert(prefix.last() == issues[i as int]);
                }
            },
        }
        i = i + 1;
    }
    assert(issues.subrange(0, issues.len() as int) =~= issues);
    let mut r: Vec<IssueSnapshot> = Vec::new();
    let mut k: usize = 0;
    while k < sorted.len()
        invariant
            k <= sorted@.len(),
            r@ == sorted@.subrange(0, k as int).map_values(|e: (i64, IssueSnapshot)| e.1),
        decreases sorted@.len() - k,
    {
        r.push(sorted[k].1.clone());
        assert(sorted@.subrange(0, k + 1).map_values(|e: (i64, IssueSnapshot)| e.1) =~= sorted@.subrange(
            0,
            k as int,
        ).map_values(|e: (i64, IssueSnapshot)| e.1).push(sorted@[k as int].1));
        k = k + 1;
    }
    assert(sorted@.subrange(0, sorted@.len() as int) =~= sorted@);
    r
}

/// The rank for a card dropped in a column: one more than the largest rank
/// in the column, or 1 in an empty column.
pub fn next_rank_for_column(state: &UiState, column_id: i64) -> (r: i64)
    requires
        max_rank(state.placements@, column_id) matches Some(m) ==> m < i64::MAX,
    ensures
        r == next_rank(state.placements@, column_id),
{
    let ps = &state.placements;
    let mut max: Option<i64> = None;
    let mut i: usize = 0;
    while i < ps.len()
        invariant
            i <= ps@.len(),
            max_rank(ps@.subrange(0, i as int), column_id) == match max {
                None => None::<int>,
                Some(m) => Some(m as int),
            },
        decreases ps@.len() - i,
    {
        let ghost prefix = ps@.subrange(0, i + 1);
        assert(prefix.drop_last() =~= ps@.subrange(0, i as int));
        let p = &ps[i];
        if p.column_id == Some(column_id) {
            max = match max {
                None => Some(p.rank),
                Some(m) => Some(
                    if m >= p.rank {
                        m
                    } else {
                        p.rank
                    },
                ),
            };
        }
        i = i + 1;
    }
    assert(ps@.subrange(0, ps@.len() as int) =~= ps@);
    match max {
        None => 1,
        Some(m) => m + 1,
    }
}

/// The trimmed text, or nothing when it is blank.
pub open spec fn optional_text(value: Seq<char>) -> Option<Seq<char>> {
    if trim(value).len() == 0 {
        None
    } else {
        Some(trim(value))
    }
}

/// The trimmed text, or nothing when it is blank.
pub fn normalize_optional(value: &str) -> (r: Option<String>)
    ensures
        opt_text(r) == optional_text(value@),
{
    let clean = trim_text(value);
    if clean.unicode_len() == 0 {
        None
    } else {
        Some(clean)
    }
}

/// The issue with this key is placed in the column at this rank.
pub open spec fn placed_at(
    placements: Seq<IssuePlacement>,
    issue_key: Seq<char>,
    column_id: i64,
    rank: i64,
) -> bool {
    placement_lookup(placements, issue_key) matches Some(p) && p.column_id == Some(column_id)
        && p.rank == rank
}

/// The entries are in ascending rank.
pub open spec fn ranks_ascending(s: Seq<(i64, IssueSnapshot)>) -> bool {
    forall|i: int, j: int| 0 <= i < j < s.len() ==> #[trigger] s[i].0 <= #[trigger] s[j].0
}

proof fn lemma_rank_slot(s: Seq<(i64, IssueSnapshot)>, r: i64)
    requires
        ranks_ascending(s),
    ensures
        0 <= rank_slot(s, r) <= s.len(),
        forall|i: int| 0 <= i < rank_slot(s, r) ==> #[trigger] s[i].0 <= r,
        forall|i: int| rank_slot(s, r) <= i < s.len() ==> #[trigger] s[i].0 > r,
    decreases s.len(),
{
    if s.len() > 0 {
        let d = s.drop_last();
        if s.last().0 <= r {
            assert forall|i: int| 0 <= i < s.len() implies #[trigger] s[i].0 <= r by {
                if i < s.len() - 1 {
                    assert(s[i].0 <= s[s.len() - 1].0);
                }
            }
        } else {
            assert forall|i: int, j: int| 0 <= i < j < d.len() implies #[trigger] d[i].0
                <= #[trigger] d[j].0 by {
                assert(d[i] == s[i] && d[j] == s[j]);
            }
            lemma_rank_slot(d, r);
            assert forall|i: int| rank_slot(s, r) <= i < s.len() implies #[trigger] s[i].0 > r by {
                if i < s.len() - 1 {
                    assert(s[i] == d[i]);
                }
            }
            assert forall|i: int| 0 <= i < rank_slot(s, r) implies #[trigger] s[i].0 <= r by {
                assert(s[i] == d[i]);
            }
        }
    }
}

/// Sorting by rank puts the entries in ascending rank and keeps every entry,
/// as often as it occurs.
pub proof fn lemma_sort_by_rank(s: Seq<(i64, IssueSnapshot)>)
    ensures
        ranks_ascending(sort_by_rank(s)),
        sort_by_rank(s).to_multiset() == s.to_multiset(),
        sort_by_rank(s).len() == s.len(),
    decreases s.len(),
{
    broadcast use vstd::seq_lib::group_seq_properties;
    broadcast use vstd::seq_lib::to_multiset_insert;

    if s.len() == 0 {
        assert(s.to_multiset() =~= sort_by_rank(s).to_multiset());
    } else {
        let d = s.drop_last();
        let x = s.last();
        lemma_sort_by_rank(d);
        let sd = sort_by_rank(d);
        let slot = rank_slot(sd, x.0);
        lemma_rank_slot(sd, x.0);
        sd.insert_ensures(slot, x);
        let t = sd.insert(slot, x);
        assert(t == sort_by_rank(s));
        assert forall|i: int, j: int| 0 <= i < j < t.len() implies #[trigger] t[i].0
            <= #[trigger] t[j].0 by {
            if j < slot {
                assert(t[i] == sd[i] && t[j] == sd[j]);
            } else if j == slot {
                assert(t[i] == sd[i]);
            } else {
                assert(t[j] == sd[j - 1]);
                if i < slot {
                    assert(t[i] == sd[i]);
                } else if i > slot {
                    assert(t[i] == sd[i - 1]);
                }
            }
        }
        assert(s =~= d.push(x));
        assert(t.to_multiset() == sd.to_multiset().insert(x));
    }
}

/// The unmapped issues are exactly the listed issues without a personal
/// column: with placements keyed by issue key, those that have no placement
/// or whose placement has no column.
pub proof fn law_unmapped_are_the_unplaced(
    issues: Seq<IssueSnapshot>,
    placements: Seq<IssuePlacement>,
    x: IssueSnapshot,
)
    ensures
        unmapped(issues, placements).contains(x) <==> (issues.contains(x) && !in_a_column(
            placements,
            x.issue_key@,
        )),
        placement_keys_unique(placements) ==> (unmapped(issues, placements).contains(x) <==> (
        issues.contains(x) && match placement_lookup(placements, x.issue_key@) {
            None => true,
            Some(p) => p.column_id is None,
        })),
    decreases issues.len(),
{
    broadcast use vstd::seq_lib::group_seq_properties;

    if issues.len() > 0 {
        let d = issues.drop_last();
        law_unmapped_are_the_unplaced(d, placements, x);
        assert(issues =~= d.push(issues.last()));
    }
    if placement_keys_unique(placements) {
        lemma_in_a_column_is_lookup(placements, x.issue_key@);
    }
}

proof fn lemma_in_a_column_is_lookup(placements: Seq<IssuePlacement>, k: Seq<char>)
    requires
        placement_keys_unique(placements),
    ensures
        in_a_column(placements, k) <==> (placement_lookup(placements, k) matches Some(p)
            && p.column_id is Some),
{
    if in_a_column(placements, k) {
        let i = choose|i: int|
            0 <= i < placements.len() && #[trigger] placements[i].issue_key@ == k
                && placements[i].column_id is Some;
        lemma_placement_lookup_at(placements, i);
    }
    if placement_lookup(placements, k) is Some {
        let i = choose|i: int| 0 <= i < placements.len() && #[trigger] placements[i].issue_key@ == k;
        lemma_placement_lookup_at(placements, i);
    }
}

/// The entries of a column are exactly the issues whose placement is in the
/// column, each with the rank of its placement.
pub proof fn lemma_column_entries(
    issues: Seq<IssueSnapshot>,
    placements: Seq<IssuePlacement>,
    column_id: i64,
    e: (i64, IssueSnapshot),
)
    ensures
        column_entries(issues, placements, column_id).contains(e) <==> (issues.contains(e.1)
            && placed_at(placements, e.1.issue_key@, column_id, e.0)),
    decreases issues.len(),
{
    broadcast use vstd::seq_lib::group_seq_properties;

    if issues.len() > 0 {
        let d = issues.drop_last();
        lemma_column_entries(d, placements, column_id, e);
        assert(issues =~= d.push(issues.last()));
    }
}

/// The cards of a column are in ascending rank, and they are exactly the
/// issues placed in the column, each once for each time it is listed.
pub proof fn law_column_cards_in_rank_order(
    issues: Seq<IssueSnapshot>,
    placements: Seq<IssuePlacement>,
    column_id: i64,
)
    ensures
        ranks_ascending(sort_by_rank(column_entries(issues, placements, column_id))),
        sort_by_rank(column_entries(issues, placements, column_id)).to_multiset() == column_entries(
            issues,
            placements,
            column_id,
        ).to_multiset(),
        forall|e: (i64, IssueSnapshot)|
            #[trigger] sort_by_rank(column_entries(issues, placements, column_id)).contains(e) <==> (
            issues.contains(e.1) && placed_at(placements, e.1.issue_key@, column_id, e.0)),
        column_cards(issues, placements, column_id) == sort_by_rank(
            column_entries(issues, placements, column_id),
        ).map_values(|e: (i64, IssueSnapshot)| e.1),
{
    broadcast use vstd::seq_lib::group_seq_properties;

    let entries = column_entries(issues, placements, column_id);
    lemma_sort_by_rank(entries);
    let sorted = sort_by_rank(entries);
    assert forall|e: (i64, IssueSnapshot)| #[trigger] sorted.contains(e) <==> (issues.contains(e.1)
        && placed_at(placements, e.1.issue_key@, column_id, e.0)) by {
        lemma_column_entries(issues, placements, column_id, e);
        assert(sorted.contains(e) <==> sorted.to_multiset().count(e) > 0);
        assert(entries.contains(e) <==> entries.to_multiset().count(e) > 0);
    }
}

proof fn lemma_max_rank_bounds(placements: Seq<IssuePlacement>, column_id: i64)
    ensures
        forall|i: int|
            0 <= i < placements.len() && (#[trigger] placements[i]).column_id == Some(column_id)
                ==> (max_rank(placements, column_id) matches Some(m) && placements[i].rank <= m),
    decreases placements.len(),
{
    if placements.len() > 0 {
        let d = placements.drop_last();
        lemma_max_rank_bounds(d, column_id);
        assert forall|i: int|
            0 <= i < placements.len() && (#[trigger] placements[i]).column_id == Some(column_id)
                implies (max_rank(placements, column_id) matches Some(m) && placements[i].rank
                <= m) by {
            if i < placements.len() - 1 {
                assert(placements[i] == d[i]);
            }
        }
    }
}

/// A card dropped in a column gets a rank above every card already there.
pub proof fn law_next_rank_above_column(placements: Seq<IssuePlacement>, column_id: i64)
    ensures
        forall|i: int|
            0 <= i < placements.len() && (#[trigger] placements[i]).column_id == Some(column_id)
                ==> placements[i].rank < next_rank(placements, column_id),
{
    lemma_max_rank_bounds(placements, column_id);
}

proof fn lemma_last_placement_is_lookup(s: Seq<IssuePlacement>, k: Seq<char>)
    requires
        placement_keys_unique(s),
    ensures
        last_placement_with_key(s, k) == placement_lookup(s, k),
    decreases s.len(),
{
    if s.len() > 0 {
        let d = s.drop_last();
        let n = s.len() - 1;
        if s.last().issue_key@ == k {
            lemma_placement_lookup_at(s, n);
        } else {
            assert(placement_keys_unique(d)) by {
                assert forall|a: int, b: int|
                    0 <= a < d.len() && 0 <= b < d.len() && a != b implies d[a].issue_key@
                    != d[b].issue_key@ by {
                    assert(d[a] == s[a] && d[b] == s[b]);
                }
            }
            lemma_last_placement_is_lookup(d, k);
            if has_placement(d, k) {
                let j = choose|j: int| 0 <= j < d.len() && #[trigger] d[j].issue_key@ == k;
                lemma_placement_lookup_at(d, j);
                assert(s[j] == d[j]);
                lemma_placement_lookup_at(s, j);
            } else if has_placement(s, k) {
                let j = choose|j: int| 0 <= j < s.len() && #[trigger] s[j].issue_key@ == k;
                assert(j < n);
                assert(d[j] == s[j]);
            }
        }
    }
}

/// The board loaded from a store keys each issue to the placement stored for it.
proof fn lemma_board_placements(
    stored: StorageTables,
    loaded: PersistedState,
    board: UiState,
    k: Seq<char>,
)
    requires
        tables_wf(stored),
        state_loaded(stored, loaded),
        board_from(loaded, board),
    ensures
        placement_lookup(board.placements@, k) == placement_lookup(stored.placements@, k),
{
    lemma_last_placement_is_lookup(stored.placements@, k);
    assert(placement_lookup(board.placements@, k) == last_placement_with_key(loaded.placements@, k));
}

/// A card whose placement is in a column at a rank is among that column's cards.
proof fn lemma_placed_card_shows(
    issues: Seq<IssueSnapshot>,
    placements: Seq<IssuePlacement>,
    column_id: i64,
    i: int,
    rank: i64,
)
    requires
        0 <= i < issues.len(),
        placed_at(placements, issues[i].issue_key@, column_id, rank),
    ensures
        column_cards(issues, placements, column_id).contains(issues[i]),
{
    broadcast use vstd::seq_lib::group_seq_properties;

    let x = issues[i];
    let e = (rank, x);
    lemma_column_entries(issues, placements, column_id, e);
    let entries = column_entries(issues, placements, column_id);
    lemma_sort_by_rank(entries);
    let sorted = sort_by_rank(entries);
    assert(entries.to_multiset().count(e) > 0);
    assert(sorted.contains(e));
    let k = choose|k: int| 0 <= k < sorted.len() && sorted[k] == e;
    assert(column_cards(issues, placements, column_id)[k] == x);
}

/// A card with no placement is among no column's cards.
proof fn lemma_unplaced_card_hidden(
    issues: Seq<IssueSnapshot>,
    placements: Seq<IssuePlacement>,
    column_id: i64,
    x: IssueSnapshot,
)
    requires
        placement_lookup(placements, x.issue_key@) is None,
    ensures
        !column_cards(issues, placements, column_id).contains(x),
{
    broadcast use vstd::seq_lib::group_seq_properties;

    let entries = column_entries(issues, placements, column_id);
    lemma_sort_by_rank(entries);
    let sorted = sort_by_rank(entries);
    let cards = column_cards(issues, placements, column_id);
    if cards.contains(x) {
        let k = choose|k: int| 0 <= k < cards.len() && cards[k] == x;
        let e = sorted[k];
        assert(e.1 == x);
        assert(sorted.to_multiset().count(e) > 0);
        assert(entries.contains(e));
        lemma_column_entries(issues, placements, column_id, e);
    }
}

/// A card moved to a column shows among that column's cards, and no longer
/// among the unmapped issues, on the board loaded after the move.
pub proof fn law_moved_card_shows_in_column(
    before: StorageTables,
    after: StorageTables,
    issue_key: Seq<char>,
    column_id: i64,
    rank: i64,
    loaded: PersistedState,
    board: UiState,
    i: int,
)
    requires
        tables_wf(after),
        issue_moved(before, after, issue_key, column_id, rank),
        state_loaded(after, loaded),
        board_from(loaded, board),
        0 <= i < board.issues@.len(),
        board.issues@[i].issue_key@ == issue_key,
    ensures
        column_cards(board.issues@, board.placements@, column_id).contains(board.issues@[i]),
        !unmapped(board.issues@, board.placements@).contains(board.issues@[i]),
{
    lemma_board_placements(after, loaded, board, issue_key);
    lemma_placed_card_shows(board.issues@, board.placements@, column_id, i, rank);
    law_unmapped_are_the_unplaced(board.issues@, board.placements@, board.issues@[i]);
}

/// A card that is unmapped shows among the unmapped issues, and in no column,
/// on the board loaded after it was unmapped.
pub proof fn law_unmapped_card_shows_unmapped(
    before: StorageTables,
    after: StorageTables,
    issue_key: Seq<char>,
    loaded: PersistedState,
    board: UiState,
    i: int,
)
    requires
        tables_wf(after),
        issue_unmapped(before, after, issue_key),
        state_loaded(after, loaded),
        board_from(loaded, board),
        0 <= i < board.issues@.len(),
        board.issues@[i].issue_key@ == issue_key,
    ensures
        unmapped(board.issues@, board.placements@).contains(board.issues@[i]),
        forall|column_id: i64|
            !(#[trigger] column_cards(board.issues@, board.placements@, column_id)).contains(
                board.issues@[i],
            ),
{
    broadcast use vstd::seq_lib::group_seq_properties;

    lemma_board_placements(after, loaded, board, issue_key);
    law_unmapped_are_the_unplaced(board.issues@, board.placements@, board.issues@[i]);
    assert forall|column_id: i64|
        !(#[trigger] column_cards(board.issues@, board.placements@, column_id)).contains(
            board.issues@[i],
        ) by {
        lemma_unplaced_card_hidden(board.issues@, board.placements@, column_id, board.issues@[i]);
    }
}

/// A typed optional value is none exactly when it is all white space; else it
/// is the typed text with only its outer white space cut: the piece between
/// `bounds.0` and `bounds.1`, with only white space around it and a character
/// that is not white space at each of its ends. Inner characters, line
/// breaks included, are kept.
pub proof fn law_optional_text_cuts_only_outer_white_space(value: Seq<char>) -> (bounds: (int, int))
    ensures
        optional_text(value) is None <==> forall|k: int|
            0 <= k < value.len() ==> is_white_space(#[trigger] value[k]),
        optional_text(value) is Some ==> {
            &&& 0 <= bounds.0 < bounds.1 <= value.len()
            &&& optional_text(value) == Some(value.subrange(bounds.0, bounds.1))
            &&& forall|k: int| 0 <= k < bounds.0 ==> is_white_space(#[trigger] value[k])
            &&& forall|k: int| bounds.1 <= k < value.len() ==> is_white_space(#[trigger] value[k])
            &&& !is_white_space(value[bounds.0])
            &&& !is_white_space(value[bounds.1 - 1])
        },
{
    let bounds = law_trim_cuts_only_outer_white_space(value);
    if bounds.0 == bounds.1 {
        assert forall|k: int| 0 <= k < value.len() implies is_white_space(#[trigger] value[k]) by {
            if k >= bounds.0 {
                assert(bounds.1 <= k);
            }
        }
    } else {
        assert(!is_white_space(value[bounds.0]));
    }
    bounds
}

/// The pending count is the number of loaded updates whose state is exactly
/// "pending": an update in any other state (sent, failed, being sent) adds
/// nothing, and each pending one adds one.
pub proof fn law_pending_count_counts_pending(s: Seq<OutboxAction>, x: OutboxAction)
    ensures
        pending_count(s) == s.filter(|a: OutboxAction| a.state@ == "pending"@).len(),
        pending_count(s.push(x)) == pending_count(s) + if x.state@ == "pending"@ {
            1int
        } else {
            0int
        },
    decreases s.len(),
{
    reveal(Seq::filter);
    if s.len() > 0 {
        let d = s.drop_last();
        law_pending_count_counts_pending(d, x);
        assert(s =~= d.push(s.last()));
        d.lemma_filter_push(s.last(), |a: OutboxAction| a.state@ == "pending"@);
    }
    assert(s.push(x).drop_last() =~= s);
}

/// The board's pending badge counts the loaded updates whose state is
/// exactly "pending".
pub proof fn law_board_counts_pending_updates(persisted: PersistedState, board: UiState)
    requires
        board_from(persisted, board),
    ensures
        board.outbox_pending_count == persisted.outbox_actions@.filter(
            |a: OutboxAction| a.state@ == "pending"@,
        ).len(),
{
    law_pending_count_counts_pending(persisted.outbox_actions@, persisted.outbox_actions@.last());
}

} // verus!
