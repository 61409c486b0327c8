//! Reading the whole store for the board, checking tables read from disk,
//! and bringing a store up to date when it is opened.

use crate::models::{BoardColumn, IssuePlacement, IssueSnapshot, OutboxAction, PersistedState};
use crate::storage::columns::default_column_name;
use crate::storage::outbox::{action_from_record, action_of, with_migrated_name};
use crate::storage::records::{
    column_before, columns_ordered, issue_keys_unique, issues_newest_first,
    lemma_text_le_transitive, outbox_ids_increasing, placement_keys_unique, setting_keys_unique,
    ColumnRecord, OutboxRecord, SettingRecord,
};
use crate::storage::{same_tables, tables_wf, AppStorage, StorageError, StorageTables};
use crate::text::{same_text, text_le, text_less};
use vstd::prelude::*;
use vstd::string::*;

verus! {

/// `c` is how the column row `r` is shown.
pub open spec fn column_of(r: ColumnRecord, c: BoardColumn) -> bool {
    &&& c.id == r.id
    &&& c.name == r.name
    &&& c.sort_order == r.sort_order
}

/// The older outbox columns that a table lacks, in the order they are added.
pub open spec fn missing_outbox_columns_of(existing: Seq<Seq<char>>) -> Seq<Seq<char>> {
    (if existing.contains("transition_to"@) {
        Seq::empty()
    } else {
        seq!["transition_to"@]
    }) + (if existing.contains("transition_id"@) {
        Seq::empty()
    } else {
        seq!["transition_id"@]
    }) + (if existing.contains("transition_name"@) {
        Seq::empty()
    } else {
        seq!["transition_name"@]
    })
}

fn names_contain(names: &Vec<String>, name: &str) -> (r: bool)
    ensures
        r == names@.map_values(|n: String| n@).contains(name@),
{
    let ghost views = names@.map_values(|n: String| n@);
    let mut i: usize = 0;
    while i < names.len()
        invariant
            i <= names@.len(),
            views == names@.map_values(|n: String| n@),
            forall|k: int| 0 <= k < i ==> views[k] != name@,
        decreases names@.len() - i,
    {
        if same_text(names[i].as_str(), name) {
            assert(views[i as int] == name@);
            return true;
        }
        i = i + 1;
    }
    false
}

/// Which of the outbox table's columns `transition_to`, `transition_id` and
/// `transition_name` are missing from the existing column names, in that order.
pub fn missing_outbox_columns(existing: &Vec<String>) -> (r: Vec<String>)
    ensures
        r@.map_values(|n: String| n@) == missing_outbox_columns_of(
            existing@.map_values(|n: String| n@),
        ),
{
    let mut r: Vec<String> = Vec::new();
    let ghost views = existing@.map_values(|n: String| n@);
    if !names_contain(existing, "transition_to") {
        r.push("transition_to".to_owned());
    }
    let ghost r1 = r@.map_values(|n: String| n@);
    if !names_contain(existing, "transition_id") {
        r.push("transition_id".to_owned());
    }
    let ghost r2 = r@.map_values(|n: String| n@);
    if !names_contain(existing, "transition_name") {
        r.push("transition_name".to_owned());
    }
    assert(r@.map_values(|n: String| n@) =~= missing_outbox_columns_of(views));
    r
}

fn check_issue_keys_unique(s: &Vec<IssueSnapshot>) -> (r: bool)
    ensures
        r == issue_keys_unique(s@),
{
    let mut i: usize = 0;
    while i < s.len()
        invariant
            i <= s@.len(),
            forall|a: int, b: int|
                0 <= a < i && 0 <= b < i && a != b ==> s@[a].issue_key@ != s@[b].issue_key@,
        decreases s@.len() - i,
    {
        let mut j: usize = 0;
        while j < i
            invariant
                i < s@.len(),
                j <= i,
                forall|b: int| 0 <= b < j ==> s@[b].issue_key@ != s@[i as int].issue_key@,
            decreases i - j,
        {
            if same_text(s[j].issue_key.as_str(), s[i].issue_key.as_str()) {
                return false;
            }
            j = j + 1;
        }
        i = i + 1;
    }
    true
}

fn check_issues_newest_first(s: &Vec<IssueSnapshot>) -> (r: bool)
    ensures
        r == issues_newest_first(s@),
{
    let mut i: usize = 1;
    if s.len() == 0 {
        return true;
    }
    while i < s.len()
        invariant
            1 <= i <= s@.len(),
            forall|a: int, b: int|
                0 <= a < b < i ==> text_le(#[trigger] s@[b].updated_at@, #[trigger] s@[a].updated_at@),
        decreases s@.len() - i,
    {
        if text_less(s[i - 1].updated_at.as_str(), s[i].updated_at.as_str()) {
            return false;
        }
        proof {
            assert forall|a: int, b: int| 0 <= a < b < i + 1 implies text_le(
                #[trigger] s@[b].updated_at@,
                #[trigger] s@[a].updated_at@,
            ) by {
                if b == i && a < i - 1 {
                    lemma_text_le_transitive(
                        s@[b].updated_at@,
                        s@[i - 1].updated_at@,
                        s@[a].updated_at@,
                    );
                }
            }
        }
        i = i + 1;
    }
    true
}

fn check_columns(s: &Vec<ColumnRecord>, last_id: i64) -> (r: bool)
    ensures
        r == (columns_ordered(s@) && forall|i: int| 0 <= i < s@.len() ==> #[trigger] s@[i].id <= last_id),
{
    let mut i: usize = 0;
    while i < s.len()
        invariant
            i <= s@.len(),
            forall|a: int, b: int| 0 <= a < b < i ==> column_before(#[trigger] s@[a], #[trigger] s@[b]),
            forall|a: int| 0 <= a < i ==> #[trigger] s@[a].id <= last_id,
        decreases s@.len() - i,
    {
        if s[i].id > last_id {
            return false;
        }
        if i > 0 {
            let a = &s[i - 1];
            let b = &s[i];
            if !(a.sort_order < b.sort_order || (a.sort_order == b.sort_order && a.id < b.id)) {
                return false;
            }
            proof {
                assert forall|x: int, y: int| 0 <= x < y < i + 1 implies column_before(
                    #[trigger] s@[x],
                    #[trigger] s@[y],
                ) by {
                    if y == i && x < i - 1 {
                        assert(column_before(s@[x], s@[i - 1]));
                    }
                }
            }
        }
        i = i + 1;
    }
    true
}

fn check_placement_keys_unique(s: &Vec<IssuePlacement>) -> (r: bool)
    ensures
        r == placement_keys_unique(s@),
{
    let mut i: usize = 0;
    while i < s.len()
        invariant
            i <= s@.len(),
            forall|a: int, b: int|
                0 <= a < i && 0 <= b < i && a != b ==> s@[a].issue_key@ != s@[b].issue_key@,
        decreases s@.len() - i,
    {
        let mut j: usize = 0;
        while j < i
            invariant
                i < s@.len(),
                j <= i,
                forall|b: int| 0 <= b < j ==> s@[b].issue_key@ != s@[i as int].issue_key@,
            decreases i - j,
        {
            if same_text(s[j].issue_key.as_str(), s[i].issue_key.as_str()) {
                return false;
            }
            j = j + 1;
        }
        i = i + 1;
    }
    true
}

fn check_setting_keys_unique(s: &Vec<SettingRecord>) -> (r: bool)
    ensures
        r == setting_keys_unique(s@),
{
    let mut i: usize = 0;
    while i < s.len()
        invariant
            i <= s@.len(),
            forall|a: int, b: int| 0 <= a < i && 0 <= b < i && a != b ==> s@[a].key@ != s@[b].key@,
        decreases s@.len() - i,
    {
        let mut j: usize = 0;
        while j < i
            invariant
                i < s@.len(),
                j <= i,
                forall|b: int| 0 <= b < j ==> s@[b].key@ != s@[i as int].key@,
            decreases i - j,
        {
            if same_text(s[j].key.as_str(), s[i].key.as_str()) {
                return false;
            }
            j = j + 1;
        }
        i = i + 1;
    }
    true
}

fn check_outbox(s: &Vec<OutboxRecord>, last_id: i64) -> (r: bool)
    ensures
        r == (outbox_ids_increasing(s@) && forall|i: int|
            0 <= i < s@.len() ==> #[trigger] s@[i].id <= last_id),
{
    let mut i: usize = 0;
    while i < s.len()
        invariant
            i <= s@.len(),
            forall|a: int, b: int| 0 <= a < b < i ==> #[trigger] s@[a].id < #[trigger] s@[b].id,
            forall|a: int| 0 <= a < i ==> #[trigger] s@[a].id <= last_id,
        decreases s@.len() - i,
    {
        if s[i].id > last_id {
            return false;
        }
        if i > 0 && s[i - 1].id >= s[i].id {
            return false;
        }
        proof {
            assert forall|x: int, y: int| 0 <= x < y < i + 1 implies #[trigger] s@[x].id
                < #[trigger] s@[y].id by {
                if y == i && x < i - 1 {
                    assert(s@[x].id < s@[i - 1].id);
                }
            }
        }
        i = i + 1;
    }
    true
}

/// Whether tables read from disk keep the store's rules.
pub fn tables_are_consistent(t: &StorageTables) -> (r: bool)
    ensures
        r == tables_wf(*t),
{
    check_issue_keys_unique(&t.issues) && check_issues_newest_first(&t.issues) && check_columns(
        &t.columns,
        t.last_column_id,
    ) && check_placement_keys_unique(&t.placements) && check_outbox(&t.outbox, t.last_outbox_id)
        && check_setting_keys_unique(&t.settings) && t.last_column_id >= 0 && t.last_outbox_id
        >= 0
}

/// The store after it is brought up to date: issues, placements and settings
/// as before; each queued update with its transition name filled in from the
/// older column; the columns as before on a board with columns, and on a board
/// without any the default columns, as many as ids remain for.
pub open spec fn bootstrapped(
    before: StorageTables,
    after: StorageTables,
    r: Result<(), StorageError>,
) -> bool {
    &&& after.issues@ == before.issues@
    &&& after.placements@ == before.placements@
    &&& after.settings@ == before.settings@
    &&& after.last_outbox_id == before.last_outbox_id
    &&& after.outbox@.len() == before.outbox@.len()
    &&& forall|i: int|
        0 <= i < before.outbox@.len() ==> with_migrated_name(
            before.outbox@[i],
            #[trigger] after.outbox@[i],
        )
    &&& before.columns@.len() > 0 ==> r is Ok && after.columns@ == before.columns@
        && after.last_column_id == before.last_column_id
    &&& before.columns@.len() == 0 ==> {
        let n = if before.last_column_id <= i64::MAX - 4 {
            4
        } else {
            i64::MAX - before.last_column_id
        };
        &&& after.columns@.len() == n
        &&& after.last_column_id == before.last_column_id + n
        &&& forall|i: int|
            0 <= i < n ==> {
                &&& (#[trigger] after.columns@[i]).id == before.last_column_id + 1 + i
                &&& after.columns@[i].sort_order == i + 1
                &&& after.columns@[i].name@ == default_column_name(i)
            }
        &&& (r is Ok <==> n == 4)
        &&& (r is Err ==> r == Err::<(), _>(StorageError::IdsExhausted))
    }
}

/// What the board is loaded from a store: the issues and placements as
/// stored, each column shown, and the queued updates shown newest first.
pub open spec fn state_loaded(t: StorageTables, r: PersistedState) -> bool {
    &&& r.issues@ == t.issues@
    &&& r.columns@.len() == t.columns@.len()
    &&& forall|i: int| 0 <= i < r.columns@.len() ==> column_of(t.columns@[i], #[trigger] r.columns@[i])
    &&& r.placements@ == t.placements@
    &&& r.outbox_actions@.len() == t.outbox@.len()
    &&& forall|i: int|
        0 <= i < r.outbox_actions@.len() ==> action_of(
            t.outbox@[t.outbox@.len() - 1 - i],
            #[trigger] r.outbox_actions@[i],
        )
}

impl AppStorage {
    /// A store holding tables read from disk, when they keep the store's rules.
    pub fn from_tables(tables: StorageTables) -> (r: Result<AppStorage, StorageError>)
        ensures
            r is Ok <==> tables_wf(tables),
            r matches Ok(s) ==> s@ == tables && s.wf(),
            r is Err ==> r == Err::<AppStorage, _>(StorageError::InconsistentTables),
    {
        if tables_are_consistent(&tables) {
            Ok(AppStorage { tables })
        } else {
            Err(StorageError::InconsistentTables)
        }
    }

    /// Everything the board shows: the issues newest first, the columns in
    /// column order, the placements, and the queued updates newest first.
    pub fn load_state(&self) -> (r: PersistedState)
        requires
            self.wf(),
        ensures
            state_loaded(self@, r),
    {
        let issues = self.tables.issues.clone();
        assert(issues@ =~= self.tables.issues@);
        let placements = self.tables.placements.clone();
        assert(placements@ =~= self.tables.placements@);
        let mut columns: Vec<BoardColumn> = Vec::new();
        let mut i: usize = 0;
        while i < self.tables.columns.len()
            invariant
                i <= self.tables.columns@.len(),
                columns@.len() == i,
                forall|k: int|
                    0 <= k < i ==> column_of(self.tables.columns@[k], #[trigger] columns@[k]),
            decreases self.tables.columns@.len() - i,
        {
            let c = &self.tables.columns[i];
            columns.push(BoardColumn { id: c.id, name: c.name.clone(), sort_order: c.sort_order });
            i = i + 1;
        }
        let q = &self.tables.outbox;
        let n = q.len();
        let mut outbox_actions: Vec<OutboxAction> = Vec::new();
        let mut j: usize = 0;
        while j < n
            invariant
                n == q@.len(),
                j <= n,
                outbox_actions@.len() == j,
                forall|k: int|
                    0 <= k < j ==> action_of(q@[n - 1 - k], #[trigger] outbox_actions@[k]),
            decreases n - j,
        {
            outbox_actions.push(action_from_record(&q[n - 1 - j]));
            j = j + 1;
        }
        PersistedState { issues, columns, placements, outbox_actions }
    }

    /// Brings an opened store up to date: transition names are filled in from
    /// the older column, and a board without columns gets the default ones,
    /// stamped with `created_at`.
    pub fn bootstrap(&mut self, created_at: &str) -> (r: Result<(), StorageError>)
        requires
            old(self).wf(),
        ensures
            final(self).wf(),
            bootstrapped(old(self)@, final(self)@, r),
            old(self)@.columns@.len() == 0 ==> forall|i: int|
                0 <= i < final(self)@.columns@.len() ==> (#[trigger] final(self)@.columns@[i]).created_at@
                    == created_at@,
    {
        self.ensure_outbox_action_columns();
        self.ensure_default_columns(created_at)
    }
}

/// The loaded board is in order: issues newest first, columns by sort order
/// then id, and queued updates newest first by id.
pub proof fn law_loaded_state_in_order(t: StorageTables, r: PersistedState)
    requires
        tables_wf(t),
        state_loaded(t, r),
    ensures
        forall|i: int, j: int|
            0 <= i < j < r.issues@.len() ==> text_le(
                #[trigger] r.issues@[j].updated_at@,
                #[trigger] r.issues@[i].updated_at@,
            ),
        forall|i: int, j: int|
            0 <= i < j < r.columns@.len() ==> (#[trigger] r.columns@[i]).sort_order < (
            #[trigger] r.columns@[j]).sort_order || (r.columns@[i].sort_order
                == r.columns@[j].sort_order && r.columns@[i].id < r.columns@[j].id),
        forall|i: int, j: int|
            0 <= i < j < r.outbox_actions@.len() ==> (#[trigger] r.outbox_actions@[i]).id > (
            #[trigger] r.outbox_actions@[j]).id,
{
    assert forall|i: int, j: int| 0 <= i < j < r.columns@.len() implies (
    #[trigger] r.columns@[i]).sort_order < (#[trigger] r.columns@[j]).sort_order || (
    r.columns@[i].sort_order == r.columns@[j].sort_order && r.columns@[i].id
        < r.columns@[j].id) by {
        assert(column_of(t.columns@[i], r.columns@[i]));
        assert(column_of(t.columns@[j], r.columns@[j]));
        assert(column_before(t.columns@[i], t.columns@[j]));
    }
    assert forall|i: int, j: int| 0 <= i < j < r.outbox_actions@.len() implies (
    #[trigger] r.outbox_actions@[i]).id > (#[trigger] r.outbox_actions@[j]).id by {
        let n = t.outbox@.len();
        assert(action_of(t.outbox@[n - 1 - i], r.outbox_actions@[i]));
        assert(action_of(t.outbox@[n - 1 - j], r.outbox_actions@[j]));
        assert(t.outbox@[n - 1 - j].id < t.outbox@[n - 1 - i].id);
    }
}

/// Bringing a store up to date twice does what doing it once did: the second
/// time changes nothing.
pub proof fn law_bootstrap_idempotent(
    t0: StorageTables,
    t1: StorageTables,
    t2: StorageTables,
    r1: Result<(), StorageError>,
    r2: Result<(), StorageError>,
)
    requires
        tables_wf(t0),
        bootstrapped(t0, t1, r1),
        bootstrapped(t1, t2, r2),
    ensures
        same_tables(t2, t1),
        t2.outbox@ == t1.outbox@,
{
    assert forall|i: int| 0 <= i < t1.outbox@.len() implies #[trigger] t2.outbox@[i]
        == t1.outbox@[i] by {
        assert(with_migrated_name(t0.outbox@[i], t1.outbox@[i]));
        assert(with_migrated_name(t1.outbox@[i], t2.outbox@[i]));
    }
    assert(t2.outbox@ =~= t1.outbox@);
    if t0.columns@.len() == 0 && t1.columns@.len() == 0 {
        assert(t2.columns@ =~= t1.columns@);
    }
}

/// Tables written to disk from a store are accepted when read back.
pub proof fn law_written_tables_read_back(stored: StorageTables, written: StorageTables)
    requires
        tables_wf(stored),
        same_tables(written, stored),
    ensures
        tables_wf(written),
{
}

} // verus!
