//! The rows of the local store and the facts about looking rows up by key.

use crate::models::{copy_opt_text, IssuePlacement, IssueSnapshot};
use crate::text::{
    lemma_text_lt_asymmetric, lemma_text_lt_irreflexive, lemma_text_lt_total,
    lemma_text_lt_transitive, same_text, text_le,
};
use vstd::prelude::*;
use vstd::string::*;

verus! {

/// A row of the board columns table.
#[derive(Debug, PartialEq, Eq)]
pub struct ColumnRecord {
    pub id: i64,
    pub name: String,
    pub sort_order: i64,
    pub created_at: String,
}

/// A row of the queued Jira updates table. `transition_to` is the column that
/// older versions of the store used for the transition's name.
#[derive(Debug, PartialEq, Eq)]
pub struct OutboxRecord {
    pub id: i64,
    pub issue_key: String,
    pub transition_to: Option<String>,
    pub transition_id: Option<String>,
    pub transition_name: Option<String>,
    pub comment: Option<String>,
    pub state: String,
    pub last_error: Option<String>,
    pub created_at: String,
}

/// A row of the settings table.
#[derive(Debug, PartialEq, Eq)]
pub struct SettingRecord {
    pub key: String,
    pub value: String,
}

impl Clone for ColumnRecord {
    fn clone(&self) -> (r: Self)
        ensures
            r == *self,
    {
        ColumnRecord {
            id: self.id,
            name: self.name.clone(),
            sort_order: self.sort_order,
            created_at: self.created_at.clone(),
        }
    }
}

impl Clone for OutboxRecord {
    fn clone(&self) -> (r: Self)
        ensures
            r == *self,
    {
        OutboxRecord {
            id: self.id,
            issue_key: self.issue_key.clone(),
            transition_to: copy_opt_text(&self.transition_to),
            transition_id: copy_opt_text(&self.transition_id),
            transition_name: copy_opt_text(&self.transition_name),
            comment: copy_opt_text(&self.comment),
            state: self.state.clone(),
            last_error: copy_opt_text(&self.last_error),
            created_at: self.created_at.clone(),
        }
    }
}

impl Clone for SettingRecord {
    fn clone(&self) -> (r: Self)
        ensures
            r == *self,
    {
        SettingRecord { key: self.key.clone(), value: self.value.clone() }
    }
}

// ---------------------------------------------------------------- issues

/// No two issues share a key.
pub open spec fn issue_keys_unique(s: Seq<IssueSnapshot>) -> bool {
    forall|i: int, j: int|
        0 <= i < s.len() && 0 <= j < s.len() && i != j ==> s[i].issue_key@ != s[j].issue_key@
}

/// Issues are listed newest first: by update time, descending.
pub open spec fn issues_newest_first(s: Seq<IssueSnapshot>) -> bool {
    forall|i: int, j: int|
        0 <= i < j < s.len() ==> text_le(#[trigger] s[j].updated_at@, #[trigger] s[i].updated_at@)
}

pub open spec fn has_issue(s: Seq<IssueSnapshot>, k: Seq<char>) -> bool {
    exists|i: int| 0 <= i < s.len() && #[trigger] s[i].issue_key@ == k
}

/// The issue stored under a key, if any.
pub open spec fn issue_lookup(s: Seq<IssueSnapshot>, k: Seq<char>) -> Option<IssueSnapshot> {
    if has_issue(s, k) {
        Some(s[choose|i: int| 0 <= i < s.len() && #[trigger] s[i].issue_key@ == k])
    } else {
        None
    }
}

pub proof fn lemma_issue_lookup_at(s: Seq<IssueSnapshot>, i: int)
    requires
        issue_keys_unique(s),
        0 <= i < s.len(),
    ensures
        issue_lookup(s, s[i].issue_key@) == Some(s[i]),
{
    let k = s[i].issue_key@;
    assert(has_issue(s, k));
    let j = choose|j: int| 0 <= j < s.len() && #[trigger] s[j].issue_key@ == k;
    assert(j == i);
}

/// Finds the position of the issue stored under `key`.
pub fn find_issue(s: &Vec<IssueSnapshot>, key: &str) -> (r: Option<usize>)
    ensures
        r matches Some(i) ==> i < s@.len() && s@[i as int].issue_key@ == key@,
        r is None ==> !has_issue(s@, key@),
{
    let mut i: usize = 0;
    while i < s.len()
        invariant
            i <= s@.len(),
            forall|j: int| 0 <= j < i ==> s@[j].issue_key@ != key@,
        decreases s@.len() - i,
    {
        if same_text(s[i].issue_key.as_str(), key) {
            return Some(i);
        }
        i = i + 1;
    }
    None
}

pub proof fn lemma_text_le_transitive(a: Seq<char>, b: Seq<char>, c: Seq<char>)
    requires
        text_le(a, b),
        text_le(b, c),
    ensures
        text_le(a, c),
{
    lemma_text_lt_total(a, b);
    lemma_text_lt_total(b, c);
    if a == c {
        lemma_text_lt_irreflexive(a);
    } else {
        if a != b && b != c {
            lemma_text_lt_transitive(a, b, c);
        }
        lemma_text_lt_asymmetric(a, c);
    }
}

// ---------------------------------------------------------------- placements

pub open spec fn placement_keys_unique(s: Seq<IssuePlacement>) -> bool {
    forall|i: int, j: int|
        0 <= i < s.len() && 0 <= j < s.len() && i != j ==> s[i].issue_key@ != s[j].issue_key@
}

pub open spec fn has_placement(s: Seq<IssuePlacement>, k: Seq<char>) -> bool {
    exists|i: int| 0 <= i < s.len() && #[trigger] s[i].issue_key@ == k
}

/// The placement stored for an issue key, if any.
pub open spec fn placement_lookup(s: Seq<IssuePlacement>, k: Seq<char>) -> Option<IssuePlacement> {
    if has_placement(s, k) {
        Some(s[choose|i: int| 0 <= i < s.len() && #[trigger] s[i].issue_key@ == k])
    } else {
        None
    }
}

pub proof fn lemma_placement_lookup_at(s: Seq<IssuePlacement>, i: int)
    requires
        placement_keys_unique(s),
        0 <= i < s.len(),
    ensures
        placement_lookup(s, s[i].issue_key@) == Some(s[i]),
{
    let k = s[i].issue_key@;
    assert(has_placement(s, k));
    let j = choose|j: int| 0 <= j < s.len() && #[trigger] s[j].issue_key@ == k;
    assert(j == i);
}

pub fn find_placement(s: &Vec<IssuePlacement>, key: &str) -> (r: Option<usize>)
    ensures
        r matches Some(i) ==> i < s@.len() && s@[i as int].issue_key@ == key@,
        r is None ==> !has_placement(s@, key@),
{
    let mut i: usize = 0;
    while i < s.len()
        invariant
            i <= s@.len(),
            forall|j: int| 0 <= j < i ==> s@[j].issue_key@ != key@,
        decreases s@.len() - i,
    {
        if same_text(s[i].issue_key.as_str(), key) {
            return Some(i);
        }
        i = i + 1;
    }
    None
}

// ---------------------------------------------------------------- settings

pub open spec fn setting_keys_unique(s: Seq<SettingRecord>) -> bool {
    forall|i: int, j: int| 0 <= i < s.len() && 0 <= j < s.len() && i != j ==> s[i].key@ != s[j].key@
}

pub open spec fn has_setting(s: Seq<SettingRecord>, k: Seq<char>) -> bool {
    exists|i: int| 0 <= i < s.len() && #[trigger] s[i].key@ == k
}

/// The value stored under a setting key, if any.
pub open spec fn setting_lookup(s: Seq<SettingRecord>, k: Seq<char>) -> Option<Seq<char>> {
    if has_setting(s, k) {
        Some(s[choose|i: int| 0 <= i < s.len() && #[trigger] s[i].key@ == k].value@)
    } else {
        None
    }
}

pub proof fn lemma_setting_lookup_at(s: Seq<SettingRecord>, i: int)
    requires
        setting_keys_unique(s),
        0 <= i < s.len(),
    ensures
        setting_lookup(s, s[i].key@) == Some(s[i].value@),
{
    let k = s[i].key@;
    assert(has_setting(s, k));
    let j = choose|j: int| 0 <= j < s.len() && #[trigger] s[j].key@ == k;
    assert(j == i);
}

pub fn find_setting(s: &Vec<SettingRecord>, key: &str) -> (r: Option<usize>)
    ensures
        r matches Some(i) ==> i < s@.len() && s@[i as int].key@ == key@,
        r is None ==> !has_setting(s@, key@),
{
    let mut i: usize = 0;
    while i < s.len()
        invariant
            i <= s@.len(),
            forall|j: int| 0 <= j < i ==> s@[j].key@ != key@,
        decreases s@.len() - i,
    {
        if same_text(s[i].key.as_str(), key) {
            return Some(i);
        }
        i = i + 1;
    }
    None
}

// ---------------------------------------------------------------- columns

/// Column order: by sort order, then by id.
pub open spec fn column_before(a: ColumnRecord, b: ColumnRecord) -> bool {
    a.sort_order < b.sort_order || (a.sort_order == b.sort_order && a.id < b.id)
}

/// Columns are listed in column order, with no two alike.
pub open spec fn columns_ordered(s: Seq<ColumnRecord>) -> bool {
    forall|i: int, j: int| 0 <= i < j < s.len() ==> column_before(#[trigger] s[i], #[trigger] s[j])
}

// ---------------------------------------------------------------- outbox

/// Queued updates are listed by id, ascending, no id twice.
pub open spec fn outbox_ids_increasing(s: Seq<OutboxRecord>) -> bool {
    forall|i: int, j: int| 0 <= i < j < s.len() ==> #[trigger] s[i].id < #[trigger] s[j].id
}

pub open spec fn has_outbox(s: Seq<OutboxRecord>, id: i64) -> bool {
    exists|i: int| 0 <= i < s.len() && #[trigger] s[i].id == id
}

/// The position of the queued update with an id (meaningful when there is one).
pub open spec fn outbox_index(s: Seq<OutboxRecord>, id: i64) -> int {
    choose|i: int| 0 <= i < s.len() && #[trigger] s[i].id == id
}

pub proof fn lemma_outbox_index_at(s: Seq<OutboxRecord>, i: int)
    requires
        outbox_ids_increasing(s),
        0 <= i < s.len(),
    ensures
        has_outbox(s, s[i].id),
        outbox_index(s, s[i].id) == i,
{
    let id = s[i].id;
    assert(has_outbox(s, id));
    let j = outbox_index(s, id);
    if j < i {
        assert(s[j].id < s[i].id);
    } else if i < j {
        assert(s[i].id < s[j].id);
    }
}

pub fn find_outbox(s: &Vec<OutboxRecord>, id: i64) -> (r: Option<usize>)
    requires
        outbox_ids_increasing(s@),
    ensures
        r matches Some(i) ==> i < s@.len() && s@[i as int].id == id && outbox_index(s@, id) == i,
        r is None ==> !has_outbox(s@, id),
{
    let mut i: usize = 0;
    while i < s.len()
        invariant
            i <= s@.len(),
            outbox_ids_increasing(s@),
            forall|j: int| 0 <= j < i ==> s@[j].id != id,
        decreases s@.len() - i,
    {
        if s[i].id == id {
            proof {
                lemma_outbox_index_at(s@, i as int);
            }
            return Some(i);
        }
        i = i + 1;
    }
    None
}

} // verus!
