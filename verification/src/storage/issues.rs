//! The issue table: snapshots keyed by issue key, kept newest first.

use crate::models::{IssueSnapshot, PersistedState};
use crate::storage::records::{
    find_issue, has_issue, issue_keys_unique, issue_lookup, issues_newest_first,
    lemma_issue_lookup_at,
};
use crate::storage::state::state_loaded;
use crate::storage::{same_but_issues, tables_wf, AppStorage, StorageTables};
use crate::text::{
    lemma_text_lt_asymmetric, lemma_text_lt_total, lemma_text_lt_transitive, text_le, text_less,
    text_lt,
};
use vstd::prelude::*;

verus! {

/// The issue table after `issue` is stored: still keyed and newest first,
/// `issue` under its key, every other key as before.
pub open spec fn issues_after_upsert(
    old: Seq<IssueSnapshot>,
    new: Seq<IssueSnapshot>,
    issue: IssueSnapshot,
) -> bool {
    &&& issue_keys_unique(new)
    &&& issues_newest_first(new)
    &&& issue_lookup(new, issue.issue_key@) == Some(issue)
    &&& forall|k: Seq<char>|
        k != issue.issue_key@ ==> #[trigger] issue_lookup(new, k) == issue_lookup(old, k)
}

/// The last issue of a batch with the given key, if any.
pub open spec fn last_issue_with_key(s: Seq<IssueSnapshot>, k: Seq<char>) -> Option<IssueSnapshot>
    decreases s.len(),
{
    if s.len() == 0 {
        None
    } else if s.last().issue_key@ == k {
        Some(s.last())
    } else {
        last_issue_with_key(s.drop_last(), k)
    }
}

/// The issue stored under a key after a batch is stored: the batch's last
/// issue with that key, else what was stored before.
pub open spec fn lookup_after_batch(
    old: Seq<IssueSnapshot>,
    batch: Seq<IssueSnapshot>,
    k: Seq<char>,
) -> Option<IssueSnapshot> {
    match last_issue_with_key(batch, k) {
        Some(x) => Some(x),
        None => issue_lookup(old, k),
    }
}

/// The store after a batch of snapshots is stored: under each key the batch's
/// last snapshot with that key, else what was there; the other tables as before.
pub open spec fn issues_synced(before: StorageTables, after: StorageTables, batch: Seq<IssueSnapshot>) -> bool {
    &&& same_but_issues(after, before)
    &&& forall|k: Seq<char>| #[trigger] issue_lookup(after.issues@, k) == lookup_after_batch(
        before.issues@,
        batch,
        k,
    )
}

proof fn lemma_remove_issue(s: Seq<IssueSnapshot>, i: int)
    requires
        issue_keys_unique(s),
        issues_newest_first(s),
        0 <= i < s.len(),
    ensures
        issue_keys_unique(s.remove(i)),
        issues_newest_first(s.remove(i)),
        !has_issue(s.remove(i), s[i].issue_key@),
        forall|k: Seq<char>|
            k != s[i].issue_key@ ==> #[trigger] issue_lookup(s.remove(i), k) == issue_lookup(s, k),
{
    let r = s.remove(i);
    assert forall|a: int, b: int| 0 <= a < b < r.len() implies text_le(
        #[trigger] r[b].updated_at@,
        #[trigger] r[a].updated_at@,
    ) by {
        let sa = if a < i { a } else { a + 1 };
        let sb = if b < i { b } else { b + 1 };
        assert(r[a] == s[sa]);
        assert(r[b] == s[sb]);
    }
    assert forall|a: int, b: int|
        0 <= a < r.len() && 0 <= b < r.len() && a != b implies r[a].issue_key@
        != r[b].issue_key@ by {
        let sa = if a < i { a } else { a + 1 };
        let sb = if b < i { b } else { b + 1 };
        assert(r[a] == s[sa]);
        assert(r[b] == s[sb]);
    }
    if has_issue(r, s[i].issue_key@) {
        let j = choose|j: int| 0 <= j < r.len() && #[trigger] r[j].issue_key@ == s[i].issue_key@;
        let sj = if j < i { j } else { j + 1 };
        assert(r[j] == s[sj]);
    }
    assert forall|k: Seq<char>| k != s[i].issue_key@ implies #[trigger] issue_lookup(r, k)
        == issue_lookup(s, k) by {
        if has_issue(s, k) {
            let j = choose|j: int| 0 <= j < s.len() && #[trigger] s[j].issue_key@ == k;
            lemma_issue_lookup_at(s, j);
            assert(j != i);
            let rj = if j < i { j } else { j - 1 };
            assert(r[rj] == s[j]);
            lemma_issue_lookup_at(r, rj);
        } else if has_issue(r, k) {
            let j = choose|j: int| 0 <= j < r.len() && #[trigger] r[j].issue_key@ == k;
            let sj = if j < i { j } else { j + 1 };
            assert(r[j] == s[sj]);
        }
    }
}

proof fn lemma_insert_issue(base: Seq<IssueSnapshot>, p: int, x: IssueSnapshot)
    requires
        issue_keys_unique(base),
        issues_newest_first(base),
        !has_issue(base, x.issue_key@),
        0 <= p <= base.len(),
        forall|q: int| 0 <= q < p ==> !text_lt(#[trigger] base[q].updated_at@, x.updated_at@),
        p < base.len() ==> text_lt(base[p].updated_at@, x.updated_at@),
    ensures
        issues_after_upsert(base, base.insert(p, x), x),
{
    let r = base.insert(p, x);
    assert forall|a: int, b: int| 0 <= a < b < r.len() implies text_le(
        #[trigger] r[b].updated_at@,
        #[trigger] r[a].updated_at@,
    ) by {
        if b < p {
            assert(r[a] == base[a] && r[b] == base[b]);
        } else if b == p {
            assert(r[a] == base[a]);
            assert(!text_lt(base[a].updated_at@, x.updated_at@));
        } else if a == p {
            assert(r[b] == base[b - 1]);
            let y = base[b - 1].updated_at@;
            let z = base[p].updated_at@;
            if b - 1 > p {
                assert(text_le(y, z));
            }
            lemma_text_lt_total(y, z);
            if y != z {
                if text_lt(y, z) {
                    lemma_text_lt_transitive(y, z, x.updated_at@);
                }
            }
            lemma_text_lt_asymmetric(y, x.updated_at@);
        } else if a < p {
            assert(r[a] == base[a] && r[b] == base[b - 1]);
        } else {
            assert(r[a] == base[a - 1] && r[b] == base[b - 1]);
        }
    }
    assert forall|a: int, b: int|
        0 <= a < r.len() && 0 <= b < r.len() && a != b implies r[a].issue_key@
        != r[b].issue_key@ by {
        if a != p && b != p {
            let ba = if a < p { a } else { a - 1 };
            let bb = if b < p { b } else { b - 1 };
            assert(r[a] == base[ba] && r[b] == base[bb]);
        } else if a == p {
            let bb = if b < p { b } else { b - 1 };
            assert(r[b] == base[bb]);
        } else {
            let ba = if a < p { a } else { a - 1 };
            assert(r[a] == base[ba]);
        }
    }
    assert(r[p] == x);
    lemma_issue_lookup_at(r, p);
    assert forall|k: Seq<char>| k != x.issue_key@ implies #[trigger] issue_lookup(r, k)
        == issue_lookup(base, k) by {
        if has_issue(base, k) {
            let j = choose|j: int| 0 <= j < base.len() && #[trigger] base[j].issue_key@ == k;
            lemma_issue_lookup_at(base, j);
            let rj = if j < p { j } else { j + 1 };
            assert(r[rj] == base[j]);
            lemma_issue_lookup_at(r, rj);
        } else if has_issue(r, k) {
            let j = choose|j: int| 0 <= j < r.len() && #[trigger] r[j].issue_key@ == k;
            assert(j != p);
            let bj = if j < p { j } else { j - 1 };
            assert(r[j] == base[bj]);
        }
    }
}

impl AppStorage {
    /// Stores a snapshot under its issue key, replacing the one there.
    pub fn upsert_issue(&mut self, issue: IssueSnapshot)
        requires
            old(self).wf(),
        ensures
            final(self).wf(),
            same_but_issues(final(self)@, old(self)@),
            issues_after_upsert(old(self)@.issues@, final(self)@.issues@, issue),
    {
        let ghost old_issues = self.tables.issues@;
        match find_issue(&self.tables.issues, issue.issue_key.as_str()) {
            Some(i) => {
                proof {
                    lemma_remove_issue(old_issues, i as int);
                }
                self.tables.issues.remove(i);
            },
            None => {},
        }
        let ghost base = self.tables.issues@;
        let mut p: usize = 0;
        let n = self.tables.issues.len();
        while p < n && !text_less(
            self.tables.issues[p].updated_at.as_str(),
            issue.updated_at.as_str(),
        )
            invariant
                n == base.len(),
                self.tables.issues@ == base,
                p <= n,
                forall|q: int| 0 <= q < p ==> !text_lt(#[trigger] base[q].updated_at@, issue.updated_at@),
            decreases n - p,
        {
            p = p + 1;
        }
        proof {
            lemma_insert_issue(base, p as int, issue);
            assert forall|k: Seq<char>| k != issue.issue_key@ implies #[trigger] issue_lookup(
                base.insert(p as int, issue),
                k,
            ) == issue_lookup(old_issues, k) by {}
        }
        self.tables.issues.insert(p, issue);
    }

    /// Stores a batch of snapshots in order, each replacing the one stored
    /// under its key.
    pub fn upsert_issue_snapshots(&mut self, issues: &[IssueSnapshot])
        requires
            old(self).wf(),
        ensures
            final(self).wf(),
            issues_synced(old(self)@, final(self)@, issues@),
    {
        let ghost old_issues = self@.issues@;
        let ghost old_self = self@;
        let mut i: usize = 0;
        while i < issues.len()
            invariant
                i <= issues@.len(),
                self.wf(),
                same_but_issues(self@, old_self),
                forall|k: Seq<char>| #[trigger] issue_lookup(self@.issues@, k) == lookup_after_batch(
                    old_issues,
                    issues@.subrange(0, i as int),
                    k,
                ),
            decreases issues@.len() - i,
        {
            let ghost before = self@.issues@;
            let issue = issues[i].clone();
            self.upsert_issue(issue);
            proof {
                let prefix = issues@.subrange(0, i + 1);
                assert(prefix.drop_last() =~= issues@.subrange(0, i as int));
                assert(prefix.last() == issues@[i as int]);
            }
            i = i + 1;
        }
        assert(issues@.subrange(0, issues@.len() as int) =~= issues@);
    }
}

/// After a sync the board lists each issue once, newest first, and shows
/// under each key the last snapshot the sync gave for it, else the one stored
/// before.
pub proof fn law_synced_issues_show_latest(
    before: StorageTables,
    after: StorageTables,
    batch: Seq<IssueSnapshot>,
    loaded: PersistedState,
    k: Seq<char>,
)
    requires
        tables_wf(after),
        issues_synced(before, after, batch),
        state_loaded(after, loaded),
    ensures
        issue_keys_unique(loaded.issues@),
        issues_newest_first(loaded.issues@),
        issue_lookup(loaded.issues@, k) == lookup_after_batch(before.issues@, batch, k),
{
}

} // verus!
