//! The placement table: where each issue sits on the personal board.

use crate::models::IssuePlacement;
use crate::storage::records::{
    find_placement, has_placement, lemma_placement_lookup_at, placement_keys_unique,
    placement_lookup,
};
use crate::storage::{same_but_placements, AppStorage, StorageTables};
use vstd::prelude::*;
use vstd::string::*;

verus! {

/// `new` is the placement list after `placement` is stored: still keyed,
/// `placement` under its key, every other key as before.
pub open spec fn placements_after_upsert(
    old: Seq<IssuePlacement>,
    new: Seq<IssuePlacement>,
    placement: IssuePlacement,
) -> bool {
    &&& placement_keys_unique(new)
    &&& placement_lookup(new, placement.issue_key@) == Some(placement)
    &&& forall|k: Seq<char>|
        k != placement.issue_key@ ==> #[trigger] placement_lookup(new, k) == placement_lookup(old, k)
}

/// The store after an issue is moved: its placement is in the target column
/// at the given rank, every other placement and every other table as before.
pub open spec fn issue_moved(
    before: StorageTables,
    after: StorageTables,
    issue_key: Seq<char>,
    column_id: i64,
    rank: i64,
) -> bool {
    &&& same_but_placements(after, before)
    &&& placement_lookup(after.placements@, issue_key) matches Some(p) && p.issue_key@ == issue_key
        && p.column_id == Some(column_id) && p.rank == rank
    &&& forall|k: Seq<char>|
        k != issue_key ==> #[trigger] placement_lookup(after.placements@, k) == placement_lookup(
            before.placements@,
            k,
        )
}

/// The store after an issue is unmapped: it has no placement, every other
/// placement and every other table as before.
pub open spec fn issue_unmapped(before: StorageTables, after: StorageTables, issue_key: Seq<char>) -> bool {
    &&& same_but_placements(after, before)
    &&& placement_lookup(after.placements@, issue_key) is None
    &&& forall|k: Seq<char>|
        k != issue_key ==> #[trigger] placement_lookup(after.placements@, k) == placement_lookup(
            before.placements@,
            k,
        )
}

/// Stores a placement in a keyed list, replacing the one under its key
/// (in place) or appending it.
pub fn put_placement(list: &mut Vec<IssuePlacement>, placement: IssuePlacement)
    requires
        placement_keys_unique(old(list)@),
    ensures
        placements_after_upsert(old(list)@, final(list)@, placement),
{
    let ghost old_p = list@;
    let ghost key = placement.issue_key@;
    match find_placement(list, placement.issue_key.as_str()) {
        Some(i) => {
            list.set(i, placement);
            let ghost new_p = list@;
            proof {
                assert(placement_keys_unique(new_p));
                lemma_placement_lookup_at(new_p, i as int);
                assert forall|k: Seq<char>| k != key implies #[trigger] placement_lookup(new_p, k)
                    == placement_lookup(old_p, k) by {
                    if has_placement(old_p, k) {
                        let j = choose|j: int| 0 <= j < old_p.len() && #[trigger] old_p[j].issue_key@ == k;
                        lemma_placement_lookup_at(old_p, j);
                        lemma_placement_lookup_at(new_p, j);
                    } else {
                        assert(!has_placement(new_p, k));
                    }
                }
            }
        },
        None => {
            list.push(placement);
            let ghost new_p = list@;
            proof {
                assert(placement_keys_unique(new_p));
                lemma_placement_lookup_at(new_p, old_p.len() as int);
                assert forall|k: Seq<char>| k != key implies #[trigger] placement_lookup(new_p, k)
                    == placement_lookup(old_p, k) by {
                    if has_placement(old_p, k) {
                        let j = choose|j: int| 0 <= j < old_p.len() && #[trigger] old_p[j].issue_key@ == k;
                        lemma_placement_lookup_at(old_p, j);
                        lemma_placement_lookup_at(new_p, j);
                    } else if has_placement(new_p, k) {
                        let j = choose|j: int| 0 <= j < new_p.len() && #[trigger] new_p[j].issue_key@ == k;
                        assert(j < old_p.len());
                        assert(old_p[j].issue_key@ == k);
                    }
                }
            }
        },
    }
}

impl AppStorage {
    /// Stores a placement under its issue key, replacing the one there.
    pub fn upsert_placement(&mut self, placement: IssuePlacement)
        requires
            old(self).wf(),
        ensures
            final(self).wf(),
            same_but_placements(final(self)@, old(self)@),
            placements_after_upsert(old(self)@.placements@, final(self)@.placements@, placement),
    {
        put_placement(&mut self.tables.placements, placement);
    }

    /// Places an issue in a column at a rank (moving it if it was placed),
    /// stamped with `moved_at`. The issue key is not checked against the
    /// stored issues, nor the column against the columns: the store keeps no
    /// link between its tables.
    pub fn move_issue(&mut self, issue_key: &str, target_column_id: i64, rank: i64, moved_at: &str)
        requires
            old(self).wf(),
        ensures
            final(self).wf(),
            issue_moved(old(self)@, final(self)@, issue_key@, target_column_id, rank),
            placement_lookup(final(self)@.placements@, issue_key@) matches Some(p) && p.moved_at@
                == moved_at@,
    {
        let placement = IssuePlacement {
            issue_key: issue_key.to_owned(),
            column_id: Some(target_column_id),
            rank,
            moved_at: moved_at.to_owned(),
        };
        self.upsert_placement(placement);
    }

    /// Removes an issue's placement: the issue is unmapped again.
    pub fn unmap_issue(&mut self, issue_key: &str)
        requires
            old(self).wf(),
        ensures
            final(self).wf(),
            issue_unmapped(old(self)@, final(self)@, issue_key@),
    {
        let ghost old_p = self.tables.placements@;
        match find_placement(&self.tables.placements, issue_key) {
            Some(i) => {
                self.tables.placements.remove(i);
                let ghost new_p = self.tables.placements@;
                proof {
                    assert(new_p =~= old_p.remove(i as int));
                    assert forall|a: int, b: int|
                        0 <= a < new_p.len() && 0 <= b < new_p.len() && a != b implies new_p[a].issue_key@
                        != new_p[b].issue_key@ by {
                        let sa = if a < i { a } else { a + 1 };
                        let sb = if b < i { b } else { b + 1 };
                        assert(new_p[a] == old_p[sa]);
                        assert(new_p[b] == old_p[sb]);
                    }
                    if has_placement(new_p, issue_key@) {
                        let j = choose|j: int|
                            0 <= j < new_p.len() && #[trigger] new_p[j].issue_key@ == issue_key@;
                        let sj = if j < i { j } else { j + 1 };
                        assert(new_p[j] == old_p[sj]);
                    }
                    assert forall|k: Seq<char>| k != issue_key@ implies #[trigger] placement_lookup(
                        new_p,
                        k,
                    ) == placement_lookup(old_p, k) by {
                        if has_placement(old_p, k) {
                            let j = choose|j: int|
                                0 <= j < old_p.len() && #[trigger] old_p[j].issue_key@ == k;
                            lemma_placement_lookup_at(old_p, j);
                            let rj = if j < i { j } else { j - 1 };
                            assert(new_p[rj] == old_p[j]);
                            lemma_placement_lookup_at(new_p, rj);
                        } else if has_placement(new_p, k) {
                            let j = choose|j: int|
                                0 <= j < new_p.len() && #[trigger] new_p[j].issue_key@ == k;
                            let sj = if j < i { j } else { j + 1 };
                            assert(new_p[j] == old_p[sj]);
                        }
                    }
                }
            },
            None => {},
        }
    }
}

} // verus!
