//! The local store: issues, board columns, placements, queued Jira updates
//! and settings, with the rules by which each is read and written.
//!
//! The store is held in memory as tables; writing the tables to disk and
//! reading them back is left to the program around the library.

pub mod records;
pub mod settings;
pub mod issues;
pub mod placements;
pub mod columns;
pub mod outbox;
pub mod state;

use crate::storage::records::{
    columns_ordered, issue_keys_unique, issues_newest_first, outbox_ids_increasing,
    placement_keys_unique, setting_keys_unique, ColumnRecord, OutboxRecord, SettingRecord,
};
use crate::models::{IssuePlacement, IssueSnapshot};
use vstd::prelude::*;

verus! {

/// The tables of the store, as they are written to and read from disk.
/// `last_column_id` and `last_outbox_id` are the largest ids ever handed out
/// (0 when none was): ids are never reused.
#[derive(Debug)]
pub struct StorageTables {
    pub issues: Vec<IssueSnapshot>,
    pub columns: Vec<ColumnRecord>,
    pub placements: Vec<IssuePlacement>,
    pub outbox: Vec<OutboxRecord>,
    pub settings: Vec<SettingRecord>,
    pub last_column_id: i64,
    pub last_outbox_id: i64,
}

/// What every stored set of tables satisfies: issues are keyed by issue key
/// and listed newest first; columns are in column order with ids already
/// handed out; placements and settings are keyed; queued updates are listed by
/// id with ids already handed out.
pub open spec fn tables_wf(t: StorageTables) -> bool {
    &&& issue_keys_unique(t.issues@)
    &&& issues_newest_first(t.issues@)
    &&& columns_ordered(t.columns@)
    &&& (forall|i: int| 0 <= i < t.columns@.len() ==> #[trigger] t.columns@[i].id <= t.last_column_id)
    &&& placement_keys_unique(t.placements@)
    &&& outbox_ids_increasing(t.outbox@)
    &&& (forall|i: int| 0 <= i < t.outbox@.len() ==> #[trigger] t.outbox@[i].id <= t.last_outbox_id)
    &&& setting_keys_unique(t.settings@)
    &&& t.last_column_id >= 0
    &&& t.last_outbox_id >= 0
}

/// Why a store operation was refused.
#[derive(Debug, Clone, Copy, PartialEq, Eq)]
pub enum StorageError {
    /// A column name that is blank once trimmed.
    EmptyColumnName,
    /// The largest sort order is already `i64::MAX`, so none follows it.
    ColumnOrderUnavailable,
    /// The largest id was already handed out.
    IdsExhausted,
    /// Tables read from disk that break the store's rules.
    InconsistentTables,
}

impl StorageError {
    /// The message shown to the user.
    pub open spec fn message_text(self) -> Seq<char> {
        match self {
            StorageError::EmptyColumnName => "column name cannot be empty"@,
            StorageError::ColumnOrderUnavailable => "failed to get next column order"@,
            StorageError::IdsExhausted => "database or disk is full"@,
            StorageError::InconsistentTables => "stored tables are inconsistent"@,
        }
    }

    /// The message shown to the user.
    pub fn message(&self) -> (r: String)
        ensures
            r@ == self.message_text(),
    {
        match self {
            StorageError::EmptyColumnName => "column name cannot be empty".to_owned(),
            StorageError::ColumnOrderUnavailable => "failed to get next column order".to_owned(),
            StorageError::IdsExhausted => "database or disk is full".to_owned(),
            StorageError::InconsistentTables => "stored tables are inconsistent".to_owned(),
        }
    }
}

/// The local store.
pub struct AppStorage {
    tables: StorageTables,
}

impl View for AppStorage {
    type V = StorageTables;

    closed spec fn view(&self) -> StorageTables {
        self.tables
    }
}

/// The same tables except the settings.
pub open spec fn same_but_settings(a: StorageTables, b: StorageTables) -> bool {
    &&& a.issues@ == b.issues@
    &&& a.columns@ == b.columns@
    &&& a.placements@ == b.placements@
    &&& a.outbox@ == b.outbox@
    &&& a.last_column_id == b.last_column_id
    &&& a.last_outbox_id == b.last_outbox_id
}

/// The same tables except the issues.
pub open spec fn same_but_issues(a: StorageTables, b: StorageTables) -> bool {
    &&& a.columns@ == b.columns@
    &&& a.placements@ == b.placements@
    &&& a.outbox@ == b.outbox@
    &&& a.settings@ == b.settings@
    &&& a.last_column_id == b.last_column_id
    &&& a.last_outbox_id == b.last_outbox_id
}

/// The same tables except the placements.
pub open spec fn same_but_placements(a: StorageTables, b: StorageTables) -> bool {
    &&& a.issues@ == b.issues@
    &&& a.columns@ == b.columns@
    &&& a.outbox@ == b.outbox@
    &&& a.settings@ == b.settings@
    &&& a.last_column_id == b.last_column_id
    &&& a.last_outbox_id == b.last_outbox_id
}

/// The same tables except the columns (and the last column id).
pub open spec fn same_but_columns(a: StorageTables, b: StorageTables) -> bool {
    &&& a.issues@ == b.issues@
    &&& a.placements@ == b.placements@
    &&& a.outbox@ == b.outbox@
    &&& a.settings@ == b.settings@
    &&& a.last_outbox_id == b.last_outbox_id
}

/// The same tables except the queued updates (and the last update id).
pub open spec fn same_but_outbox(a: StorageTables, b: StorageTables) -> bool {
    &&& a.issues@ == b.issues@
    &&& a.columns@ == b.columns@
    &&& a.placements@ == b.placements@
    &&& a.settings@ == b.settings@
    &&& a.last_column_id == b.last_column_id
}

/// The same tables.
pub open spec fn same_tables(a: StorageTables, b: StorageTables) -> bool {
    &&& same_but_settings(a, b)
    &&& a.settings@ == b.settings@
}

impl AppStorage {
    /// The store's rules hold.
    pub open spec fn wf(&self) -> bool {
        tables_wf(self@)
    }

    /// An empty store.
    pub fn new() -> (r: AppStorage)
        ensures
            r.wf(),
            r@.issues@.len() == 0,
            r@.columns@.len() == 0,
            r@.placements@.len() == 0,
            r@.outbox@.len() == 0,
            r@.settings@.len() == 0,
            r@.last_column_id == 0,
            r@.last_outbox_id == 0,
    {
        AppStorage {
            tables: StorageTables {
                issues: Vec::new(),
                columns: Vec::new(),
                placements: Vec::new(),
                outbox: Vec::new(),
                settings: Vec::new(),
                last_column_id: 0,
                last_outbox_id: 0,
            },
        }
    }

    /// A copy of the tables, to be written to disk.
    pub fn to_tables(&self) -> (r: StorageTables)
        ensures
            same_tables(r, self@),
    {
        let r = StorageTables {
            issues: self.tables.issues.clone(),
            columns: self.tables.columns.clone(),
            placements: self.tables.placements.clone(),
            outbox: self.tables.outbox.clone(),
            settings: self.tables.settings.clone(),
            last_column_id: self.tables.last_column_id,
            last_outbox_id: self.tables.last_outbox_id,
        };
        assert(r.issues@ =~= self.tables.issues@);
        assert(r.columns@ =~= self.tables.columns@);
        assert(r.placements@ =~= self.tables.placements@);
        assert(r.outbox@ =~= self.tables.outbox@);
        assert(r.settings@ =~= self.tables.settings@);
        r
    }
}

} // verus!
