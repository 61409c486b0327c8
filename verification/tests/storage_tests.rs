use personal_jira_kanban::models::{IssueSnapshot, JiraSettings};
use personal_jira_kanban::storage::records::{ColumnRecord, OutboxRecord, SettingRecord};
use personal_jira_kanban::storage::state::{missing_outbox_columns, tables_are_consistent};
use personal_jira_kanban::storage::{AppStorage, StorageError, StorageTables};

fn issue(key: &str, updated_at: &str) -> IssueSnapshot {
    IssueSnapshot {
        issue_key: key.to_string(),
        summary: format!("Summary {key}"),
        assignee: "Ada".to_string(),
        jira_status: "To Do".to_string(),
        updated_at: updated_at.to_string(),
    }
}

fn opened() -> AppStorage {
    let mut storage = AppStorage::new();
    storage.bootstrap("2024-05-05T00:00:00+00:00").unwrap();
    storage
}

fn empty_tables() -> StorageTables {
    StorageTables {
        issues: vec![],
        columns: vec![],
        placements: vec![],
        outbox: vec![],
        settings: vec![],
        last_column_id: 0,
        last_outbox_id: 0,
    }
}

fn outbox_record(id: i64, state: &str, transition_to: Option<&str>, transition_name: Option<&str>) -> OutboxRecord {
    OutboxRecord {
        id,
        issue_key: "ABC-1".to_string(),
        transition_to: transition_to.map(|s| s.to_string()),
        transition_id: Some("31".to_string()),
        transition_name: transition_name.map(|s| s.to_string()),
        comment: None,
        state: state.to_string(),
        last_error: None,
        created_at: "2024-01-01T00:00:00+00:00".to_string(),
    }
}

#[test]
fn a_new_board_gets_the_default_columns() {
    let storage = opened();
    let state = storage.load_state();
    let names: Vec<&str> = state.columns.iter().map(|c| c.name.as_str()).collect();
    assert_eq!(names, vec!["To Plan", "In Progress", "Waiting", "Done"]);
    let orders: Vec<i64> = state.columns.iter().map(|c| c.sort_order).collect();
    assert_eq!(orders, vec![1, 2, 3, 4]);
    let ids: Vec<i64> = state.columns.iter().map(|c| c.id).collect();
    assert_eq!(ids, vec![1, 2, 3, 4]);
    assert!(storage.to_tables().columns.iter().all(|c| c.created_at == "2024-05-05T00:00:00+00:00"));
}

#[test]
fn bootstrap_twice_changes_nothing() {
    let mut storage = opened();
    let first = storage.load_state();
    storage.bootstrap("2024-05-05T00:00:00+00:00").unwrap();
    let second = storage.load_state();
    assert_eq!(first.columns, second.columns);
    assert_eq!(storage.to_tables().last_column_id, 4);
}

#[test]
fn default_columns_stop_when_ids_run_out() {
    let mut tables = empty_tables();
    tables.last_column_id = i64::MAX - 2;
    let mut storage = AppStorage::from_tables(tables).unwrap();
    assert_eq!(storage.bootstrap("2024-05-05T00:00:00+00:00"), Err(StorageError::IdsExhausted));
    let names: Vec<String> = storage.load_state().columns.into_iter().map(|c| c.name).collect();
    assert_eq!(names, vec!["To Plan".to_string(), "In Progress".to_string()]);
    assert_eq!(StorageError::IdsExhausted.message(), "database or disk is full");
}

#[test]
fn created_column_comes_last_with_trimmed_name() {
    let mut storage = opened();
    storage.create_column("  Blocked  ", "2024-05-05T00:00:00+00:00").unwrap();
    let state = storage.load_state();
    let last = state.columns.last().unwrap();
    assert_eq!(last.name, "Blocked");
    assert_eq!(last.sort_order, 5);
    assert_eq!(last.id, 5);
    assert_eq!(state.columns.len(), 5);
}

#[test]
fn blank_column_name_is_refused() {
    let mut storage = opened();
    assert_eq!(storage.create_column(" \t ", "2024-05-05T00:00:00+00:00"), Err(StorageError::EmptyColumnName));
    assert_eq!(storage.load_state().columns.len(), 4);
    assert_eq!(StorageError::EmptyColumnName.message(), "column name cannot be empty");
}

#[test]
fn column_after_the_largest_sort_order_is_refused() {
    let mut tables = empty_tables();
    tables.columns.push(ColumnRecord {
        id: 1,
        name: "Last".to_string(),
        sort_order: i64::MAX,
        created_at: "t".to_string(),
    });
    tables.last_column_id = 1;
    let mut storage = AppStorage::from_tables(tables).unwrap();
    assert_eq!(storage.create_column("More", "2024-05-05T00:00:00+00:00"), Err(StorageError::ColumnOrderUnavailable));
    assert_eq!(StorageError::ColumnOrderUnavailable.message(), "failed to get next column order");
}

#[test]
fn column_ids_are_never_reused() {
    let mut tables = empty_tables();
    tables.last_column_id = 9;
    let mut storage = AppStorage::from_tables(tables).unwrap();
    storage.create_column("First", "2024-05-05T00:00:00+00:00").unwrap();
    let state = storage.load_state();
    assert_eq!(state.columns[0].id, 10);
    assert_eq!(state.columns[0].sort_order, 1);
}

#[test]
fn issues_are_listed_newest_first_and_replaced_by_key() {
    let mut storage = opened();
    storage.upsert_issue_snapshots(&[
        issue("A-1", "2024-01-01T00:00:00Z"),
        issue("A-2", "2024-03-01T00:00:00Z"),
        issue("A-3", "2024-02-01T00:00:00Z"),
    ]);
    let keys: Vec<String> = storage.load_state().issues.into_iter().map(|i| i.issue_key).collect();
    assert_eq!(keys, vec!["A-2", "A-3", "A-1"]);

    let mut newer = issue("A-1", "2024-04-01T00:00:00Z");
    newer.jira_status = "Done".to_string();
    storage.upsert_issue_snapshots(&[newer.clone()]);
    let issues = storage.load_state().issues;
    assert_eq!(issues.len(), 3);
    assert_eq!(issues[0], newer);
}

#[test]
fn last_snapshot_of_a_key_in_a_batch_wins() {
    let mut storage = opened();
    let mut second = issue("B-1", "2024-01-02T00:00:00Z");
    second.summary = "second".to_string();
    storage.upsert_issue_snapshots(&[issue("B-1", "2024-01-01T00:00:00Z"), second.clone()]);
    let issues = storage.load_state().issues;
    assert_eq!(issues, vec![second]);
}

#[test]
fn moved_issue_is_placed_and_unmapped_issue_is_not() {
    let mut storage = opened();
    storage.upsert_issue_snapshots(&[issue("A-1", "2024-01-01T00:00:00Z")]);
    storage.move_issue("A-1", 2, 7, "2024-05-05T00:00:00+00:00");
    let placements = storage.load_state().placements;
    assert_eq!(placements.len(), 1);
    assert_eq!(placements[0].issue_key, "A-1");
    assert_eq!(placements[0].column_id, Some(2));
    assert_eq!(placements[0].rank, 7);
    assert!(!placements[0].moved_at.is_empty());

    storage.move_issue("A-1", 3, 1, "2024-05-05T00:00:00+00:00");
    let placements = storage.load_state().placements;
    assert_eq!(placements.len(), 1);
    assert_eq!(placements[0].column_id, Some(3));
    assert_eq!(placements[0].rank, 1);

    storage.unmap_issue("A-1");
    assert!(storage.load_state().placements.is_empty());
    storage.unmap_issue("A-1");
    assert!(storage.load_state().placements.is_empty());
}

#[test]
fn jira_settings_round_trip_normalized() {
    let mut storage = opened();
    let empty = storage.load_jira_settings();
    assert_eq!(empty, JiraSettings { base_url: String::new(), email: String::new(), jql: String::new() });
    storage.save_jira_settings(&JiraSettings {
        base_url: " https://org.atlassian.net/ ".to_string(),
        email: " me@example.com ".to_string(),
        jql: "  ".to_string(),
    });
    let loaded = storage.load_jira_settings();
    assert_eq!(loaded.base_url, "https://org.atlassian.net");
    assert_eq!(loaded.email, "me@example.com");
    assert_eq!(loaded.jql, "assignee = currentUser() ORDER BY updated DESC");
    assert_eq!(storage.get_setting_value("jira_email"), Some("me@example.com".to_string()));
}

#[test]
fn api_token_is_saved_trimmed_and_blank_keeps_the_old_one() {
    let mut storage = opened();
    assert_eq!(storage.load_jira_api_token(), None);
    storage.save_jira_api_token("  secret-token \n");
    assert_eq!(storage.load_jira_api_token(), Some("secret-token".to_string()));
    storage.save_jira_api_token("   ");
    assert_eq!(storage.load_jira_api_token(), Some("secret-token".to_string()));
    storage.save_jira_api_token("other");
    assert_eq!(storage.load_jira_api_token(), Some("other".to_string()));
}

#[test]
fn settings_are_stored_by_key() {
    let mut storage = opened();
    storage.upsert_setting_value("k", "v1");
    storage.upsert_setting_value("k", "v2");
    storage.upsert_setting_value("other", "x");
    assert_eq!(storage.get_setting_value("k"), Some("v2".to_string()));
    assert_eq!(storage.get_setting_value("other"), Some("x".to_string()));
    assert_eq!(storage.get_setting_value("missing"), None);
    assert_eq!(storage.to_tables().settings.len(), 2);
}

#[test]
fn nothing_is_queued_without_transition_or_comment() {
    let mut storage = opened();
    assert_eq!(storage.queue_jira_update("A-1", None, Some("Done"), None, "2024-05-05T00:00:00+00:00"), Ok(()));
    assert_eq!(storage.outbox_len(), 0);
    assert!(storage.load_state().outbox_actions.is_empty());
}

#[test]
fn queued_updates_are_pending_and_listed_newest_first() {
    let mut storage = opened();
    storage.queue_jira_update("A-1", Some("31"), Some("Done"), None, "2024-05-05T00:00:00+00:00").unwrap();
    storage.queue_jira_update("A-2", None, None, Some("note"), "2024-05-05T00:00:00+00:00").unwrap();
    let actions = storage.load_state().outbox_actions;
    assert_eq!(actions.len(), 2);
    assert_eq!(actions[0].id, 2);
    assert_eq!(actions[0].issue_key, "A-2");
    assert_eq!(actions[0].comment, Some("note".to_string()));
    assert_eq!(actions[0].transition_id, None);
    assert_eq!(actions[1].id, 1);
    assert_eq!(actions[1].transition_id, Some("31".to_string()));
    assert_eq!(actions[1].transition_name, Some("Done".to_string()));
    assert_eq!(actions[1].state, "pending");
    assert_eq!(actions[1].last_error, None);
    assert_eq!(storage.count_outbox_actions_by_state("pending"), 2);
    let records = storage.to_tables().outbox;
    assert_eq!(records[0].transition_to, Some("Done".to_string()));
}

#[test]
fn queue_refuses_when_ids_run_out() {
    let mut tables = empty_tables();
    tables.last_outbox_id = i64::MAX;
    let mut storage = AppStorage::from_tables(tables).unwrap();
    assert_eq!(
        storage.queue_jira_update("A-1", Some("1"), None, None, "2024-05-05T00:00:00+00:00"),
        Err(StorageError::IdsExhausted)
    );
    assert_eq!(storage.outbox_len(), 0);
}

#[test]
fn processable_updates_are_the_oldest_pending_ones() {
    let mut storage = opened();
    for key in ["A-1", "A-2", "A-3", "A-4"] {
        storage.queue_jira_update(key, None, None, Some("c"), "2024-05-05T00:00:00+00:00").unwrap();
    }
    storage.mark_outbox_action_done(2);
    let batch = storage.load_processable_outbox_actions(2);
    let ids: Vec<i64> = batch.iter().map(|a| a.id).collect();
    assert_eq!(ids, vec![1, 3]);
    let all = storage.load_processable_outbox_actions(10);
    let ids: Vec<i64> = all.iter().map(|a| a.id).collect();
    assert_eq!(ids, vec![1, 3, 4]);
    assert!(storage.load_processable_outbox_actions(0).is_empty());
}

#[test]
fn outbox_states_and_errors_are_recorded() {
    let mut storage = opened();
    storage.queue_jira_update("A-1", Some("31"), Some("Done"), Some("c"), "2024-05-05T00:00:00+00:00").unwrap();
    storage.mark_outbox_action_processing(1);
    assert_eq!(storage.count_outbox_actions_by_state("processing"), 1);
    storage.clear_outbox_transition(1);
    storage.clear_outbox_comment(1);
    storage.mark_outbox_action_failed(1, "jira said no");
    let action = &storage.load_state().outbox_actions[0];
    assert_eq!(action.state, "failed");
    assert_eq!(action.last_error, Some("jira said no".to_string()));
    assert_eq!(action.transition_id, None);
    assert_eq!(action.transition_name, None);
    assert_eq!(action.comment, None);
    assert_eq!(storage.count_outbox_actions_by_state("failed"), 1);
    assert_eq!(storage.count_outbox_actions_by_state("pending"), 0);
    storage.set_outbox_action_state(1, "pending");
    assert_eq!(storage.count_outbox_actions_by_state("pending"), 1);
    storage.mark_outbox_action_done(99);
    assert_eq!(storage.outbox_len(), 1);
}

#[test]
fn legacy_transition_names_are_migrated() {
    let mut tables = empty_tables();
    tables.outbox.push(outbox_record(1, "pending", Some("In Review"), None));
    tables.outbox.push(outbox_record(2, "pending", Some("Old"), Some("New")));
    tables.outbox.push(outbox_record(3, "pending", None, None));
    tables.last_outbox_id = 3;
    let mut storage = AppStorage::from_tables(tables).unwrap();
    let shown = storage.load_state().outbox_actions;
    assert_eq!(shown[2].transition_name, Some("In Review".to_string()));
    storage.bootstrap("2024-05-05T00:00:00+00:00").unwrap();
    let records = storage.to_tables().outbox;
    assert_eq!(records[0].transition_name, Some("In Review".to_string()));
    assert_eq!(records[1].transition_name, Some("New".to_string()));
    assert_eq!(records[2].transition_name, None);
}

#[test]
fn missing_outbox_columns_are_listed_in_order() {
    let none: Vec<String> = vec![];
    assert_eq!(
        missing_outbox_columns(&none),
        vec!["transition_to".to_string(), "transition_id".to_string(), "transition_name".to_string()]
    );
    let some = vec!["id".to_string(), "transition_id".to_string()];
    assert_eq!(
        missing_outbox_columns(&some),
        vec!["transition_to".to_string(), "transition_name".to_string()]
    );
    let all = vec![
        "transition_name".to_string(),
        "transition_to".to_string(),
        "transition_id".to_string(),
    ];
    assert!(missing_outbox_columns(&all).is_empty());
}

#[test]
fn inconsistent_tables_are_refused() {
    let mut tables = empty_tables();
    tables.issues.push(issue("A-1", "2024-01-01T00:00:00Z"));
    tables.issues.push(issue("A-1", "2023-01-01T00:00:00Z"));
    assert!(!tables_are_consistent(&tables));
    assert!(matches!(AppStorage::from_tables(tables), Err(StorageError::InconsistentTables)));
    assert_eq!(StorageError::InconsistentTables.message(), "stored tables are inconsistent");

    let mut tables = empty_tables();
    tables.issues.push(issue("A-1", "2023-01-01T00:00:00Z"));
    tables.issues.push(issue("A-2", "2024-01-01T00:00:00Z"));
    assert!(!tables_are_consistent(&tables));

    let mut tables = empty_tables();
    tables.settings.push(SettingRecord { key: "k".to_string(), value: "1".to_string() });
    tables.settings.push(SettingRecord { key: "k".to_string(), value: "2".to_string() });
    assert!(!tables_are_consistent(&tables));

    let mut tables = empty_tables();
    tables.outbox.push(outbox_record(5, "pending", None, None));
    tables.last_outbox_id = 4;
    assert!(!tables_are_consistent(&tables));
}

#[test]
fn written_tables_read_back_the_same() {
    let mut storage = opened();
    storage.upsert_issue_snapshots(&[issue("A-1", "2024-01-01T00:00:00Z")]);
    storage.move_issue("A-1", 1, 1, "2024-05-05T00:00:00+00:00");
    storage.queue_jira_update("A-1", None, None, Some("hi"), "2024-05-05T00:00:00+00:00").unwrap();
    storage.save_jira_api_token("tok");
    let tables = storage.to_tables();
    assert!(tables_are_consistent(&tables));
    let reopened = AppStorage::from_tables(tables).unwrap();
    let a = storage.load_state();
    let b = reopened.load_state();
    assert_eq!(a.issues, b.issues);
    assert_eq!(a.columns, b.columns);
    assert_eq!(a.placements, b.placements);
    assert_eq!(a.outbox_actions, b.outbox_actions);
    assert_eq!(reopened.load_jira_api_token(), Some("tok".to_string()));
}

#[test]
fn stamped_operations_keep_the_given_time() {
    let mut storage = opened();
    storage.create_column(" Later ", "2024-07-01T00:00:00+00:00").unwrap();
    let columns = storage.to_tables().columns;
    assert_eq!(columns.last().unwrap().created_at, "2024-07-01T00:00:00+00:00");
    assert_eq!(columns.last().unwrap().name, "Later");

    storage.queue_jira_update("A-1", None, None, Some("c"), "2024-07-02T00:00:00+00:00").unwrap();
    assert_eq!(storage.load_state().outbox_actions[0].created_at, "2024-07-02T00:00:00+00:00");
    assert_eq!(storage.queue_jira_update("A-1", None, Some("x"), None, "t"), Ok(()));
    assert_eq!(storage.outbox_len(), 1);

    storage.move_issue("A-1", 1, 3, "2024-07-03T00:00:00+00:00");
    let placement = &storage.load_state().placements[0];
    assert_eq!(placement.moved_at, "2024-07-03T00:00:00+00:00");
    assert_eq!(placement.rank, 3);
}
