use personal_jira_kanban::board::{issues_in_column, unmapped_issues, UiState};
use personal_jira_kanban::controls::{
    add_column_control, save_move, save_move_control, unmap_control, ControlOutcome,
};
use personal_jira_kanban::models::IssueSnapshot;
use personal_jira_kanban::storage::records::ColumnRecord;
use personal_jira_kanban::storage::{AppStorage, StorageError, StorageTables};

fn issue(key: &str, updated_at: &str) -> IssueSnapshot {
    IssueSnapshot {
        issue_key: key.to_string(),
        summary: format!("Summary {key}"),
        assignee: "Ada".to_string(),
        jira_status: "To Do".to_string(),
        updated_at: updated_at.to_string(),
    }
}

fn opened_with_issues() -> AppStorage {
    let mut storage = AppStorage::new();
    storage.bootstrap("2024-05-05T00:00:00+00:00").unwrap();
    storage.upsert_issue_snapshots(&[issue("A-1", "t1"), issue("A-2", "t2")]);
    storage
}

fn keys(issues: &[IssueSnapshot]) -> Vec<String> {
    issues.iter().map(|i| i.issue_key.clone()).collect()
}

#[test]
fn add_column_with_a_name() {
    let mut storage = opened_with_issues();
    let outcome = add_column_control(&mut storage, "  Review ", "2024-05-05T00:00:00+00:00");
    assert_eq!(outcome, ControlOutcome { reload: true, notice: "Added column 'Review'.".to_string() });
    assert_eq!(storage.load_state().columns.last().unwrap().name, "Review");
}

#[test]
fn add_column_without_a_name() {
    let mut storage = opened_with_issues();
    let outcome = add_column_control(&mut storage, "   ", "2024-05-05T00:00:00+00:00");
    assert_eq!(
        outcome,
        ControlOutcome { reload: false, notice: "Type a column name before adding it.".to_string() }
    );
    assert_eq!(storage.load_state().columns.len(), 4);
}

#[test]
fn add_column_when_ids_run_out() {
    let tables = StorageTables {
        issues: vec![],
        columns: vec![ColumnRecord { id: 7, name: "Only".to_string(), sort_order: 1, created_at: "t".to_string() }],
        placements: vec![],
        outbox: vec![],
        settings: vec![],
        last_column_id: i64::MAX,
        last_outbox_id: 0,
    };
    let mut storage = AppStorage::from_tables(tables).unwrap();
    let outcome = add_column_control(&mut storage, "More", "2024-05-05T00:00:00+00:00");
    assert_eq!(
        outcome,
        ControlOutcome { reload: false, notice: "Failed to add column: failed to insert column".to_string() }
    );
}

#[test]
fn saving_a_move_without_update_only_places_the_card() {
    let mut storage = opened_with_issues();
    let board = UiState::from_persisted(storage.load_state());
    let outcome = save_move_control(&mut storage, &board, "A-1", 2, "", "", "   ", "2024-05-05T00:00:00+00:00");
    assert_eq!(outcome, ControlOutcome { reload: true, notice: "Move saved locally.".to_string() });
    assert_eq!(storage.outbox_len(), 0);
    let board = UiState::from_persisted(storage.load_state());
    assert_eq!(keys(&issues_in_column(&board, 2)), vec!["A-1"]);
    assert_eq!(board.placements[0].rank, 1);
}

#[test]
fn saving_a_move_with_transition_and_comment_queues_an_update() {
    let mut storage = opened_with_issues();
    let board = UiState::from_persisted(storage.load_state());
    assert!(save_move_control(&mut storage, &board, "A-2", 3, "", "", "", "2024-05-05T00:00:00+00:00").reload);
    let board = UiState::from_persisted(storage.load_state());
    let outcome = save_move_control(&mut storage, &board, "A-1", 3, " 41 ", " In Review ", " looks good ", "2024-05-05T00:00:00+00:00");
    assert_eq!(
        outcome,
        ControlOutcome { reload: true, notice: "Move saved locally and Jira update queued.".to_string() }
    );
    let state = storage.load_state();
    let action = &state.outbox_actions[0];
    assert_eq!(action.issue_key, "A-1");
    assert_eq!(action.transition_id, Some("41".to_string()));
    assert_eq!(action.transition_name, Some("In Review".to_string()));
    assert_eq!(action.comment, Some("looks good".to_string()));
    assert_eq!(action.state, "pending");
    let board = UiState::from_persisted(state);
    assert_eq!(keys(&issues_in_column(&board, 3)), vec!["A-2", "A-1"]);
}

#[test]
fn a_transition_name_without_id_is_not_queued() {
    let mut storage = opened_with_issues();
    let board = UiState::from_persisted(storage.load_state());
    let queued = save_move(&mut storage, &board, "A-1", 1, "  ", "Done", "", "2024-05-05T00:00:00+00:00").unwrap();
    assert!(!queued);
    assert_eq!(storage.outbox_len(), 0);
}

#[test]
fn a_comment_alone_is_queued() {
    let mut storage = opened_with_issues();
    let board = UiState::from_persisted(storage.load_state());
    let queued = save_move(&mut storage, &board, "A-1", 1, "", "ignored", "ping", "2024-05-05T00:00:00+00:00").unwrap();
    assert!(queued);
    let action = &storage.load_state().outbox_actions[0];
    assert_eq!(action.transition_id, None);
    assert_eq!(action.transition_name, None);
    assert_eq!(action.comment, Some("ping".to_string()));
}

#[test]
fn saving_a_move_when_update_ids_run_out() {
    let mut tables = opened_with_issues().to_tables();
    tables.last_outbox_id = i64::MAX;
    let mut storage = AppStorage::from_tables(tables).unwrap();
    let board = UiState::from_persisted(storage.load_state());
    let outcome = save_move_control(&mut storage, &board, "A-1", 1, "5", "Done", "", "2024-05-05T00:00:00+00:00");
    assert_eq!(
        outcome,
        ControlOutcome { reload: false, notice: "Could not save move: failed to queue jira update".to_string() }
    );
    assert_eq!(save_move(&mut storage, &board, "A-1", 1, "5", "Done", "", "2024-05-05T00:00:00+00:00"), Err(StorageError::IdsExhausted));
}

#[test]
fn unmapping_a_card_returns_it_to_unmapped() {
    let mut storage = opened_with_issues();
    storage.move_issue("A-1", 1, 1, "2024-05-05T00:00:00+00:00");
    let outcome = unmap_control(&mut storage, "A-1");
    assert_eq!(outcome, ControlOutcome { reload: true, notice: "Issue moved back to Unmapped.".to_string() });
    let board = UiState::from_persisted(storage.load_state());
    assert_eq!(keys(&unmapped_issues(&board)), vec!["A-2", "A-1"]);
}
