use personal_jira_kanban::board::{
    issues_in_column, next_rank_for_column, normalize_optional, unmapped_issues, UiState,
};
use personal_jira_kanban::models::{
    BoardColumn, IssuePlacement, IssueSnapshot, OutboxAction, PersistedState,
};
use personal_jira_kanban::storage::AppStorage;

fn issue(key: &str, updated_at: &str) -> IssueSnapshot {
    IssueSnapshot {
        issue_key: key.to_string(),
        summary: format!("Summary {key}"),
        assignee: "Ada".to_string(),
        jira_status: "To Do".to_string(),
        updated_at: updated_at.to_string(),
    }
}

fn placement(key: &str, column_id: Option<i64>, rank: i64) -> IssuePlacement {
    IssuePlacement {
        issue_key: key.to_string(),
        column_id,
        rank,
        moved_at: "2024-01-01T00:00:00+00:00".to_string(),
    }
}

fn action(id: i64, state: &str) -> OutboxAction {
    OutboxAction {
        id,
        issue_key: "A-1".to_string(),
        transition_id: None,
        transition_name: None,
        comment: Some("c".to_string()),
        state: state.to_string(),
        last_error: None,
        created_at: "t".to_string(),
    }
}

fn board(issues: Vec<IssueSnapshot>, placements: Vec<IssuePlacement>) -> UiState {
    UiState::from_persisted(PersistedState {
        issues,
        columns: vec![BoardColumn { id: 1, name: "To Plan".to_string(), sort_order: 1 }],
        placements,
        outbox_actions: vec![],
    })
}

fn keys(issues: &[IssueSnapshot]) -> Vec<String> {
    issues.iter().map(|i| i.issue_key.clone()).collect()
}

#[test]
fn board_counts_pending_updates_and_keys_placements() {
    let state = UiState::from_persisted(PersistedState {
        issues: vec![issue("A-1", "t")],
        columns: vec![],
        placements: vec![placement("A-1", Some(1), 1), placement("A-1", Some(2), 5)],
        outbox_actions: vec![action(3, "pending"), action(2, "failed"), action(1, "pending")],
    });
    assert_eq!(state.outbox_pending_count, 2);
    assert_eq!(state.placements.len(), 1);
    assert_eq!(state.placements[0].column_id, Some(2));
    assert_eq!(state.placements[0].rank, 5);
    assert_eq!(state.notice, None);
    assert_eq!(state.load_error, None);
}

#[test]
fn unmapped_issues_are_those_without_placement() {
    let state = board(
        vec![issue("A-1", "t3"), issue("A-2", "t2"), issue("A-3", "t1")],
        vec![placement("A-2", Some(1), 1)],
    );
    assert_eq!(keys(&unmapped_issues(&state)), vec!["A-1", "A-3"]);
}

#[test]
fn placement_without_column_leaves_the_issue_unmapped() {
    let state = board(
        vec![issue("A-1", "t2"), issue("A-2", "t1")],
        vec![placement("A-1", None, 1), placement("A-2", Some(1), 1)],
    );
    assert_eq!(keys(&unmapped_issues(&state)), vec!["A-1"]);
    assert!(issues_in_column(&state, 1).iter().all(|i| i.issue_key == "A-2"));
}

#[test]
fn failed_load_shows_an_empty_board_with_the_reason() {
    let state = UiState::load_failed("disk I/O error");
    assert!(state.issues.is_empty());
    assert!(state.columns.is_empty());
    assert!(state.placements.is_empty());
    assert_eq!(state.outbox_pending_count, 0);
    assert_eq!(state.notice, None);
    assert_eq!(state.load_error, Some("Failed to load local data: disk I/O error".to_string()));
}

#[test]
fn column_cards_are_sorted_by_rank_and_ties_keep_issue_order() {
    let state = board(
        vec![issue("A-1", "t4"), issue("A-2", "t3"), issue("A-3", "t2"), issue("A-4", "t1")],
        vec![
            placement("A-1", Some(1), 5),
            placement("A-2", Some(1), 2),
            placement("A-3", Some(2), 1),
            placement("A-4", Some(1), 2),
        ],
    );
    assert_eq!(keys(&issues_in_column(&state, 1)), vec!["A-2", "A-4", "A-1"]);
    assert_eq!(keys(&issues_in_column(&state, 2)), vec!["A-3"]);
    assert!(issues_in_column(&state, 3).is_empty());
}

#[test]
fn next_rank_follows_the_largest_in_the_column() {
    let state = board(
        vec![issue("A-1", "t"), issue("A-2", "t"), issue("A-3", "t")],
        vec![placement("A-1", Some(1), 4), placement("A-2", Some(1), 9), placement("A-3", Some(2), 20)],
    );
    assert_eq!(next_rank_for_column(&state, 1), 10);
    assert_eq!(next_rank_for_column(&state, 2), 21);
    assert_eq!(next_rank_for_column(&state, 3), 1);
}

#[test]
fn next_rank_after_negative_ranks() {
    let state = board(vec![issue("A-1", "t")], vec![placement("A-1", Some(1), -5)]);
    assert_eq!(next_rank_for_column(&state, 1), -4);
}

#[test]
fn optional_text_is_trimmed_or_none() {
    assert_eq!(normalize_optional("  Done "), Some("Done".to_string()));
    assert_eq!(normalize_optional("   "), None);
    assert_eq!(normalize_optional(""), None);
    assert_eq!(normalize_optional("a b"), Some("a b".to_string()));
}

#[test]
fn moved_card_shows_in_its_column_after_reload() {
    let mut storage = AppStorage::new();
    storage.bootstrap("2024-05-05T00:00:00+00:00").unwrap();
    storage.upsert_issue_snapshots(&[issue("A-1", "t1"), issue("A-2", "t2")]);
    let before = UiState::from_persisted(storage.load_state());
    assert_eq!(keys(&unmapped_issues(&before)), vec!["A-2", "A-1"]);
    let rank = next_rank_for_column(&before, 2);
    assert_eq!(rank, 1);
    storage.move_issue("A-1", 2, rank, "2024-05-05T00:00:00+00:00");
    let after = UiState::from_persisted(storage.load_state());
    assert_eq!(keys(&issues_in_column(&after, 2)), vec!["A-1"]);
    assert_eq!(keys(&unmapped_issues(&after)), vec!["A-2"]);
    let rank = next_rank_for_column(&after, 2);
    assert_eq!(rank, 2);
    storage.move_issue("A-2", 2, rank, "2024-05-05T00:00:00+00:00");
    let after = UiState::from_persisted(storage.load_state());
    assert_eq!(keys(&issues_in_column(&after, 2)), vec!["A-1", "A-2"]);
    storage.unmap_issue("A-1");
    let after = UiState::from_persisted(storage.load_state());
    assert_eq!(keys(&issues_in_column(&after, 2)), vec!["A-2"]);
    assert_eq!(keys(&unmapped_issues(&after)), vec!["A-1"]);
}
