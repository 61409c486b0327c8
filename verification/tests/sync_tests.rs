use personal_jira_kanban::storage::AppStorage;
use personal_jira_kanban::sync::{
    batch_size, OutboxSync, QueueRunSummary, SyncCommand, SyncEvent, SyncPhase, DEFAULT_MAX_ACTIONS,
};

fn store_with_queue() -> AppStorage {
    let mut storage = AppStorage::new();
    storage.bootstrap("2024-05-05T00:00:00+00:00").unwrap();
    storage.queue_jira_update("A-1", Some("31"), Some("Done"), Some("  shipped  "), "2024-05-05T00:00:00+00:00").unwrap();
    storage.queue_jira_update("A-2", None, None, Some("note"), "2024-05-05T00:00:00+00:00").unwrap();
    storage.queue_jira_update("A-3", Some("11"), Some("To Do"), None, "2024-05-05T00:00:00+00:00").unwrap();
    storage
}

#[test]
fn batch_size_defaults_to_fifty() {
    assert_eq!(batch_size(0), 50);
    assert_eq!(DEFAULT_MAX_ACTIONS, 50);
    assert_eq!(batch_size(3), 3);
}

#[test]
fn default_summary_is_all_zero() {
    let s = QueueRunSummary::default();
    assert_eq!(
        s,
        QueueRunSummary { attempted: 0, succeeded: 0, failed: 0, remaining_pending: 0, remaining_failed: 0 }
    );
}

#[test]
fn a_run_sends_transitions_then_comments() {
    let mut storage = store_with_queue();
    let mut run = OutboxSync::start(&storage, 0);
    assert_eq!(run.batch.len(), 3);
    assert!(run.accepts_event(&SyncEvent::Proceed));
    assert!(!run.accepts_event(&SyncEvent::CallSucceeded));

    let cmd = run.step(&mut storage, SyncEvent::Proceed);
    assert_eq!(
        cmd,
        SyncCommand::TransitionIssue { issue_key: "A-1".to_string(), transition_id: "31".to_string() }
    );
    assert_eq!(run.phase, SyncPhase::AwaitingTransition);
    assert_eq!(storage.count_outbox_actions_by_state("processing"), 1);

    let cmd = run.step(&mut storage, SyncEvent::CallSucceeded);
    assert_eq!(
        cmd,
        SyncCommand::AddComment { issue_key: "A-1".to_string(), body: "shipped".to_string() }
    );
    let cmd = run.step(&mut storage, SyncEvent::CallSucceeded);
    assert_eq!(cmd, SyncCommand::Continue);

    let cmd = run.step(&mut storage, SyncEvent::Proceed);
    assert_eq!(cmd, SyncCommand::AddComment { issue_key: "A-2".to_string(), body: "note".to_string() });
    let cmd = run.step(&mut storage, SyncEvent::CallFailed("HTTP 500".to_string()));
    assert_eq!(cmd, SyncCommand::Continue);

    let cmd = run.step(&mut storage, SyncEvent::Proceed);
    assert_eq!(
        cmd,
        SyncCommand::TransitionIssue { issue_key: "A-3".to_string(), transition_id: "11".to_string() }
    );
    let cmd = run.step(&mut storage, SyncEvent::CallSucceeded);
    assert_eq!(cmd, SyncCommand::Continue);

    let cmd = run.step(&mut storage, SyncEvent::Proceed);
    let expected = QueueRunSummary {
        attempted: 3,
        succeeded: 2,
        failed: 1,
        remaining_pending: 0,
        remaining_failed: 1,
    };
    assert_eq!(cmd, SyncCommand::Finished(expected));
    assert_eq!(run.phase, SyncPhase::Finished);
    assert!(!run.accepts_event(&SyncEvent::Proceed));

    let actions = storage.load_state().outbox_actions;
    assert_eq!(actions[2].state, "done");
    assert_eq!(actions[2].transition_id, None);
    assert_eq!(actions[2].comment, None);
    assert_eq!(actions[1].state, "failed");
    assert_eq!(actions[1].last_error, Some("failed to add comment to issue A-2: HTTP 500".to_string()));
    assert_eq!(actions[1].comment, Some("note".to_string()));
    assert_eq!(actions[0].state, "done");
    assert_eq!(actions[0].transition_id, None);
}

#[test]
fn failed_transition_is_recorded_with_its_context() {
    let mut storage = store_with_queue();
    let mut run = OutboxSync::start(&storage, 1);
    assert_eq!(run.batch.len(), 1);
    run.step(&mut storage, SyncEvent::Proceed);
    let cmd = run.step(&mut storage, SyncEvent::CallFailed("unauthorized".to_string()));
    assert_eq!(cmd, SyncCommand::Continue);
    let cmd = run.step(&mut storage, SyncEvent::Proceed);
    let expected = QueueRunSummary {
        attempted: 1,
        succeeded: 0,
        failed: 1,
        remaining_pending: 2,
        remaining_failed: 1,
    };
    assert_eq!(cmd, SyncCommand::Finished(expected));
    let actions = storage.load_state().outbox_actions;
    let first = actions.iter().find(|a| a.id == 1).unwrap();
    assert_eq!(first.state, "failed");
    assert_eq!(
        first.last_error,
        Some("failed to transition issue A-1 with transition 31: unauthorized".to_string())
    );
    assert_eq!(first.transition_id, Some("31".to_string()));
}

#[test]
fn blank_comment_is_dropped_without_a_call() {
    let mut storage = AppStorage::new();
    storage.queue_jira_update("A-9", None, None, Some("   "), "2024-05-05T00:00:00+00:00").unwrap();
    let mut run = OutboxSync::start(&storage, 5);
    let cmd = run.step(&mut storage, SyncEvent::Proceed);
    assert_eq!(cmd, SyncCommand::Continue);
    let cmd = run.step(&mut storage, SyncEvent::Proceed);
    assert!(matches!(cmd, SyncCommand::Finished(s) if s.succeeded == 1 && s.attempted == 1));
    let action = &storage.load_state().outbox_actions[0];
    assert_eq!(action.state, "done");
    assert_eq!(action.comment, None);
}

#[test]
fn an_empty_queue_finishes_at_once() {
    let mut storage = AppStorage::new();
    let mut run = OutboxSync::start(&storage, 0);
    assert!(run.batch.is_empty());
    let cmd = run.step(&mut storage, SyncEvent::Proceed);
    assert_eq!(cmd, SyncCommand::Finished(QueueRunSummary::default()));
}
