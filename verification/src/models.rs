//! The records that the board, the local store and the Jira client exchange.

use vstd::prelude::*;

verus! {

/// A Jira issue as last seen by a sync.
#[derive(Debug, PartialEq, Eq)]
pub struct IssueSnapshot {
    pub issue_key: String,
    pub summary: String,
    pub assignee: String,
    pub jira_status: String,
    pub updated_at: String,
}

/// A personal board column.
#[derive(Debug, PartialEq, Eq)]
pub struct BoardColumn {
    pub id: i64,
    pub name: String,
    pub sort_order: i64,
}

/// Where an issue sits on the personal board.
#[derive(Debug, PartialEq, Eq)]
pub struct IssuePlacement {
    pub issue_key: String,
    pub column_id: Option<i64>,
    pub rank: i64,
    pub moved_at: String,
}

/// A queued Jira update: an optional transition and an optional comment.
#[derive(Debug, PartialEq, Eq)]
pub struct OutboxAction {
    pub id: i64,
    pub issue_key: String,
    pub transition_id: Option<String>,
    pub transition_name: Option<String>,
    pub comment: Option<String>,
    pub state: String,
    pub last_error: Option<String>,
    pub created_at: String,
}

/// Everything the board shows, as read from the local store.
#[derive(Debug)]
pub struct PersistedState {
    pub issues: Vec<IssueSnapshot>,
    pub columns: Vec<BoardColumn>,
    pub placements: Vec<IssuePlacement>,
    pub outbox_actions: Vec<OutboxAction>,
}

/// The Jira connection settings as the user typed them.
#[derive(Debug, PartialEq, Eq)]
pub struct JiraSettings {
    pub base_url: String,
    pub email: String,
    pub jql: String,
}

/// The view of an optional text.
pub open spec fn opt_text(o: Option<String>) -> Option<Seq<char>> {
    match o {
        Some(s) => Some(s@),
        None => None,
    }
}

/// Copies an optional text.
pub fn copy_opt_text(o: &Option<String>) -> (r: Option<String>)
    ensures
        r == *o,
{
    match o {
        Some(s) => Some(s.clone()),
        None => None,
    }
}

impl Clone for IssueSnapshot {
    fn clone(&self) -> (r: Self)
        ensures
            r == *self,
    {
        IssueSnapshot {
            issue_key: self.issue_key.clone(),
            summary: self.summary.clone(),
            assignee: self.assignee.clone(),
            jira_status: self.jira_status.clone(),
            updated_at: self.updated_at.clone(),
        }
    }
}

impl Clone for BoardColumn {
    fn clone(&self) -> (r: Self)
        ensures
            r == *self,
    {
        BoardColumn { id: self.id, name: self.name.clone(), sort_order: self.sort_order }
    }
}

impl Clone for IssuePlacement {
    fn clone(&self) -> (r: Self)
        ensures
            r == *self,
    {
        IssuePlacement {
            issue_key: self.issue_key.clone(),
            column_id: self.column_id,
            rank: self.rank,
            moved_at: self.moved_at.clone(),
        }
    }
}

impl Clone for OutboxAction {
    fn clone(&self) -> (r: Self)
        ensures
            r == *self,
    {
        OutboxAction {
            id: self.id,
            issue_key: self.issue_key.clone(),
            transition_id: copy_opt_text(&self.transition_id),
            transition_name: copy_opt_text(&self.transition_name),
            comment: copy_opt_text(&self.comment),
            state: self.state.clone(),
            last_error: copy_opt_text(&self.last_error),
            created_at: self.created_at.clone(),
        }
    }
}

impl Clone for JiraSettings {
    fn clone(&self) -> (r: Self)
        ensures
            r == *self,
    {
        JiraSettings {
            base_url: self.base_url.clone(),
            email: self.email.clone(),
            jql: self.jql.clone(),
        }
    }
}

} // verus!
