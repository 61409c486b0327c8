use personal_jira_kanban::jira::{
    AssignedIssueSearch, CredentialsError, JiraCredentials, SearchIssue, SearchPage,
    map_issue_snapshot, SEARCH_PAGE_SIZE,
};
use personal_jira_kanban::models::JiraSettings;

fn settings(base_url: &str, email: &str, jql: &str) -> JiraSettings {
    JiraSettings { base_url: base_url.to_string(), email: email.to_string(), jql: jql.to_string() }
}

fn search_issue(key: &str, updated: Option<&str>) -> SearchIssue {
    SearchIssue {
        key: key.to_string(),
        summary: Some(format!("Summary of {key}")),
        status_name: Some("In Progress".to_string()),
        assignee_name: Some("Ada".to_string()),
        updated: updated.map(|u| u.to_string()),
    }
}

#[test]
fn settings_are_normalized() {
    let s = settings("  https://org.atlassian.net/// ", "  me@example.com ", "  project = X  ");
    assert_eq!(s.normalized_base_url(), "https://org.atlassian.net");
    assert_eq!(s.normalized_email(), "me@example.com");
    assert_eq!(s.effective_jql(), "project = X");
}

#[test]
fn blank_jql_falls_back_to_the_default() {
    let s = settings("https://org.atlassian.net", "me@example.com", "   ");
    assert_eq!(s.effective_jql(), "assignee = currentUser() ORDER BY updated DESC");
    let s = settings("https://org.atlassian.net", "me@example.com", "");
    assert_eq!(s.effective_jql(), "assignee = currentUser() ORDER BY updated DESC");
}

#[test]
fn credentials_from_complete_settings() {
    let s = settings(" https://org.atlassian.net/ ", " me@example.com ", "");
    let c = JiraCredentials::from_settings(&s, "  tok3n \n".to_string()).unwrap();
    assert_eq!(c.base_url, "https://org.atlassian.net");
    assert_eq!(c.email, "me@example.com");
    assert_eq!(c.api_token, "tok3n");
}

#[test]
fn credentials_need_a_base_url() {
    let s = settings("  / ", "me@example.com", "");
    let r = JiraCredentials::from_settings(&s, "tok".to_string());
    assert_eq!(r, Err(CredentialsError::MissingBaseUrl));
    assert_eq!(CredentialsError::MissingBaseUrl.message(), "Jira base URL is required");
}

#[test]
fn credentials_need_an_email() {
    let s = settings("https://org.atlassian.net", "  ", "");
    let r = JiraCredentials::from_settings(&s, "tok".to_string());
    assert_eq!(r, Err(CredentialsError::MissingEmail));
    assert_eq!(CredentialsError::MissingEmail.message(), "Jira email is required");
}

#[test]
fn credentials_need_a_token() {
    let s = settings("https://org.atlassian.net", "me@example.com", "");
    let r = JiraCredentials::from_settings(&s, " \t ".to_string());
    assert_eq!(r, Err(CredentialsError::MissingApiToken));
    assert_eq!(CredentialsError::MissingApiToken.message(), "Jira API token is required");
}

#[test]
fn missing_base_url_is_reported_first() {
    let s = settings("", "", "");
    let r = JiraCredentials::from_settings(&s, String::new());
    assert_eq!(r, Err(CredentialsError::MissingBaseUrl));
}

#[test]
fn endpoint_joins_base_url_prefix_and_path() {
    let s = settings("https://org.atlassian.net/", "me@example.com", "");
    let c = JiraCredentials::from_settings(&s, "tok".to_string()).unwrap();
    assert_eq!(c.endpoint("/myself"), "https://org.atlassian.net/rest/api/3/myself");
    assert_eq!(c.endpoint("/search"), "https://org.atlassian.net/rest/api/3/search");
    assert_eq!(
        c.endpoint("/issue/ABC-1/transitions"),
        "https://org.atlassian.net/rest/api/3/issue/ABC-1/transitions"
    );
}

#[test]
fn mapping_keeps_the_given_fields() {
    let snapshot = map_issue_snapshot(search_issue("ABC-1", Some("2024-03-01T10:00:00.000+0000")), "fetched".to_string());
    assert_eq!(snapshot.issue_key, "ABC-1");
    assert_eq!(snapshot.summary, "Summary of ABC-1");
    assert_eq!(snapshot.assignee, "Ada");
    assert_eq!(snapshot.jira_status, "In Progress");
    assert_eq!(snapshot.updated_at, "2024-03-01T10:00:00.000+0000");
}

#[test]
fn mapping_fills_in_missing_fields() {
    let issue = SearchIssue {
        key: "ABC-2".to_string(),
        summary: None,
        status_name: None,
        assignee_name: None,
        updated: None,
    };
    let snapshot = map_issue_snapshot(issue, "2024-09-09T09:09:09+00:00".to_string());
    assert_eq!(snapshot.issue_key, "ABC-2");
    assert_eq!(snapshot.summary, "(No summary)");
    assert_eq!(snapshot.assignee, "Unassigned");
    assert_eq!(snapshot.jira_status, "Unknown");
    assert_eq!(snapshot.updated_at, "2024-09-09T09:09:09+00:00");
}

#[test]
fn search_starts_at_zero_and_asks_for_the_fields() {
    let search = AssignedIssueSearch::new("assignee = currentUser()");
    let request = search.request();
    assert_eq!(request.jql, "assignee = currentUser()");
    assert_eq!(request.start_at, 0);
    assert_eq!(request.max_results, SEARCH_PAGE_SIZE);
    assert_eq!(request.max_results, 100);
    assert_eq!(request.fields, vec!["summary", "status", "assignee", "updated"]);
    assert!(!search.finished);
}

#[test]
fn search_pages_until_the_total_is_reached() {
    let mut search = AssignedIssueSearch::new("jql");
    let more = search.accept_page(SearchPage {
        total: 3,
        max_results: 2,
        issues: vec![search_issue("A-1", Some("t1")), search_issue("A-2", None)],
    }, "fetched-1");
    assert!(more);
    assert_eq!(search.start_at, 2);
    assert_eq!(search.request().start_at, 2);
    let more = search.accept_page(SearchPage {
        total: 3,
        max_results: 2,
        issues: vec![search_issue("A-3", Some("t3"))],
    }, "fetched-2");
    assert!(!more);
    assert!(search.finished);
    let keys: Vec<&str> = search.collected.iter().map(|s| s.issue_key.as_str()).collect();
    assert_eq!(keys, vec!["A-1", "A-2", "A-3"]);
    let times: Vec<&str> = search.collected.iter().map(|s| s.updated_at.as_str()).collect();
    assert_eq!(times, vec!["t1", "fetched-1", "t3"]);
}

#[test]
fn search_stops_on_an_empty_page() {
    let mut search = AssignedIssueSearch::new("jql");
    let more = search.accept_page(SearchPage { total: 50, max_results: 10, issues: vec![] }, "fetched");
    assert!(!more);
    assert!(search.finished);
    assert!(search.collected.is_empty());
    assert_eq!(search.start_at, 0);
}

#[test]
fn fallback_time_is_used_only_when_jira_gives_none() {
    let snapshot = map_issue_snapshot(search_issue("C-1", None), "2024-06-01T00:00:00+00:00".to_string());
    assert_eq!(snapshot.updated_at, "2024-06-01T00:00:00+00:00");
    assert_eq!(snapshot.summary, "Summary of C-1");
    let snapshot = map_issue_snapshot(search_issue("C-2", Some("2023-01-01")), "fallback".to_string());
    assert_eq!(snapshot.updated_at, "2023-01-01");
}
