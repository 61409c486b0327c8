//! The Jira side: connection settings, credentials, endpoints, and the
//! paged search for assigned issues.

use crate::models::{IssueSnapshot, JiraSettings};
use crate::text::{
    is_white_space, law_no_trailing_slash, law_trimmed_text_has_no_outer_white_space, trim,
    trim_end_slashes, trim_text, trim_trailing_slashes,
};
use vstd::prelude::*;
use vstd::string::*;

verus! {

/// The JQL used when the settings leave it empty.
pub open spec fn default_jql() -> Seq<char> {
    "assignee = currentUser() ORDER BY updated DESC"@
}

/// The base URL as stored and used: trimmed, without trailing slashes.
pub open spec fn normal_base_url(s: Seq<char>) -> Seq<char> {
    trim_end_slashes(trim(s))
}

/// The JQL as stored and used: trimmed, or the default when that leaves nothing.
pub open spec fn normal_jql(s: Seq<char>) -> Seq<char> {
    if trim(s).len() == 0 {
        default_jql()
    } else {
        trim(s)
    }
}

impl JiraSettings {
    /// The base URL without surrounding white space or trailing `/`.
    pub fn normalized_base_url(&self) -> (r: String)
        ensures
            r@ == normal_base_url(self.base_url@),
    {
        let trimmed = trim_text(self.base_url.as_str());
        trim_trailing_slashes(trimmed.as_str())
    }

    /// The e-mail without surrounding white space.
    pub fn normalized_email(&self) -> (r: String)
        ensures
            r@ == trim(self.email@),
    {
        trim_text(self.email.as_str())
    }

    /// The JQL to search with: the trimmed JQL, or the default when it is blank.
    pub fn effective_jql(&self) -> (r: String)
        ensures
            r@ == normal_jql(self.jql@),
    {
        let trimmed = trim_text(self.jql.as_str());
        if trimmed.unicode_len() == 0 {
            "assignee = currentUser() ORDER BY updated DESC".to_owned()
        } else {
            trimmed
        }
    }
}

/// What is needed to call Jira on the user's behalf.
#[derive(Debug, PartialEq, Eq)]
pub struct JiraCredentials {
    pub base_url: String,
    pub email: String,
    pub api_token: String,
}

/// Why credentials could not be formed from the settings.
#[derive(Debug, Clone, Copy, PartialEq, Eq)]
pub enum CredentialsError {
    MissingBaseUrl,
    MissingEmail,
    MissingApiToken,
}

impl CredentialsError {
    /// The message shown to the user.
    pub fn message(&self) -> (r: String)
        ensures
            r@ == match *self {
                CredentialsError::MissingBaseUrl => "Jira base URL is required"@,
                CredentialsError::MissingEmail => "Jira email is required"@,
                CredentialsError::MissingApiToken => "Jira API token is required"@,
            },
    {
        match self {
            CredentialsError::MissingBaseUrl => "Jira base URL is required".to_owned(),
            CredentialsError::MissingEmail => "Jira email is required".to_owned(),
            CredentialsError::MissingApiToken => "Jira API token is required".to_owned(),
        }
    }
}

impl Clone for JiraCredentials {
    fn clone(&self) -> (r: Self)
        ensures
            r == *self,
    {
        JiraCredentials {
            base_url: self.base_url.clone(),
            email: self.email.clone(),
            api_token: self.api_token.clone(),
        }
    }
}

/// The path prefix of Jira's REST API, version 3.
pub open spec fn api_prefix() -> Seq<char> {
    "/rest/api/3"@
}

impl JiraCredentials {
    /// Forms credentials from the settings and a token: the base URL and e-mail
    /// normalized, the token trimmed; each must be non-empty, checked in that order.
    pub fn from_settings(settings: &JiraSettings, api_token: String) -> (r: Result<
        JiraCredentials,
        CredentialsError,
    >)
        ensures
            normal_base_url(settings.base_url@).len() == 0 ==> r == Err::<JiraCredentials, _>(
                CredentialsError::MissingBaseUrl,
            ),
            normal_base_url(settings.base_url@).len() != 0 && trim(settings.email@).len() == 0
                ==> r == Err::<JiraCredentials, _>(CredentialsError::MissingEmail),
            normal_base_url(settings.base_url@).len() != 0 && trim(settings.email@).len() != 0
                && trim(api_token@).len() == 0 ==> r == Err::<JiraCredentials, _>(
                CredentialsError::MissingApiToken,
            ),
            r is Ok <==> (normal_base_url(settings.base_url@).len() != 0 && trim(
                settings.email@,
            ).len() != 0 && trim(api_token@).len() != 0),
            r matches Ok(c) ==> {
                &&& c.base_url@ == normal_base_url(settings.base_url@)
                &&& c.email@ == trim(settings.email@)
                &&& c.api_token@ == trim(api_token@)
            },
    {
        let base_url = settings.normalized_base_url();
        let email = settings.normalized_email();
        let token = trim_text(api_token.as_str());
        if base_url.unicode_len() == 0 {
            return Err(CredentialsError::MissingBaseUrl);
        }
        if email.unicode_len() == 0 {
            return Err(CredentialsError::MissingEmail);
        }
        if token.unicode_len() == 0 {
            return Err(CredentialsError::MissingApiToken);
        }
        Ok(JiraCredentials { base_url, email, api_token: token })
    }

    /// The full URL of an API path: base URL, `/rest/api/3`, then the path.
    pub fn endpoint(&self, path: &str) -> (r: String)
        ensures
            r@ == self.base_url@ + api_prefix() + path@,
    {
        let mut r = self.base_url.clone();
        r.append("/rest/api/3");
        r.append(path);
        r
    }
}


/// One issue of a search page, as the library needs it: the key and the
/// optional summary, status name, assignee display name and update time.
#[derive(Debug, PartialEq, Eq)]
pub struct SearchIssue {
    pub key: String,
    pub summary: Option<String>,
    pub status_name: Option<String>,
    pub assignee_name: Option<String>,
    pub updated: Option<String>,
}

/// An optional text, or the fallback when it is absent.
pub open spec fn text_or(o: Option<String>, fallback: Seq<char>) -> Seq<char> {
    match o {
        Some(s) => s@,
        None => fallback,
    }
}

/// `snapshot` is what a search issue becomes: the key, the summary or
/// "(No summary)", the assignee or "Unassigned", the status or "Unknown", and
/// the update time when Jira gave one.
pub open spec fn snapshot_of(issue: SearchIssue, snapshot: IssueSnapshot) -> bool {
    &&& snapshot.issue_key@ == issue.key@
    &&& snapshot.summary@ == text_or(issue.summary, "(No summary)"@)
    &&& snapshot.assignee@ == text_or(issue.assignee_name, "Unassigned"@)
    &&& snapshot.jira_status@ == text_or(issue.status_name, "Unknown"@)
    &&& issue.updated matches Some(u) ==> snapshot.updated_at@ == u@
}

/// `snapshot` is what a search issue fetched at `fetched_at` becomes: as
/// `snapshot_of` says, with `fetched_at` as the update time when Jira gave none.
pub open spec fn snapshot_fetched(issue: SearchIssue, fetched_at: Seq<char>, snapshot: IssueSnapshot) -> bool {
    &&& snapshot_of(issue, snapshot)
    &&& snapshot.updated_at@ == text_or(issue.updated, fetched_at)
}

fn text_or_else(o: Option<String>, fallback: &str) -> (r: String)
    ensures
        r@ == text_or(o, fallback@),
{
    match o {
        Some(s) => s,
        None => fallback.to_owned(),
    }
}

/// Turns a search issue into a snapshot: the key, the summary or
/// "(No summary)", the assignee or "Unassigned", the status or "Unknown",
/// and the update time Jira gave, else `fallback_updated_at` (the time the
/// issue was fetched).
pub fn map_issue_snapshot(issue: SearchIssue, fallback_updated_at: String) -> (r: IssueSnapshot)
    ensures
        snapshot_of(issue, r),
        r.updated_at@ == text_or(issue.updated, fallback_updated_at@),
{
    let updated_at = match issue.updated {
        Some(u) => u,
        None => fallback_updated_at,
    };
    IssueSnapshot {
        issue_key: issue.key,
        summary: text_or_else(issue.summary, "(No summary)"),
        assignee: text_or_else(issue.assignee_name, "Unassigned"),
        jira_status: text_or_else(issue.status_name, "Unknown"),
        updated_at,
    }
}

/// Issues asked for per search page.
pub const SEARCH_PAGE_SIZE: i64 = 100;

/// A request for one page of the assigned-issue search.
#[derive(Debug, PartialEq, Eq)]
pub struct SearchRequest {
    pub jql: String,
    pub start_at: i64,
    pub max_results: i64,
    pub fields: Vec<String>,
}

/// One page of search results: Jira's total, the page size Jira used, the issues.
#[derive(Debug, PartialEq, Eq)]
pub struct SearchPage {
    pub total: i64,
    pub max_results: i64,
    pub issues: Vec<SearchIssue>,
}

/// The paged search for assigned issues: what has been collected, where the
/// next page starts, and whether the search is over.
#[derive(Debug)]
pub struct AssignedIssueSearch {
    pub jql: String,
    pub start_at: i64,
    pub collected: Vec<IssueSnapshot>,
    pub finished: bool,
}

/// The fields that a search asks Jira for.
pub open spec fn search_fields() -> Seq<Seq<char>> {
    seq!["summary"@, "status"@, "assignee"@, "updated"@]
}

/// Whether the search stops after a page: everything up to Jira's total has
/// been processed, or the page was empty.
pub open spec fn search_stops(start_at: i64, page_max_results: i64, total: i64, page_len: nat) -> bool {
    start_at + page_max_results >= total || page_len == 0
}

impl AssignedIssueSearch {
    /// A search that starts at the first issue with nothing collected.
    pub fn new(jql: &str) -> (r: AssignedIssueSearch)
        ensures
            r.jql@ == jql@,
            r.start_at == 0,
            r.collected@.len() == 0,
            !r.finished,
    {
        AssignedIssueSearch { jql: jql.to_owned(), start_at: 0, collected: Vec::new(), finished: false }
    }

    /// The request for the next page.
    pub fn request(&self) -> (r: SearchRequest)
        ensures
            r.jql@ == self.jql@,
            r.start_at == self.start_at,
            r.max_results == SEARCH_PAGE_SIZE,
            r.fields@.map_values(|f: String| f@) == search_fields(),
    {
        let fields = vec![
            "summary".to_owned(),
            "status".to_owned(),
            "assignee".to_owned(),
            "updated".to_owned(),
        ];
        assert(fields@.map_values(|f: String| f@) =~= search_fields());
        SearchRequest {
            jql: self.jql.clone(),
            start_at: self.start_at,
            max_results: SEARCH_PAGE_SIZE,
            fields,
        }
    }

    /// Takes in a page fetched at `fetched_at`: its issues are mapped (an
    /// issue without an update time gets `fetched_at`) and appended; the search
    /// stops when the page reaches Jira's total or is empty, else moves on by
    /// the page's size. Returns whether another page is wanted.
    pub fn accept_page(&mut self, page: SearchPage, fetched_at: &str) -> (more: bool)
        requires
            !old(self).finished,
            i64::MIN <= old(self).start_at + page.max_results <= i64::MAX,
        ensures
            final(self).jql == old(self).jql,
            final(self).collected@.len() == old(self).collected@.len() + page.issues@.len(),
            final(self).collected@.subrange(0, old(self).collected@.len() as int)
                == old(self).collected@,
            forall|k: int|
                0 <= k < page.issues@.len() ==> snapshot_fetched(
                    #[trigger] page.issues@[k],
                    fetched_at@,
                    final(self).collected@[old(self).collected@.len() + k],
                ),
            final(self).finished == search_stops(
                old(self).start_at,
                page.max_results,
                page.total,
                page.issues@.len(),
            ),
            final(self).start_at == if final(self).finished {
                old(self).start_at
            } else {
                (old(self).start_at + page.max_results) as i64
            },
            more == !final(self).finished,
    {
        let page_len = page.issues.len();
        let ghost old_collected = self.collected@;
        let ghost old_jql = self.jql;
        let ghost old_start = self.start_at;
        let ghost issues = page.issues@;
        let total = page.total;
        let max_results = page.max_results;
        let mut page_issues = page.issues;
        assert(page_issues@ =~= issues.subrange(0, page_len as int));
        let mut k: usize = 0;
        while k < page_len
            invariant
                page_len == issues.len(),
                k <= page_len,
                self.jql == old_jql,
                self.start_at == old_start,
                !self.finished,
                i64::MIN <= old_start + max_results <= i64::MAX,
                page_issues@ =~= issues.subrange(k as int, page_len as int),
                self.collected@.len() == old_collected.len() + k,
                self.collected@.subrange(0, old_collected.len() as int) == old_collected,
                forall|j: int|
                    0 <= j < k ==> snapshot_fetched(
                        #[trigger] issues[j],
                        fetched_at@,
                        self.collected@[old_collected.len() + j],
                    ),
            decreases page_len - k,
        {
            let issue = page_issues.remove(0);
            assert(issue == issues[k as int]);
            let snapshot = map_issue_snapshot(issue, fetched_at.to_owned());
            self.collected.push(snapshot);
            assert(self.collected@.subrange(0, old_collected.len() as int) =~= old_collected);
            k = k + 1;
        }
        let processed = self.start_at + max_results;
        if processed >= total || page_len == 0 {
            self.finished = true;
            false
        } else {
            self.start_at = processed;
            true
        }
    }
}

/// The base URL as used starts with no white space and ends with no slash,
/// so an endpoint joins it to "/rest/api/3" with exactly one slash between.
pub proof fn law_base_url_joins_cleanly(s: Seq<char>)
    ensures
        normal_base_url(s).len() > 0 ==> !is_white_space(normal_base_url(s)[0])
            && normal_base_url(s).last() != '/',
        api_prefix()[0] == '/',
{
    reveal_strlit("/rest/api/3");
    law_trimmed_text_has_no_outer_white_space(s);
    law_no_trailing_slash(trim(s));
    if normal_base_url(s).len() > 0 {
        assert(normal_base_url(s)[0] == trim(s)[0]);
    }
}

/// The JQL searched with is never empty: blank settings fall back on the
/// default query, and any other JQL is used trimmed.
pub proof fn law_effective_jql_never_empty(s: Seq<char>)
    ensures
        normal_jql(s).len() > 0,
        trim(s).len() > 0 ==> normal_jql(s) == trim(s),
        trim(s).len() == 0 ==> normal_jql(s) == default_jql(),
{
    reveal_strlit("assignee = currentUser() ORDER BY updated DESC");
}

} // verus!
