//! The settings table: the Jira connection settings and the API token.

use crate::jira::{normal_base_url, normal_jql};
use crate::models::JiraSettings;
use crate::storage::records::{
    find_setting, has_setting, lemma_setting_lookup_at, setting_keys_unique, setting_lookup,
    SettingRecord,
};
use crate::storage::{same_but_settings, same_tables, AppStorage, StorageTables};
use crate::text::{trim, trim_text};
use vstd::prelude::*;
use vstd::string::*;

verus! {

/// The value stored under a key, or the empty text.
pub open spec fn setting_or_empty(s: Seq<SettingRecord>, k: Seq<char>) -> Seq<char> {
    match setting_lookup(s, k) {
        Some(v) => v,
        None => Seq::empty(),
    }
}

/// The settings after `key` is set to `value` (added, or replacing the old value).
pub open spec fn settings_after_upsert(
    old: Seq<SettingRecord>,
    new: Seq<SettingRecord>,
    key: Seq<char>,
    value: Seq<char>,
) -> bool {
    &&& setting_keys_unique(new)
    &&& setting_lookup(new, key) == Some(value)
    &&& forall|k: Seq<char>| k != key ==> #[trigger] setting_lookup(new, k) == setting_lookup(old, k)
}

/// The store after the Jira settings are saved: the base URL, e-mail and
/// JQL stored normalized under their keys, every other setting and every
/// other table as before.
pub open spec fn jira_settings_saved(
    before: StorageTables,
    after: StorageTables,
    settings: JiraSettings,
) -> bool {
    &&& same_but_settings(after, before)
    &&& setting_lookup(after.settings@, "jira_base_url"@) == Some(normal_base_url(settings.base_url@))
    &&& setting_lookup(after.settings@, "jira_email"@) == Some(trim(settings.email@))
    &&& setting_lookup(after.settings@, "jira_jql"@) == Some(normal_jql(settings.jql@))
    &&& forall|k: Seq<char>|
        k != "jira_base_url"@ && k != "jira_email"@ && k != "jira_jql"@ ==> #[trigger] setting_lookup(
            after.settings@,
            k,
        ) == setting_lookup(before.settings@, k)
}

/// The store after an API token is saved: a blank token changes nothing;
/// otherwise the trimmed token is stored under its key, the rest as before.
pub open spec fn api_token_saved(before: StorageTables, after: StorageTables, token: Seq<char>) -> bool {
    &&& trim(token).len() == 0 ==> same_tables(after, before)
    &&& trim(token).len() != 0 ==> {
        &&& same_but_settings(after, before)
        &&& settings_after_upsert(before.settings@, after.settings@, "jira_api_token"@, trim(token))
    }
}

impl AppStorage {
    /// The value stored under a setting key, if any.
    pub fn get_setting_value(&self, key: &str) -> (r: Option<String>)
        requires
            self.wf(),
        ensures
            r matches Some(v) ==> setting_lookup(self@.settings@, key@) == Some(v@),
            r is None ==> setting_lookup(self@.settings@, key@) is None,
    {
        match find_setting(&self.tables.settings, key) {
            Some(i) => {
                proof {
                    lemma_setting_lookup_at(self.tables.settings@, i as int);
                }
                Some(self.tables.settings[i].value.clone())
            },
            None => None,
        }
    }

    /// Stores `value` under `key`, replacing what was there.
    pub fn upsert_setting_value(&mut self, key: &str, value: &str)
        requires
            old(self).wf(),
        ensures
            final(self).wf(),
            same_but_settings(final(self)@, old(self)@),
            settings_after_upsert(old(self)@.settings@, final(self)@.settings@, key@, value@),
    {
        let ghost old_settings = self.tables.settings@;
        let record = SettingRecord { key: key.to_owned(), value: value.to_owned() };
        match find_setting(&self.tables.settings, key) {
            Some(i) => {
                self.tables.settings.set(i, record);
                let ghost new_settings = self.tables.settings@;
                proof {
                    assert(setting_keys_unique(new_settings));
                    lemma_setting_lookup_at(new_settings, i as int);
                    assert forall|k: Seq<char>| k != key@ implies #[trigger] setting_lookup(
                        new_settings,
                        k,
                    ) == setting_lookup(old_settings, k) by {
                        if has_setting(old_settings, k) {
                            let j = choose|j: int|
                                0 <= j < old_settings.len() && #[trigger] old_settings[j].key@ == k;
                            lemma_setting_lookup_at(old_settings, j);
                            lemma_setting_lookup_at(new_settings, j);
                        } else {
                            assert(!has_setting(new_settings, k));
                        }
                    }
                }
            },
            None => {
                self.tables.settings.push(record);
                let ghost new_settings = self.tables.settings@;
                proof {
                    assert(setting_keys_unique(new_settings));
                    lemma_setting_lookup_at(new_settings, old_settings.len() as int);
                    assert forall|k: Seq<char>| k != key@ implies #[trigger] setting_lookup(
                        new_settings,
                        k,
                    ) == setting_lookup(old_settings, k) by {
                        if has_setting(old_settings, k) {
                            let j = choose|j: int|
                                0 <= j < old_settings.len() && #[trigger] old_settings[j].key@ == k;
                            lemma_setting_lookup_at(old_settings, j);
                            lemma_setting_lookup_at(new_settings, j);
                        } else {
                            assert(!has_setting(new_settings, k)) by {
                                if has_setting(new_settings, k) {
                                    let j = choose|j: int|
                                        0 <= j < new_settings.len() && #[trigger] new_settings[j].key@
                                            == k;
                                    assert(j < old_settings.len());
                                    assert(old_settings[j].key@ == k);
                                }
                            }
                        }
                    }
                }
            },
        }
    }

    /// The Jira settings: each the stored value, or empty when none is stored.
    pub fn load_jira_settings(&self) -> (r: JiraSettings)
        requires
            self.wf(),
        ensures
            r.base_url@ == setting_or_empty(self@.settings@, "jira_base_url"@),
            r.email@ == setting_or_empty(self@.settings@, "jira_email"@),
            r.jql@ == setting_or_empty(self@.settings@, "jira_jql"@),
    {
        let base_url = self.get_setting_value("jira_base_url");
        let email = self.get_setting_value("jira_email");
        let jql = self.get_setting_value("jira_jql");
        JiraSettings {
            base_url: unwrap_or_empty(base_url),
            email: unwrap_or_empty(email),
            jql: unwrap_or_empty(jql),
        }
    }

    /// Stores the Jira settings normalized: base URL, e-mail, and the JQL to use.
    pub fn save_jira_settings(&mut self, settings: &JiraSettings)
        requires
            old(self).wf(),
        ensures
            final(self).wf(),
            jira_settings_saved(old(self)@, final(self)@, *settings),
    {
        proof {
            reveal_strlit("jira_base_url");
            reveal_strlit("jira_email");
            reveal_strlit("jira_jql");
            assert("jira_base_url"@.len() == 13);
            assert("jira_email"@.len() == 10);
            assert("jira_jql"@.len() == 8);
            assert("jira_base_url"@ != "jira_email"@);
            assert("jira_base_url"@ != "jira_jql"@);
            assert("jira_email"@ != "jira_jql"@);
        }
        let ghost s0 = self@.settings@;
        let base_url = settings.normalized_base_url();
        self.upsert_setting_value("jira_base_url", base_url.as_str());
        let ghost s1 = self@.settings@;
        let email = settings.normalized_email();
        self.upsert_setting_value("jira_email", email.as_str());
        let ghost s2 = self@.settings@;
        let jql = settings.effective_jql();
        self.upsert_setting_value("jira_jql", jql.as_str());
        let ghost s3 = self@.settings@;
        assert(setting_lookup(s3, "jira_base_url"@) == setting_lookup(s2, "jira_base_url"@));
        assert(setting_lookup(s2, "jira_base_url"@) == setting_lookup(s1, "jira_base_url"@));
        assert(setting_lookup(s3, "jira_email"@) == setting_lookup(s2, "jira_email"@));
    }

    /// The stored Jira API token, if any.
    pub fn load_jira_api_token(&self) -> (r: Option<String>)
        requires
            self.wf(),
        ensures
            r matches Some(v) ==> setting_lookup(self@.settings@, "jira_api_token"@) == Some(v@),
            r is None ==> setting_lookup(self@.settings@, "jira_api_token"@) is None,
    {
        self.get_setting_value("jira_api_token")
    }

    /// Stores the API token trimmed; a blank token leaves the store as it was.
    pub fn save_jira_api_token(&mut self, token: &str)
        requires
            old(self).wf(),
        ensures
            final(self).wf(),
            api_token_saved(old(self)@, final(self)@, token@),
    {
        let clean = trim_text(token);
        if clean.unicode_len() == 0 {
            return;
        }
        self.upsert_setting_value("jira_api_token", clean.as_str());
    }
}

fn unwrap_or_empty(o: Option<String>) -> (r: String)
    ensures
        r@ == match o {
            Some(s) => s@,
            None => Seq::<char>::empty(),
        },
{
    match o {
        Some(s) => s,
        None => String::new(),
    }
}

/// Saved settings read back normalized: after the Jira settings are saved,
/// loading them gives the trimmed base URL without trailing slashes, the
/// trimmed e-mail, and the trimmed JQL or the default one.
pub proof fn law_saved_jira_settings_load_normalized(
    before: StorageTables,
    after: StorageTables,
    settings: JiraSettings,
)
    requires
        jira_settings_saved(before, after, settings),
    ensures
        setting_or_empty(after.settings@, "jira_base_url"@) == normal_base_url(settings.base_url@),
        setting_or_empty(after.settings@, "jira_email"@) == trim(settings.email@),
        setting_or_empty(after.settings@, "jira_jql"@) == normal_jql(settings.jql@),
{
}

/// A saved API token reads back trimmed; saving a blank token keeps the token
/// that was stored before.
pub proof fn law_saved_api_token_loads_trimmed(
    before: StorageTables,
    after: StorageTables,
    token: Seq<char>,
)
    requires
        api_token_saved(before, after, token),
    ensures
        trim(token).len() != 0 ==> setting_lookup(after.settings@, "jira_api_token"@) == Some(
            trim(token),
        ),
        trim(token).len() == 0 ==> setting_lookup(after.settings@, "jira_api_token"@)
            == setting_lookup(before.settings@, "jira_api_token"@),
{
}

} // verus!
