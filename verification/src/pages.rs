//! What the management surface shows, as JSON.

use crate::backup::{BackupArtifact, BackupStatus};
use crate::json::{
    distinct_names, json_wf, law_objects_have_their_members, Json, JsonData, JsonNumber, NumberData,
};
use crate::keys::{CreatedRelayAccessKey, RelayAccessKeySummary};
use crate::operations::{
    health_counts, reporting, route_status, shown_status, PublishedModel, RouteSummary,
};
use crate::recovery::{health_name, settings_ok, RecoverySettings, RouteHealth};
use crate::restore::{stage_name, RestoreOutcome, RestoreProgress, RestoreStage, RestoreView};
use crate::routing::HealthOverlay;
use crate::schema::DataOperationsStatus;
use crate::storage::{state_name, StorageCategoryFailure, StorageHealth, StorageState};
use crate::store::ProviderSummary;
use crate::usage::{
    accounting_gaps, law_losing_gaps_are_reported, losing_upto, usage_name, usage_state, UsageGap,
    UsageIntegrity,
};
use vstd::prelude::*;
use vstd::string::*;

verus! {

/// An integer.
pub open spec fn integer_data(n: int) -> JsonData {
    if n >= 0 {
        JsonData::Number(NumberData::Unsigned(n as u64))
    } else {
        JsonData::Number(NumberData::Negative(n as i64))
    }
}

/// An integer, or null where there is none.
pub open spec fn optional_integer(n: Option<i64>) -> JsonData {
    match n {
        Some(v) => integer_data(v as int),
        None => JsonData::Null,
    }
}

/// A text, or null where there is none.
pub open spec fn optional_text(text: Option<String>) -> JsonData {
    match text {
        Some(t) => JsonData::Text(t@),
        None => JsonData::Null,
    }
}

/// An integer.
pub fn integer(n: i64) -> (r: Json)
    ensures
        r@ == integer_data(n as int),
        json_wf(r@),
{
    if n >= 0 {
        Json::Number(JsonNumber::Unsigned(n as u64))
    } else {
        Json::Number(JsonNumber::Negative(n))
    }
}

/// How the names of members differ: by their length, or by a letter.
proof fn lemma_names()
    ensures
        "id"@.len() == 2,
        "ok"@.len() == 2,
        "gaps"@.len() == 4,
        "kind"@.len() == 4,
        "name"@.len() == 4 && "name"@[0] == 'n',
        "page"@.len() == 4,
        "size"@.len() == 4 && "size"@[0] == 's',
        "count"@.len() == 5 && "count"@[0] == 'c',
        "error"@.len() == 5 && "error"@[0] == 'e',
        "label"@.len() == 5,
        "since"@.len() == 5 && "since"@[0] == 's' && "since"@[1] == 'i',
        "stage"@.len() == 5 && "stage"@[3] == 'g',
        "state"@.len() == 5 && "state"@[0] == 's' && "state"@[1] == 't' && "state"@[3] == 't',
        "total"@.len() == 5,
        "usage"@.len() == 5,
        "events"@.len() == 6,
        "health"@.len() == 6,
        "prefix"@.len() == 6 && "prefix"@[0] == 'p',
        "routes"@.len() == 6,
        "secret"@.len() == 6 && "secret"@[0] == 's',
        "stages"@.len() == 6,
        "backups"@.len() == 7 && "backups"@[0] == 'b',
        "catalog"@.len() == 7 && "catalog"@[0] == 'c',
        "payload"@.len() == 7 && "payload"@[0] == 'p',
        "section"@.len() == 7 && "section"@[0] == 's',
        "storage"@.len() == 7 && "storage"@[0] == 's',
        "trigger"@.len() == 7,
        "version"@.len() == 7 && "version"@[0] == 'v',
        "category"@.len() == 8,
        "checking"@.len() == 8,
        "complete"@.len() == 8,
        "protocol"@.len() == 8,
        "recovery"@.len() == 8,
        "severity"@.len() == 8,
        "available"@.len() == 9,
        "candidate"@.len() == 9,
        "last_size"@.len() == 9 && "last_size"@[0] == 'l',
        "migration"@.len() == 9 && "migration"@[0] == 'm',
        "page_size"@.len() == 9,
        "providers"@.len() == 9 && "providers"@[0] == 'p',
        "retention"@.len() == 9 && "retention"@[0] == 'r',
        "categories"@.len() == 10,
        "created_at"@.len() == 10 && "created_at"@[0] == 'c',
        "deprecated"@.len() == 10,
        "event_code"@.len() == 10,
        "last_phase"@.len() == 10 && "last_phase"@[0] == 'l',
        "pre_backup"@.len() == 10 && "pre_backup"@[0] == 'p',
        "revoked_at"@.len() == 10 && "revoked_at"@[0] == 'r',
        "started_at"@.len() == 10,
        "ended_at_ms"@.len() == 11,
        "last_result"@.len() == 11,
        "provider_id"@.len() == 11,
        "unavailable"@.len() == 11,
        "completed_at"@.len() == 12,
        "display_name"@.len() == 12,
        "last_trigger"@.len() == 12,
        "lost_records"@.len() == 12,
        "model_routes"@.len() == 12,
        "cached_models"@.len() == 13,
        "provider_name"@.len() == 13,
        "restored_from"@.len() == 13,
        "started_at_ms"@.len() == 13,
        "api_key_masked"@.len() == 14,
        "correlation_id"@.len() == 14 && "correlation_id"@[0] == 'c',
        "doubling_limit"@.len() == 14,
        "last_backup_at"@.len() == 14 && "last_backup_at"@[0] == 'l',
        "occurred_at_ms"@.len() == 14 && "occurred_at_ms"@[0] == 'o',
        "restore_source"@.len() == 14 && "restore_source"@[1] == 'e',
        "running_schema"@.len() == 14 && "running_schema"@[1] == 'u',
        "schema_version"@.len() == 14 && "schema_version"@[0] == 's',
        "accounting_gaps"@.len() == 15,
        "cost_multiplier"@.len() == 15 && "cost_multiplier"@[0] == 'c',
        "input_price_rmb"@.len() == 15,
        "last_checked_at"@.len() == 15 && "last_checked_at"@[0] == 'l',
        "migration_state"@.len() == 15,
        "model_route_ids"@.len() == 15,
        "base_interval_ms"@.len() == 16,
        "candidate_schema"@.len() == 16,
        "failure_category"@.len() == 16 && "failure_category"@[0] == 'f',
        "last_http_status"@.len() == 16 && "last_http_status"@[0] == 'l',
        "next_probe_at_ms"@.len() == 16 && "next_probe_at_ms"@[0] == 'n',
        "output_price_rmb"@.len() == 16,
        "supported_schema"@.len() == 16,
        "last_completed_at"@.len() == 17 && "last_completed_at"@[5] == 'c',
        "last_failed_stage"@.len() == 17 && "last_failed_stage"@[5] == 'f',
        "state_age_seconds"@.len() == 17,
        "failed_probe_count"@.len() == 18 && "failed_probe_count"@[0] == 'f',
        "last_failed_reason"@.len() == 18,
        "pre_restore_backup"@.len() == 18,
        "published_model_id"@.len() == 18 && "published_model_id"@[0] == 'p',
        "current_interval_ms"@.len() == 19 && "current_interval_ms"@[0] == 'c',
        "next_auto_backup_at"@.len() == 19,
        "upstream_model_name"@.len() == 19 && "upstream_model_name"@[0] == 'u',
        "migrated_from_schema"@.len() == 20,
        "nonstream_timeout_ms"@.len() == 20 && "nonstream_timeout_ms"@[0] == 'n',
        "published_model_name"@.len() == 20,
        "quarantine_threshold"@.len() == 20 && "quarantine_threshold"@[0] == 'q',
        "catalog_fetched_at_ms"@.len() == 21,
        "freshness_interval_ms"@.len() == 21,
        "cached_input_price_rmb"@.len() == 22,
        "first_event_timeout_ms"@.len() == 22 && "first_event_timeout_ms"@[0] == 'f',
        "stream_idle_timeout_ms"@.len() == 22 && "stream_idle_timeout_ms"@[0] == 's',
        "routes_reset_to_checking"@.len() == 24,
        "upstream_sync_interval_ms"@.len() == 25,
{
    reveal_strlit("id");
    reveal_strlit("ok");
    reveal_strlit("gaps");
    reveal_strlit("kind");
    reveal_strlit("name");
    reveal_strlit("page");
    reveal_strlit("size");
    reveal_strlit("count");
    reveal_strlit("error");
    reveal_strlit("label");
    reveal_strlit("since");
    reveal_strlit("stage");
    reveal_strlit("state");
    reveal_strlit("total");
    reveal_strlit("usage");
    reveal_strlit("events");
    reveal_strlit("health");
    reveal_strlit("prefix");
    reveal_strlit("routes");
    reveal_strlit("secret");
    reveal_strlit("stages");
    reveal_strlit("backups");
    reveal_strlit("catalog");
    reveal_strlit("payload");
    reveal_strlit("section");
    reveal_strlit("storage");
    reveal_strlit("trigger");
    reveal_strlit("version");
    reveal_strlit("category");
    reveal_strlit("checking");
    reveal_strlit("complete");
    reveal_strlit("protocol");
    reveal_strlit("recovery");
    reveal_strlit("severity");
    reveal_strlit("available");
    reveal_strlit("candidate");
    reveal_strlit("last_size");
    reveal_strlit("migration");
    reveal_strlit("page_size");
    reveal_strlit("providers");
    reveal_strlit("retention");
    reveal_strlit("categories");
    reveal_strlit("created_at");
    reveal_strlit("deprecated");
    reveal_strlit("event_code");
    reveal_strlit("last_phase");
    reveal_strlit("pre_backup");
    reveal_strlit("revoked_at");
    reveal_strlit("started_at");
    reveal_strlit("ended_at_ms");
    reveal_strlit("last_result");
    reveal_strlit("provider_id");
    reveal_strlit("unavailable");
    reveal_strlit("completed_at");
    reveal_strlit("display_name");
    reveal_strlit("last_trigger");
    reveal_strlit("lost_records");
    reveal_strlit("model_routes");
    reveal_strlit("cached_models");
    reveal_strlit("provider_name");
    reveal_strlit("restored_from");
    reveal_strlit("started_at_ms");
    reveal_strlit("api_key_masked");
    reveal_strlit("correlation_id");
    reveal_strlit("doubling_limit");
    reveal_strlit("last_backup_at");
    reveal_strlit("occurred_at_ms");
    reveal_strlit("restore_source");
    reveal_strlit("running_schema");
    reveal_strlit("schema_version");
    reveal_strlit("accounting_gaps");
    reveal_strlit("cost_multiplier");
    reveal_strlit("input_price_rmb");
    reveal_strlit("last_checked_at");
    reveal_strlit("migration_state");
    reveal_strlit("model_route_ids");
    reveal_strlit("base_interval_ms");
    reveal_strlit("candidate_schema");
    reveal_strlit("failure_category");
    reveal_strlit("last_http_status");
    reveal_strlit("next_probe_at_ms");
    reveal_strlit("output_price_rmb");
    reveal_strlit("supported_schema");
    reveal_strlit("last_completed_at");
    reveal_strlit("last_failed_stage");
    reveal_strlit("state_age_seconds");
    reveal_strlit("failed_probe_count");
    reveal_strlit("last_failed_reason");
    reveal_strlit("pre_restore_backup");
    reveal_strlit("published_model_id");
    reveal_strlit("current_interval_ms");
    reveal_strlit("next_auto_backup_at");
    reveal_strlit("upstream_model_name");
    reveal_strlit("migrated_from_schema");
    reveal_strlit("nonstream_timeout_ms");
    reveal_strlit("published_model_name");
    reveal_strlit("quarantine_threshold");
    reveal_strlit("catalog_fetched_at_ms");
    reveal_strlit("freshness_interval_ms");
    reveal_strlit("cached_input_price_rmb");
    reveal_strlit("first_event_timeout_ms");
    reveal_strlit("stream_idle_timeout_ms");
    reveal_strlit("routes_reset_to_checking");
    reveal_strlit("upstream_sync_interval_ms");
}

/// Members with different names, each in good form, make an object in good form.
proof fn lemma_page_form(members: Seq<(Seq<char>, JsonData)>)
    requires
        distinct_names(members),
        forall|k: int| 0 <= k < members.len() ==> json_wf((#[trigger] members[k]).1),
    ensures
        json_wf(JsonData::Object(members)),
{
}

/// Items in good form make a list in good form.
proof fn lemma_list_form(items: Seq<JsonData>)
    requires
        forall|k: int| 0 <= k < items.len() ==> json_wf(#[trigger] items[k]),
    ensures
        json_wf(JsonData::Array(items)),
{
}

/// What is shown of a value.
pub trait Shown: Sized {
    /// What is shown.
    spec fn shown(&self) -> JsonData;

    /// Shows the value.
    fn show(&self) -> (r: Json)
        ensures
            r@ == self.shown(),
            json_wf(r@),
    ;
}

/// A list of what is shown of each value.
pub open spec fn listed_data<T: Shown>(items: Seq<T>) -> JsonData {
    JsonData::Array(items.map_values(|item: T| item.shown()))
}

/// Shows each value of a list.
pub fn listed<T: Shown>(items: &Vec<T>) -> (r: Json)
    ensures
        r@ == listed_data(items@),
        json_wf(r@),
{
    let mut shown: Vec<Json> = Vec::new();
    for i in 0..items.len()
        invariant
            shown@.len() == i,
            forall|k: int|
                0 <= k < i ==> (#[trigger] shown@[k])@ == items@[k].shown() && json_wf(shown@[k]@),
    {
        shown.push(items[i].show());
    }
    let r = Json::Array(shown);
    proof {
        lemma_list_form(r@->Array_0);
        assert(r@->Array_0 =~= listed_data(items@)->Array_0);
    }
    r
}

/// An object that is put together member by member.
pub struct Page {
    members: Vec<(String, Json)>,
}

impl View for Page {
    type V = Seq<(Seq<char>, JsonData)>;

    closed spec fn view(&self) -> Seq<(Seq<char>, JsonData)> {
        Seq::new(self.members@.len(), |i: int| (self.members@[i].0@, self.members@[i].1@))
    }
}

impl Page {
    /// No members yet.
    pub fn new() -> (r: Self)
        ensures
            r@ == Seq::<(Seq<char>, JsonData)>::empty(),
    {
        let r = Page { members: Vec::new() };
        proof {
            assert(r@ =~= Seq::<(Seq<char>, JsonData)>::empty());
        }
        r
    }

    /// One member more.
    pub fn value(&mut self, name: &str, value: Json)
        ensures
            final(self)@ == old(self)@.push((name@, value@)),
    {
        let ghost before = self@;
        self.members.push((name.to_owned(), value));
        proof {
            assert(self@ =~= before.push((name@, value@)));
        }
    }

    /// A member that is a text.
    pub fn text(&mut self, name: &str, text: &str)
        ensures
            final(self)@ == old(self)@.push((name@, JsonData::Text(text@))),
    {
        self.value(name, Json::Text(text.to_owned()));
    }

    /// A member that is a text or null.
    pub fn text_if(&mut self, name: &str, text: &Option<String>)
        ensures
            final(self)@ == old(self)@.push((name@, optional_text(*text))),
    {
        match text {
            Some(t) => {
                self.value(name, Json::Text(t.clone()));
            },
            None => {
                self.value(name, Json::Null);
            },
        }
    }

    /// A member that is an integer.
    pub fn integer(&mut self, name: &str, n: i64)
        ensures
            final(self)@ == old(self)@.push((name@, integer_data(n as int))),
    {
        self.value(name, self::integer(n));
    }

    /// A member that is an integer or null.
    pub fn integer_if(&mut self, name: &str, n: Option<i64>)
        ensures
            final(self)@ == old(self)@.push((name@, optional_integer(n))),
    {
        match n {
            Some(v) => {
                self.value(name, self::integer(v));
            },
            None => {
                self.value(name, Json::Null);
            },
        }
    }

    /// A member that counts.
    pub fn count(&mut self, name: &str, n: usize)
        ensures
            final(self)@ == old(self)@.push((name@, integer_data(n as int))),
    {
        self.value(name, Json::Number(JsonNumber::Unsigned(n as u64)));
    }

    /// A member that is true or false.
    pub fn flag(&mut self, name: &str, b: bool)
        ensures
            final(self)@ == old(self)@.push((name@, JsonData::Bool(b))),
    {
        self.value(name, Json::Bool(b));
    }

    /// The object.
    pub fn json(self) -> (r: Json)
        ensures
            r@ == JsonData::Object(self@),
    {
        let ghost before = self@;
        let r = Json::Object(self.members);
        proof {
            assert(r@->Object_0 =~= before);
        }
        r
    }
}

impl Shown for RecoverySettings {
    /// The settings of the recovery.
    open spec fn shown(&self) -> JsonData {
        JsonData::Object(
            seq![
                ("base_interval_ms"@, integer_data(self.base_interval_ms as int)),
                ("doubling_limit"@, integer_data(self.doubling_limit as int)),
                ("first_event_timeout_ms"@, integer_data(self.first_event_timeout_ms as int)),
                ("stream_idle_timeout_ms"@, integer_data(self.stream_idle_timeout_ms as int)),
                ("nonstream_timeout_ms"@, integer_data(self.nonstream_timeout_ms as int)),
                ("freshness_interval_ms"@, integer_data(self.freshness_interval_ms as int)),
                ("quarantine_threshold"@, integer_data(self.quarantine_threshold as int)),
                ("upstream_sync_interval_ms"@, integer_data(self.upstream_sync_interval_ms as int)),
            ],
        )
    }

    fn show(&self) -> (r: Json) {
        let mut page = Page::new();
        page.integer("base_interval_ms", self.base_interval_ms);
        page.integer("doubling_limit", self.doubling_limit);
        page.integer("first_event_timeout_ms", self.first_event_timeout_ms);
        page.integer("stream_idle_timeout_ms", self.stream_idle_timeout_ms);
        page.integer("nonstream_timeout_ms", self.nonstream_timeout_ms);
        page.integer("freshness_interval_ms", self.freshness_interval_ms);
        page.integer("quarantine_threshold", self.quarantine_threshold);
        page.integer("upstream_sync_interval_ms", self.upstream_sync_interval_ms);
        proof {
            assert(page@ =~= self.shown()->Object_0);
            lemma_names();
            lemma_page_form(page@);
        }
        page.json()
    }
}

impl Shown for BackupStatus {
    /// The managed backups as a whole.
    open spec fn shown(&self) -> JsonData {
        JsonData::Object(
            seq![
                ("state"@, JsonData::Text(self.state@)),
                ("last_backup_at"@, optional_integer(self.last_backup_at)),
                ("last_trigger"@, optional_text(self.last_trigger)),
                ("schema_version"@, optional_integer(self.schema_version)),
                ("last_size"@, optional_integer(self.last_size)),
                ("next_auto_backup_at"@, optional_integer(self.next_auto_backup_at)),
                ("count"@, integer_data(self.count as int)),
                ("retention"@, integer_data(self.retention as int)),
                ("last_failed_stage"@, optional_text(self.last_failed_stage)),
                ("last_failed_reason"@, optional_text(self.last_failed_reason)),
            ],
        )
    }

    fn show(&self) -> (r: Json) {
        let mut page = Page::new();
        page.text("state", self.state.as_str());
        page.integer_if("last_backup_at", self.last_backup_at);
        page.text_if("last_trigger", &self.last_trigger);
        page.integer_if("schema_version", self.schema_version);
        page.integer_if("last_size", self.last_size);
        page.integer_if("next_auto_backup_at", self.next_auto_backup_at);
        page.count("count", self.count);
        page.count("retention", self.retention);
        page.text_if("last_failed_stage", &self.last_failed_stage);
        page.text_if("last_failed_reason", &self.last_failed_reason);
        proof {
            assert(page@ =~= self.shown()->Object_0);
            lemma_names();
            lemma_page_form(page@);
        }
        page.json()
    }
}

impl Shown for BackupArtifact {
    /// A backup in the list of backups.
    open spec fn shown(&self) -> JsonData {
        JsonData::Object(
            seq![
                ("name"@, JsonData::Text(self.name@)),
                ("created_at"@, integer_data(self.created_at as int)),
                ("trigger"@, JsonData::Text(self.trigger@)),
                ("schema_version"@, integer_data(self.schema_version as int)),
                ("size"@, integer_data(self.size as int)),
            ],
        )
    }

    fn show(&self) -> (r: Json) {
        let mut page = Page::new();
        page.text("name", self.name.as_str());
        page.integer("created_at", self.created_at);
        page.text("trigger", self.trigger.as_str());
        page.integer("schema_version", self.schema_version);
        page.integer("size", self.size);
        proof {
            assert(page@ =~= self.shown()->Object_0);
            lemma_names();
            lemma_page_form(page@);
        }
        page.json()
    }
}

/// A backup that was just made.
pub open spec fn made_backup_data(artifact: BackupArtifact) -> JsonData {
    JsonData::Object(
        seq![
            ("created_at"@, integer_data(artifact.created_at as int)),
            ("trigger"@, JsonData::Text(artifact.trigger@)),
            ("schema_version"@, integer_data(artifact.schema_version as int)),
            ("size"@, integer_data(artifact.size as int)),
        ],
    )
}

/// A backup that was just made.
pub fn made_backup(artifact: &BackupArtifact) -> (r: Json)
    ensures
        r@ == made_backup_data(*artifact),
        json_wf(r@),
{
    let mut page = Page::new();
    page.integer("created_at", artifact.created_at);
    page.text("trigger", artifact.trigger.as_str());
    page.integer("schema_version", artifact.schema_version);
    page.integer("size", artifact.size);
    proof {
        assert(page@ =~= made_backup_data(*artifact)->Object_0);
        lemma_names();
        lemma_page_form(page@);
    }
    page.json()
}

/// The backup before a migration, or null where there was none.
pub open spec fn pre_backup_data(status: DataOperationsStatus) -> JsonData {
    match status.pre_backup_name {
        Some(name) => JsonData::Object(
            seq![
                (
                    "ok"@,
                    match status.pre_backup_ok {
                        Some(ok) => JsonData::Bool(ok),
                        None => JsonData::Null,
                    },
                ),
                ("name"@, JsonData::Text(name@)),
                ("schema_version"@, optional_integer(status.migrated_from_schema)),
            ],
        ),
        None => JsonData::Null,
    }
}

/// The backup before a migration.
fn pre_backup(status: &DataOperationsStatus) -> (r: Json)
    ensures
        r@ == pre_backup_data(*status),
        json_wf(r@),
{
    match &status.pre_backup_name {
        Some(name) => {
            let mut page = Page::new();
            match status.pre_backup_ok {
                Some(ok) => {
                    page.flag("ok", ok);
                },
                None => {
                    page.value("ok", Json::Null);
                },
            }
            page.text("name", name.as_str());
            page.integer_if("schema_version", status.migrated_from_schema);
            proof {
                assert(page@ =~= pre_backup_data(*status)->Object_0);
                lemma_names();
                lemma_page_form(page@);
            }
            page.json()
        },
        None => Json::Null,
    }
}

impl Shown for DataOperationsStatus {
    /// The last migration or restore.
    open spec fn shown(&self) -> JsonData {
        JsonData::Object(
            seq![
                ("running_schema"@, integer_data(self.running_schema as int)),
                ("supported_schema"@, integer_data(self.supported_schema as int)),
                ("migration_state"@, JsonData::Text(self.migration_state@)),
                ("migrated_from_schema"@, optional_integer(self.migrated_from_schema)),
                ("pre_backup"@, pre_backup_data(*self)),
                ("last_phase"@, JsonData::Text(self.last_phase@)),
                ("last_result"@, JsonData::Text(self.last_result@)),
                ("last_completed_at"@, optional_integer(self.last_completed_at)),
                ("last_failed_stage"@, optional_text(self.last_failed_stage)),
                ("last_failed_reason"@, optional_text(self.last_failed_reason)),
                ("restore_source"@, optional_text(self.restore_source)),
            ],
        )
    }

    fn show(&self) -> (r: Json) {
        let mut page = Page::new();
        page.integer("running_schema", self.running_schema);
        page.integer("supported_schema", self.supported_schema);
        page.text("migration_state", self.migration_state.as_str());
        page.integer_if("migrated_from_schema", self.migrated_from_schema);
        page.value("pre_backup", pre_backup(self));
        page.text("last_phase", self.last_phase.as_str());
        page.text("last_result", self.last_result.as_str());
        page.integer_if("last_completed_at", self.last_completed_at);
        page.text_if("last_failed_stage", &self.last_failed_stage);
        page.text_if("last_failed_reason", &self.last_failed_reason);
        page.text_if("restore_source", &self.restore_source);
        proof {
            assert(page@ =~= self.shown()->Object_0);
            lemma_names();
            lemma_page_form(page@);
        }
        page.json()
    }
}

impl Shown for UsageGap {
    /// A gap in the usage.
    open spec fn shown(&self) -> JsonData {
        JsonData::Object(
            seq![
                ("kind"@, JsonData::Text(self.kind@)),
                ("category"@, JsonData::Text(self.category@)),
                ("started_at_ms"@, integer_data(self.started_at_ms as int)),
                ("ended_at_ms"@, optional_integer(self.ended_at_ms)),
                ("lost_records"@, integer_data(self.lost_records as int)),
            ],
        )
    }

    fn show(&self) -> (r: Json) {
        let mut page = Page::new();
        page.text("kind", self.kind);
        page.text("category", self.category.as_str());
        page.integer("started_at_ms", self.started_at_ms);
        page.integer_if("ended_at_ms", self.ended_at_ms);
        page.integer("lost_records", self.lost_records);
        proof {
            assert(page@ =~= self.shown()->Object_0);
            lemma_names();
            lemma_page_form(page@);
        }
        page.json()
    }
}

/// A gap that is still losing records.
pub open spec fn accounting_gap_data(gap: UsageGap) -> JsonData {
    JsonData::Object(
        seq![
            ("category"@, JsonData::Text(gap.category@)),
            ("started_at_ms"@, integer_data(gap.started_at_ms as int)),
            ("ended_at_ms"@, optional_integer(gap.ended_at_ms)),
            ("lost_records"@, integer_data(gap.lost_records as int)),
        ],
    )
}

/// The gaps that are still losing records.
pub open spec fn accounting_gaps_data(gaps: Seq<UsageGap>) -> JsonData {
    JsonData::Array(
        losing_upto(gaps, gaps.len() as int).map_values(
            |place: usize| accounting_gap_data(gaps[place as int]),
        ),
    )
}

/// The gaps that are still losing records.
fn open_gaps(gaps: &Vec<UsageGap>) -> (r: Json)
    ensures
        r@ == accounting_gaps_data(gaps@),
        json_wf(r@),
{
    let places = accounting_gaps(gaps);
    let total: usize = gaps.len();
    let mut shown: Vec<Json> = Vec::new();
    for i in 0..places.len()
        invariant
            gaps@.len() == total,
            places@ == losing_upto(gaps@, gaps@.len() as int),
            shown@.len() == i,
            forall|k: int|
                0 <= k < i ==> (#[trigger] shown@[k])@ == accounting_gap_data(
                    gaps@[places@[k] as int],
                ) && json_wf(shown@[k]@),
    {
        proof {
            lemma_losing_places(gaps@, gaps@.len() as int, i as int);
        }
        let gap = &gaps[places[i]];
        let mut page = Page::new();
        page.text("category", gap.category.as_str());
        page.integer("started_at_ms", gap.started_at_ms);
        page.integer_if("ended_at_ms", gap.ended_at_ms);
        page.integer("lost_records", gap.lost_records);
        proof {
            assert(page@ =~= accounting_gap_data(*gap)->Object_0);
            lemma_names();
            lemma_page_form(page@);
        }
        shown.push(page.json());
    }
    let r = Json::Array(shown);
    proof {
        lemma_list_form(r@->Array_0);
        assert(r@->Array_0 =~= accounting_gaps_data(gaps@)->Array_0);
    }
    r
}

/// The places of the gaps that are still losing records are places of gaps.
proof fn lemma_losing_places(gaps: Seq<UsageGap>, n: int, i: int)
    requires
        0 <= n <= gaps.len() <= usize::MAX,
        0 <= i < losing_upto(gaps, n).len(),
    ensures
        losing_upto(gaps, n)[i] < n,
    decreases n,
{
    if n > 0 {
        if i < losing_upto(gaps, n - 1).len() {
            lemma_losing_places(gaps, n - 1, i);
        }
    }
}

/// How many records were lost, or null where that is not known.
pub open spec fn lost_data(lost: Option<u64>) -> JsonData {
    match lost {
        Some(n) => integer_data(n as int),
        None => JsonData::Null,
    }
}

/// How many records were lost.
fn lost_count(lost: Option<u64>) -> (r: Json)
    ensures
        r@ == lost_data(lost),
        json_wf(r@),
{
    match lost {
        Some(n) => Json::Number(JsonNumber::Unsigned(n)),
        None => Json::Null,
    }
}

impl Shown for StorageCategoryFailure {
    /// A kind of records that cannot be written.
    open spec fn shown(&self) -> JsonData {
        JsonData::Object(
            seq![
                ("category"@, JsonData::Text(self.category@)),
                ("since"@, integer_data(self.since as int)),
                ("error"@, JsonData::Text(self.error@)),
                ("lost_records"@, lost_data(self.lost_records)),
            ],
        )
    }

    fn show(&self) -> (r: Json) {
        let mut page = Page::new();
        page.text("category", self.category.as_str());
        page.integer("since", self.since);
        page.text("error", self.error.as_str());
        page.value("lost_records", lost_count(self.lost_records));
        proof {
            assert(page@ =~= self.shown()->Object_0);
            lemma_names();
            lemma_page_form(page@);
        }
        page.json()
    }
}

/// The storage, with the gaps that are still losing records.
pub open spec fn storage_data(health: StorageHealth, gaps: Seq<UsageGap>) -> JsonData {
    JsonData::Object(
        seq![
            ("state"@, JsonData::Text(state_name(health.state))),
            ("since"@, integer_data(health.since as int)),
            ("categories"@, listed_data(health.categories@)),
            ("accounting_gaps"@, accounting_gaps_data(gaps)),
        ],
    )
}

/// The storage, with the gaps that are still losing records.
pub fn storage_page(health: &StorageHealth, integrity: &UsageIntegrity) -> (r: Json)
    ensures
        r@ == storage_data(*health, integrity.gaps@),
        json_wf(r@),
{
    let mut page = Page::new();
    page.text("state", health.state.as_str());
    page.integer("since", health.since);
    page.value("categories", listed(&health.categories));
    page.value("accounting_gaps", open_gaps(&integrity.gaps));
    proof {
        assert(page@ =~= storage_data(*health, integrity.gaps@)->Object_0);
        lemma_names();
        lemma_page_form(page@);
    }
    page.json()
}

/// The storage where its status cannot be had.
pub open spec fn unknown_storage_data(now: i64) -> JsonData {
    JsonData::Object(
        seq![
            ("state"@, JsonData::Text(state_name(StorageState::NotReady))),
            ("since"@, integer_data(now as int)),
            ("categories"@, JsonData::Array(Seq::empty())),
            ("accounting_gaps"@, JsonData::Array(Seq::empty())),
        ],
    )
}

/// The storage where its status cannot be had.
pub fn unknown_storage_page(now: i64) -> (r: Json)
    ensures
        r@ == unknown_storage_data(now),
        json_wf(r@),
{
    let mut page = Page::new();
    page.text("state", StorageState::NotReady.as_str());
    page.integer("since", now);
    page.value("categories", nothing());
    page.value("accounting_gaps", nothing());
    proof {
        assert(page@ =~= unknown_storage_data(now)->Object_0);
        lemma_names();
        lemma_page_form(page@);
    }
    page.json()
}

/// An empty list.
fn nothing() -> (r: Json)
    ensures
        r@ == JsonData::Array(Seq::empty()),
        json_wf(r@),
{
    let r = Json::Array(Vec::new());
    proof {
        assert(r@->Array_0 =~= Seq::<JsonData>::empty());
    }
    r
}

impl Shown for PublishedModel {
    /// A published model.
    open spec fn shown(&self) -> JsonData {
        JsonData::Object(
            seq![
                ("id"@, JsonData::Text(self.id@)),
                ("name"@, JsonData::Text(self.name@)),
                ("input_price_rmb"@, JsonData::Text(self.input_price_rmb@)),
                ("output_price_rmb"@, JsonData::Text(self.output_price_rmb@)),
                ("cached_input_price_rmb"@, JsonData::Text(self.cached_input_price_rmb@)),
                ("deprecated"@, JsonData::Bool(self.deprecated)),
            ],
        )
    }

    fn show(&self) -> (r: Json) {
        let mut page = Page::new();
        page.text("id", self.id.as_str());
        page.text("name", self.name.as_str());
        page.text("input_price_rmb", self.input_price_rmb.as_str());
        page.text("output_price_rmb", self.output_price_rmb.as_str());
        page.text("cached_input_price_rmb", self.cached_input_price_rmb.as_str());
        page.flag("deprecated", self.deprecated);
        proof {
            assert(page@ =~= self.shown()->Object_0);
            lemma_names();
            lemma_page_form(page@);
        }
        page.json()
    }
}

impl Shown for String {
    open spec fn shown(&self) -> JsonData {
        JsonData::Text(self@)
    }

    fn show(&self) -> (r: Json) {
        Json::Text(self.clone())
    }
}

/// A provider with the catalog that was last fetched from it.
#[derive(Debug)]
pub struct ProviderListing {
    pub summary: ProviderSummary,
    pub models: Vec<String>,
    pub fetched_at_ms: Option<i64>,
}

impl Shown for ProviderListing {
    /// A provider with its catalog.
    open spec fn shown(&self) -> JsonData {
        JsonData::Object(
            seq![
                ("id"@, JsonData::Text(self.summary.id@)),
                ("display_name"@, JsonData::Text(self.summary.display_name@)),
                ("api_key_masked"@, JsonData::Text(self.summary.api_key_masked@)),
                ("cached_models"@, listed_data(self.models@)),
                ("catalog_fetched_at_ms"@, optional_integer(self.fetched_at_ms)),
            ],
        )
    }

    fn show(&self) -> (r: Json) {
        let mut page = Page::new();
        page.text("id", self.summary.id.as_str());
        page.text("display_name", self.summary.display_name.as_str());
        page.text("api_key_masked", self.summary.api_key_masked);
        page.value("cached_models", listed(&self.models));
        page.integer_if("catalog_fetched_at_ms", self.fetched_at_ms);
        proof {
            assert(page@ =~= self.shown()->Object_0);
            lemma_names();
            lemma_page_form(page@);
        }
        page.json()
    }
}

/// A route as it is listed at a time.
pub open spec fn route_data(overlay: HealthOverlay, settings: RecoverySettings, now: int, route: RouteSummary) -> JsonData {
    JsonData::Object(
        seq![
            ("id"@, JsonData::Text(route.id@)),
            ("published_model_id"@, JsonData::Text(route.published_model_id@)),
            ("published_model_name"@, JsonData::Text(route.published_model_name@)),
            ("provider_id"@, JsonData::Text(route.provider_id@)),
            ("provider_name"@, JsonData::Text(route.provider_name@)),
            ("upstream_model_name"@, JsonData::Text(route.upstream_model_name@)),
            ("protocol"@, JsonData::Text(route.protocol@)),
            ("cost_multiplier"@, JsonData::Text(route.cost_multiplier@)),
            (
                "health"@,
                JsonData::Text(health_name(shown_status(overlay, settings, now, route).health)),
            ),
            ("last_checked_at"@, optional_integer(route.last_checked_at)),
            (
                "failure_category"@,
                optional_text(shown_status(overlay, settings, now, route).failure_category),
            ),
            ("last_http_status"@, optional_integer(route.last_http_status)),
            (
                "state_age_seconds"@,
                optional_integer(shown_status(overlay, settings, now, route).state_age_seconds),
            ),
            ("failed_probe_count"@, integer_data(route.failed_probe_count as int)),
            ("next_probe_at_ms"@, optional_integer(route.next_probe_at_ms)),
            (
                "current_interval_ms"@,
                optional_integer(shown_status(overlay, settings, now, route).current_interval_ms),
            ),
        ],
    )
}

/// A route as it is listed at a time.
#[verifier::rlimit(60)]
pub fn route_page(overlay: &HealthOverlay, settings: &RecoverySettings, now: i64, route: &RouteSummary) -> (r: Json)
    requires
        settings_ok(*settings),
    ensures
        r@ == route_data(*overlay, *settings, now as int, *route),
        json_wf(r@),
{
    let status = route_status(overlay, settings, now, route);
    let mut page = Page::new();
    page.text("id", route.id.as_str());
    page.text("published_model_id", route.published_model_id.as_str());
    page.text("published_model_name", route.published_model_name.as_str());
    page.text("provider_id", route.provider_id.as_str());
    page.text("provider_name", route.provider_name.as_str());
    page.text("upstream_model_name", route.upstream_model_name.as_str());
    page.text("protocol", route.protocol.as_str());
    page.text("cost_multiplier", route.cost_multiplier.as_str());
    page.text("health", status.health.as_str());
    page.integer_if("last_checked_at", route.last_checked_at);
    page.text_if("failure_category", &status.failure_category);
    page.integer_if("last_http_status", route.last_http_status);
    page.integer_if("state_age_seconds", status.state_age_seconds);
    page.integer("failed_probe_count", route.failed_probe_count);
    page.integer_if("next_probe_at_ms", route.next_probe_at_ms);
    page.integer_if("current_interval_ms", status.current_interval_ms);
    proof {
        assert(page@ =~= route_data(*overlay, *settings, now as int, *route)->Object_0);
        lemma_names();
        lemma_page_form(page@);
    }
    page.json()
}

/// The routes as they are listed at a time.
pub open spec fn routes_data(
    overlay: HealthOverlay,
    settings: RecoverySettings,
    now: int,
    routes: Seq<RouteSummary>,
) -> JsonData {
    JsonData::Array(
        routes.map_values(|route: RouteSummary| route_data(overlay, settings, now, route)),
    )
}

/// The routes as they are listed at a time.
fn routes_list(
    overlay: &HealthOverlay,
    settings: &RecoverySettings,
    now: i64,
    routes: &Vec<RouteSummary>,
) -> (r: Json)
    requires
        settings_ok(*settings),
    ensures
        r@ == routes_data(*overlay, *settings, now as int, routes@),
        json_wf(r@),
{
    let mut shown: Vec<Json> = Vec::new();
    for i in 0..routes.len()
        invariant
            settings_ok(*settings),
            shown@.len() == i,
            forall|k: int|
                0 <= k < i ==> (#[trigger] shown@[k])@ == route_data(
                    *overlay,
                    *settings,
                    now as int,
                    routes@[k],
                ) && json_wf(shown@[k]@),
    {
        shown.push(route_page(overlay, settings, now, &routes[i]));
    }
    let r = Json::Array(shown);
    proof {
        lemma_list_form(r@->Array_0);
        assert(r@->Array_0 =~= routes_data(
            *overlay,
            *settings,
            now as int,
            routes@,
        )->Array_0);
    }
    r
}

/// How many routes report each health.
pub open spec fn counts_data(overlay: HealthOverlay, routes: Seq<RouteSummary>) -> JsonData {
    JsonData::Object(
        seq![
            (
                "available"@,
                integer_data(reporting(overlay, routes, RouteHealth::Available, routes.len() as int) as int),
            ),
            (
                "checking"@,
                integer_data(reporting(overlay, routes, RouteHealth::Checking, routes.len() as int) as int),
            ),
            (
                "unavailable"@,
                integer_data(reporting(overlay, routes, RouteHealth::Unavailable, routes.len() as int) as int),
            ),
        ],
    )
}

/// How many routes report each health.
pub fn counts_page(overlay: &HealthOverlay, routes: &Vec<RouteSummary>) -> (r: Json)
    ensures
        r@ == counts_data(*overlay, routes@),
        json_wf(r@),
{
    let counts = health_counts(overlay, routes);
    let mut page = Page::new();
    page.count("available", counts.available);
    page.count("checking", counts.checking);
    page.count("unavailable", counts.unavailable);
    proof {
        assert(page@ =~= counts_data(*overlay, routes@)->Object_0);
        lemma_names();
        lemma_page_form(page@);
    }
    page.json()
}

/// The usage as a whole.
pub open spec fn usage_data(gaps: Seq<UsageGap>, has_data: bool) -> JsonData {
    JsonData::Object(
        seq![
            ("state"@, JsonData::Text(usage_name(gaps.len() as int, has_data))),
            ("gaps"@, listed_data(gaps)),
        ],
    )
}

/// The usage as a whole.
pub fn usage_page(integrity: &UsageIntegrity, has_data: bool) -> (r: Json)
    ensures
        r@ == usage_data(integrity.gaps@, has_data),
        json_wf(r@),
{
    let mut page = Page::new();
    page.text("state", usage_state(integrity.gaps.len(), has_data));
    page.value("gaps", listed(&integrity.gaps));
    proof {
        assert(page@ =~= usage_data(integrity.gaps@, has_data)->Object_0);
        lemma_names();
        lemma_page_form(page@);
    }
    page.json()
}

/// Whether the usage is complete.
pub open spec fn integrity_data(integrity: UsageIntegrity) -> JsonData {
    JsonData::Object(
        seq![
            ("complete"@, JsonData::Bool(integrity.complete)),
            ("gaps"@, listed_data(integrity.gaps@)),
        ],
    )
}

/// Whether the usage is complete.
pub fn integrity_page(integrity: &UsageIntegrity) -> (r: Json)
    ensures
        r@ == integrity_data(*integrity),
        json_wf(r@),
{
    let mut page = Page::new();
    page.flag("complete", integrity.complete);
    page.value("gaps", listed(&integrity.gaps));
    proof {
        assert(page@ =~= integrity_data(*integrity)->Object_0);
        lemma_names();
        lemma_page_form(page@);
    }
    page.json()
}

/// What the page of the operations is made of.
#[derive(Debug)]
pub struct Operations {
    pub settings: RecoverySettings,
    pub backups: BackupStatus,
    pub migration: DataOperationsStatus,
    pub integrity: UsageIntegrity,
    /// Whether any call or any day is recorded.
    pub has_data: bool,
    pub catalog: Vec<PublishedModel>,
    pub providers: Vec<ProviderListing>,
    pub routes: Vec<RouteSummary>,
}

/// The storage on the page of the operations.
pub open spec fn storage_part(
    storage: Option<StorageHealth>,
    gaps: Seq<UsageGap>,
    now: i64,
) -> JsonData {
    match storage {
        Some(health) => storage_data(health, gaps),
        None => unknown_storage_data(now),
    }
}

/// The page of the operations at a time.
pub open spec fn operations_data(parts: Operations, storage: Option<StorageHealth>, overlay: HealthOverlay, now: i64) -> JsonData {
    JsonData::Object(
        seq![
            ("storage"@, storage_part(storage, parts.integrity.gaps@, now)),
            ("model_routes"@, counts_data(overlay, parts.routes@)),
            ("recovery"@, parts.settings.shown()),
            ("backups"@, parts.backups.shown()),
            ("migration"@, parts.migration.shown()),
            ("usage"@, usage_data(parts.integrity.gaps@, parts.has_data)),
            ("catalog"@, listed_data(parts.catalog@)),
            ("providers"@, listed_data(parts.providers@)),
            ("routes"@, routes_data(overlay, parts.settings, now as int, parts.routes@)),
        ],
    )
}

/// The page of the operations at a time.
pub fn operations_page(parts: &Operations, storage: Option<&StorageHealth>, overlay: &HealthOverlay, now: i64) -> (r: Json)
    requires
        settings_ok(parts.settings),
    ensures
        r@ == operations_data(*parts, held(storage), *overlay, now),
        json_wf(r@),
{
    let storage_shown = match storage {
        Some(health) => storage_page(health, &parts.integrity),
        None => unknown_storage_page(now),
    };
    let mut page = Page::new();
    page.value("storage", storage_shown);
    page.value("model_routes", counts_page(overlay, &parts.routes));
    page.value("recovery", parts.settings.show());
    page.value("backups", parts.backups.show());
    page.value("migration", parts.migration.show());
    page.value("usage", usage_page(&parts.integrity, parts.has_data));
    page.value("catalog", listed(&parts.catalog));
    page.value("providers", listed(&parts.providers));
    page.value("routes", routes_list(overlay, &parts.settings, now, &parts.routes));
    proof {
        assert(page@ =~= operations_data(*parts, held(storage), *overlay, now)->Object_0);
        lemma_names();
        lemma_page_form(page@);
    }
    page.json()
}

/// A status that may be looked at, or none.
pub open spec fn held(storage: Option<&StorageHealth>) -> Option<StorageHealth> {
    match storage {
        Some(health) => Some(*health),
        None => None,
    }
}

/// A restore that succeeded.
pub open spec fn restored_data(outcome: RestoreOutcome) -> JsonData {
    JsonData::Object(
        seq![
            ("restored_from"@, JsonData::Text(outcome.candidate_name@)),
            ("candidate_schema"@, integer_data(outcome.candidate_schema as int)),
            ("schema_version"@, integer_data(outcome.restored_schema as int)),
            ("pre_restore_backup"@, JsonData::Text(outcome.pre_restore_backup_name@)),
            ("completed_at"@, integer_data(outcome.completed_at as int)),
            ("routes_reset_to_checking"@, integer_data(outcome.probe_configurations@.len() as int)),
        ],
    )
}

/// A restore that succeeded.
pub fn restored_page(outcome: &RestoreOutcome) -> (r: Json)
    ensures
        r@ == restored_data(*outcome),
        json_wf(r@),
{
    let mut page = Page::new();
    page.text("restored_from", outcome.candidate_name.as_str());
    page.integer("candidate_schema", outcome.candidate_schema);
    page.integer("schema_version", outcome.restored_schema);
    page.text("pre_restore_backup", outcome.pre_restore_backup_name.as_str());
    page.integer("completed_at", outcome.completed_at);
    page.count("routes_reset_to_checking", outcome.probe_configurations.len());
    proof {
        assert(page@ =~= restored_data(*outcome)->Object_0);
        lemma_names();
        lemma_page_form(page@);
    }
    page.json()
}

impl Shown for RestoreStage {
    open spec fn shown(&self) -> JsonData {
        JsonData::Text(stage_name(*self))
    }

    fn show(&self) -> (r: Json) {
        Json::Text(self.as_str().to_owned())
    }
}

/// The progress of a restore at a time, while it runs and for a while after.
pub open spec fn progress_data(progress: Option<RestoreProgress>, now: i64) -> JsonData {
    let idle = JsonData::Object(seq![("state"@, JsonData::Text("idle"@))]);
    match progress {
        None => idle,
        Some(restore) => match restore.finished_at {
            None => JsonData::Object(
                seq![
                    ("state"@, JsonData::Text("restoring"@)),
                    ("candidate"@, JsonData::Text(restore.candidate@)),
                    ("stage"@, JsonData::Text(stage_name(restore.stage))),
                    ("stages"@, listed_data(restore.stages@)),
                    ("started_at"@, integer_data(restore.started_at as int)),
                ],
            ),
            Some(at) => if now - at <= 10 {
                JsonData::Object(
                    seq![
                        ("state"@, JsonData::Text("recent"@)),
                        ("candidate"@, JsonData::Text(restore.candidate@)),
                        ("stages"@, listed_data(restore.stages@)),
                        ("completed_at"@, integer_data(at as int)),
                    ],
                )
            } else {
                idle
            },
        },
    }
}

/// The progress of a restore at a time.
pub fn progress_page(progress: &Option<RestoreProgress>, now: i64) -> (r: Json)
    ensures
        r@ == progress_data(*progress, now),
        json_wf(r@),
{
    let mut page = Page::new();
    match progress {
        None => {
            page.text("state", "idle");
        },
        Some(restore) => match restore.view_at(now) {
            RestoreView::Restoring => {
                page.text("state", "restoring");
                page.text("candidate", restore.candidate.as_str());
                page.text("stage", restore.stage.as_str());
                page.value("stages", listed(&restore.stages));
                page.integer("started_at", restore.started_at);
            },
            RestoreView::Recent => {
                page.text("state", "recent");
                page.text("candidate", restore.candidate.as_str());
                page.value("stages", listed(&restore.stages));
                page.integer_if("completed_at", restore.finished_at);
            },
            RestoreView::Idle => {
                page.text("state", "idle");
            },
        },
    }
    proof {
        assert(page@ =~= progress_data(*progress, now)->Object_0);
        lemma_names();
        lemma_page_form(page@);
    }
    page.json()
}

impl Shown for CreatedRelayAccessKey {
    /// A key that was just made.
    open spec fn shown(&self) -> JsonData {
        JsonData::Object(
            seq![
                ("id"@, JsonData::Text(self.id@)),
                ("label"@, JsonData::Text(self.label@)),
                ("prefix"@, JsonData::Text(self.secret_prefix@)),
                ("created_at"@, integer_data(self.created_at as int)),
                ("model_route_ids"@, listed_data(self.model_route_ids@)),
                ("secret"@, JsonData::Text(self.secret@)),
            ],
        )
    }

    fn show(&self) -> (r: Json) {
        let mut page = Page::new();
        page.text("id", self.id.as_str());
        page.text("label", self.label.as_str());
        page.text("prefix", self.secret_prefix.as_str());
        page.integer("created_at", self.created_at);
        page.value("model_route_ids", listed(&self.model_route_ids));
        page.text("secret", self.secret.as_str());
        proof {
            assert(page@ =~= self.shown()->Object_0);
            lemma_names();
            lemma_page_form(page@);
        }
        page.json()
    }
}

impl Shown for RelayAccessKeySummary {
    /// A key in the list of keys.
    open spec fn shown(&self) -> JsonData {
        JsonData::Object(
            seq![
                ("id"@, JsonData::Text(self.id@)),
                ("prefix"@, JsonData::Text(self.secret_prefix@)),
                ("label"@, JsonData::Text(self.label@)),
                ("created_at"@, integer_data(self.created_at as int)),
                ("revoked_at"@, optional_integer(self.revoked_at)),
                ("secret"@, optional_text(self.secret)),
                ("model_route_ids"@, listed_data(self.model_route_ids@)),
            ],
        )
    }

    fn show(&self) -> (r: Json) {
        let mut page = Page::new();
        page.text("id", self.id.as_str());
        page.text("prefix", self.secret_prefix.as_str());
        page.text("label", self.label.as_str());
        page.integer("created_at", self.created_at);
        page.integer_if("revoked_at", self.revoked_at);
        page.text_if("secret", &self.secret);
        page.value("model_route_ids", listed(&self.model_route_ids));
        proof {
            assert(page@ =~= self.shown()->Object_0);
            lemma_names();
            lemma_page_form(page@);
        }
        page.json()
    }
}

impl Shown for ProviderSummary {
    /// A provider that was just made.
    open spec fn shown(&self) -> JsonData {
        JsonData::Object(
            seq![
                ("id"@, JsonData::Text(self.id@)),
                ("display_name"@, JsonData::Text(self.display_name@)),
                ("api_key_masked"@, JsonData::Text(self.api_key_masked@)),
            ],
        )
    }

    fn show(&self) -> (r: Json) {
        let mut page = Page::new();
        page.text("id", self.id.as_str());
        page.text("display_name", self.display_name.as_str());
        page.text("api_key_masked", self.api_key_masked);
        proof {
            assert(page@ =~= self.shown()->Object_0);
            lemma_names();
            lemma_page_form(page@);
        }
        page.json()
    }
}

/// An event of the history.
#[derive(Debug)]
pub struct OperationalEvent {
    pub id: i64,
    pub occurred_at_ms: i64,
    pub section: String,
    pub severity: String,
    pub event_code: String,
    pub version: String,
    pub correlation_id: Option<String>,
    pub payload: Json,
}

/// A page of the history, and how many events there are in all.
#[derive(Debug)]
pub struct OperationalEventPage {
    pub events: Vec<OperationalEvent>,
    pub total: i64,
}

/// An event of the history.
pub open spec fn event_data(event: OperationalEvent) -> JsonData {
    JsonData::Object(
        seq![
            ("id"@, integer_data(event.id as int)),
            ("occurred_at_ms"@, integer_data(event.occurred_at_ms as int)),
            ("section"@, JsonData::Text(event.section@)),
            ("severity"@, JsonData::Text(event.severity@)),
            ("event_code"@, JsonData::Text(event.event_code@)),
            ("version"@, JsonData::Text(event.version@)),
            ("correlation_id"@, optional_text(event.correlation_id)),
            ("payload"@, event.payload@),
        ],
    )
}

/// A page of the history.
pub open spec fn events_data(listing: OperationalEventPage, page: i64, page_size: i64) -> JsonData {
    JsonData::Object(
        seq![
            (
                "events"@,
                JsonData::Array(
                    listing.events@.map_values(|event: OperationalEvent| event_data(event)),
                ),
            ),
            ("page"@, integer_data(page as int)),
            ("page_size"@, integer_data(page_size as int)),
            ("total"@, integer_data(listing.total as int)),
        ],
    )
}

/// An event of the history.
fn event_page(event: OperationalEvent) -> (r: Json)
    ensures
        r@ == event_data(event),
        json_wf(event.payload@) ==> json_wf(r@),
{
    let mut page = Page::new();
    page.integer("id", event.id);
    page.integer("occurred_at_ms", event.occurred_at_ms);
    page.text("section", event.section.as_str());
    page.text("severity", event.severity.as_str());
    page.text("event_code", event.event_code.as_str());
    page.text("version", event.version.as_str());
    page.text_if("correlation_id", &event.correlation_id);
    page.value("payload", event.payload);
    proof {
        assert(page@ =~= event_data(event)->Object_0);
        lemma_names();
        if json_wf(event.payload@) {
            lemma_page_form(page@);
        }
    }
    page.json()
}

/// A page of the history.
pub fn events_page(listing: OperationalEventPage, page: i64, page_size: i64) -> (r: Json)
    ensures
        r@ == events_data(listing, page, page_size),
        (forall|k: int|
            0 <= k < listing.events@.len() ==> json_wf((#[trigger] listing.events@[k]).payload@))
            ==> json_wf(r@),
{
    let ghost events = listing.events@;
    let mut shown: Vec<Json> = Vec::new();
    for event in it: listing.events
        invariant
            it.seq() == events,
            shown@.len() == it.index(),
            forall|k: int|
                0 <= k < shown@.len() ==> (#[trigger] shown@[k])@ == event_data(events[k]) && (
                json_wf(events[k].payload@) ==> json_wf(shown@[k]@)),
    {
        shown.push(event_page(event));
    }
    let ghost shown_data = shown@;
    let list = Json::Array(shown);
    let mut members = Page::new();
    members.value("events", list);
    members.integer("page", page);
    members.integer("page_size", page_size);
    members.integer("total", listing.total);
    proof {
        assert(list@->Array_0 =~= events.map_values(|event: OperationalEvent| event_data(event)));
        assert(members@ =~= events_data(listing, page, page_size)->Object_0);
        lemma_names();
        if forall|k: int| 0 <= k < events.len() ==> json_wf((#[trigger] events[k]).payload@) {
            assert forall|k: int| 0 <= k < list@->Array_0.len() implies json_wf(
                #[trigger] list@->Array_0[k],
            ) by {
                assert(json_wf(events[k].payload@));
                assert(list@->Array_0[k] == shown_data[k]@);
            }
            lemma_list_form(list@->Array_0);
            lemma_page_form(members@);
        }
    }
    members.json()
}

/// An object whose names differ has each of its members under its name.
proof fn lemma_members(members: Seq<(Seq<char>, JsonData)>)
    requires
        distinct_names(members),
    ensures
        forall|i: int|
            0 <= i < members.len() ==> JsonData::Object(members).member(
                (#[trigger] members[i]).0,
            ) == Some(members[i].1),
{
    assert forall|i: int| 0 <= i < members.len() implies JsonData::Object(members).member(
        (#[trigger] members[i]).0,
    ) == Some(members[i].1) by {
        let head = members.take(i);
        let tail = members.skip(i + 1);
        assert forall|k: int| 0 <= k < head.len() implies (#[trigger] head[k]).0
            != members[i].0 by {
            assert(members[k].0 != members[i].0);
        }
        law_objects_have_their_members(
            head,
            members[i].0,
            members[i].1,
            tail,
            JsonData::Null,
        );
        assert(head + seq![members[i]] + tail =~= members);
    }
}

/// An integer is shown as the number that it is, and what is not there as null.
pub proof fn law_integers_are_shown(n: i64, text: String)
    ensures
        n >= 0 ==> integer_data(n as int) == JsonData::Number(NumberData::Unsigned(n as u64)),
        n < 0 ==> integer_data(n as int) == JsonData::Number(NumberData::Negative(n)),
        optional_integer(Some(n)) == integer_data(n as int),
        optional_integer(None) == JsonData::Null,
        optional_text(Some(text)) == JsonData::Text(text@),
        optional_text(None) == JsonData::Null,
{
}

/// A list shows each of its values, in their order.
pub proof fn law_lists_show_each_value<T: Shown>(items: Seq<T>, i: int)
    requires
        0 <= i < items.len(),
    ensures
        listed_data(items) matches JsonData::Array(shown) && shown.len() == items.len()
            && shown[i] == items[i].shown(),
{
}

/// The settings are shown each under its name.
pub proof fn law_settings_are_shown(settings: RecoverySettings)
    ensures
        settings.shown().member("base_interval_ms"@) == Some(integer_data(settings.base_interval_ms as int)),
        settings.shown().member("doubling_limit"@) == Some(integer_data(settings.doubling_limit as int)),
        settings.shown().member("first_event_timeout_ms"@) == Some(integer_data(settings.first_event_timeout_ms as int)),
        settings.shown().member("stream_idle_timeout_ms"@) == Some(integer_data(settings.stream_idle_timeout_ms as int)),
        settings.shown().member("nonstream_timeout_ms"@) == Some(integer_data(settings.nonstream_timeout_ms as int)),
        settings.shown().member("freshness_interval_ms"@) == Some(integer_data(settings.freshness_interval_ms as int)),
        settings.shown().member("quarantine_threshold"@) == Some(integer_data(settings.quarantine_threshold as int)),
        settings.shown().member("upstream_sync_interval_ms"@) == Some(integer_data(settings.upstream_sync_interval_ms as int)),
{
    lemma_names();
    let members = settings.shown()->Object_0;
    assert(members[0].0 == "base_interval_ms"@);
    assert(members[1].0 == "doubling_limit"@);
    assert(members[2].0 == "first_event_timeout_ms"@);
    assert(members[3].0 == "stream_idle_timeout_ms"@);
    assert(members[4].0 == "nonstream_timeout_ms"@);
    assert(members[5].0 == "freshness_interval_ms"@);
    assert(members[6].0 == "quarantine_threshold"@);
    assert(members[7].0 == "upstream_sync_interval_ms"@);
    assert(distinct_names(members));
    lemma_members(members);
}

/// What is known of the backups is shown each under its name.
pub proof fn law_backup_status_is_shown(status: BackupStatus)
    ensures
        status.shown().member("state"@) == Some(JsonData::Text(status.state@)),
        status.shown().member("last_backup_at"@) == Some(optional_integer(status.last_backup_at)),
        status.shown().member("last_trigger"@) == Some(optional_text(status.last_trigger)),
        status.shown().member("schema_version"@) == Some(optional_integer(status.schema_version)),
        status.shown().member("last_size"@) == Some(optional_integer(status.last_size)),
        status.shown().member("next_auto_backup_at"@) == Some(optional_integer(status.next_auto_backup_at)),
        status.shown().member("count"@) == Some(integer_data(status.count as int)),
        status.shown().member("retention"@) == Some(integer_data(status.retention as int)),
        status.shown().member("last_failed_stage"@) == Some(optional_text(status.last_failed_stage)),
        status.shown().member("last_failed_reason"@) == Some(optional_text(status.last_failed_reason)),
{
    lemma_names();
    let members = status.shown()->Object_0;
    assert(members[0].0 == "state"@);
    assert(members[1].0 == "last_backup_at"@);
    assert(members[2].0 == "last_trigger"@);
    assert(members[3].0 == "schema_version"@);
    assert(members[4].0 == "last_size"@);
    assert(members[5].0 == "next_auto_backup_at"@);
    assert(members[6].0 == "count"@);
    assert(members[7].0 == "retention"@);
    assert(members[8].0 == "last_failed_stage"@);
    assert(members[9].0 == "last_failed_reason"@);
    assert(distinct_names(members));
    lemma_members(members);
}

/// A backup is shown with its name, time, trigger, schema and size.
pub proof fn law_backups_are_shown(artifact: BackupArtifact)
    ensures
        artifact.shown().member("name"@) == Some(JsonData::Text(artifact.name@)),
        artifact.shown().member("created_at"@) == Some(integer_data(artifact.created_at as int)),
        artifact.shown().member("trigger"@) == Some(JsonData::Text(artifact.trigger@)),
        artifact.shown().member("schema_version"@) == Some(integer_data(artifact.schema_version as int)),
        artifact.shown().member("size"@) == Some(integer_data(artifact.size as int)),
{
    lemma_names();
    let members = artifact.shown()->Object_0;
    assert(members[0].0 == "name"@);
    assert(members[1].0 == "created_at"@);
    assert(members[2].0 == "trigger"@);
    assert(members[3].0 == "schema_version"@);
    assert(members[4].0 == "size"@);
    assert(distinct_names(members));
    lemma_members(members);
}

/// A backup that was just made is shown with its time, trigger, schema and size.
pub proof fn law_made_backups_are_shown(artifact: BackupArtifact)
    ensures
        made_backup_data(artifact).member("created_at"@) == Some(integer_data(artifact.created_at as int)),
        made_backup_data(artifact).member("trigger"@) == Some(JsonData::Text(artifact.trigger@)),
        made_backup_data(artifact).member("schema_version"@) == Some(integer_data(artifact.schema_version as int)),
        made_backup_data(artifact).member("size"@) == Some(integer_data(artifact.size as int)),
{
    lemma_names();
    let members = made_backup_data(artifact)->Object_0;
    assert(members[0].0 == "created_at"@);
    assert(members[1].0 == "trigger"@);
    assert(members[2].0 == "schema_version"@);
    assert(members[3].0 == "size"@);
    assert(distinct_names(members));
    lemma_members(members);
}

/// What is on record of migrations and restores is shown each under its name.
pub proof fn law_data_operations_are_shown(status: DataOperationsStatus)
    ensures
        status.shown().member("running_schema"@) == Some(integer_data(status.running_schema as int)),
        status.shown().member("supported_schema"@) == Some(integer_data(status.supported_schema as int)),
        status.shown().member("migration_state"@) == Some(JsonData::Text(status.migration_state@)),
        status.shown().member("migrated_from_schema"@) == Some(optional_integer(status.migrated_from_schema)),
        status.shown().member("pre_backup"@) == Some(pre_backup_data(status)),
        status.shown().member("last_phase"@) == Some(JsonData::Text(status.last_phase@)),
        status.shown().member("last_result"@) == Some(JsonData::Text(status.last_result@)),
        status.shown().member("last_completed_at"@) == Some(optional_integer(status.last_completed_at)),
        status.shown().member("last_failed_stage"@) == Some(optional_text(status.last_failed_stage)),
        status.shown().member("last_failed_reason"@) == Some(optional_text(status.last_failed_reason)),
        status.shown().member("restore_source"@) == Some(optional_text(status.restore_source)),
{
    lemma_names();
    let members = status.shown()->Object_0;
    assert(members[0].0 == "running_schema"@);
    assert(members[1].0 == "supported_schema"@);
    assert(members[2].0 == "migration_state"@);
    assert(members[3].0 == "migrated_from_schema"@);
    assert(members[4].0 == "pre_backup"@);
    assert(members[5].0 == "last_phase"@);
    assert(members[6].0 == "last_result"@);
    assert(members[7].0 == "last_completed_at"@);
    assert(members[8].0 == "last_failed_stage"@);
    assert(members[9].0 == "last_failed_reason"@);
    assert(members[10].0 == "restore_source"@);
    assert(distinct_names(members));
    lemma_members(members);
}

/// A gap is shown with its kind, category, beginning, end and loss.
pub proof fn law_gaps_are_shown(gap: UsageGap)
    ensures
        gap.shown().member("kind"@) == Some(JsonData::Text(gap.kind@)),
        gap.shown().member("category"@) == Some(JsonData::Text(gap.category@)),
        gap.shown().member("started_at_ms"@) == Some(integer_data(gap.started_at_ms as int)),
        gap.shown().member("ended_at_ms"@) == Some(optional_integer(gap.ended_at_ms)),
        gap.shown().member("lost_records"@) == Some(integer_data(gap.lost_records as int)),
{
    lemma_names();
    let members = gap.shown()->Object_0;
    assert(members[0].0 == "kind"@);
    assert(members[1].0 == "category"@);
    assert(members[2].0 == "started_at_ms"@);
    assert(members[3].0 == "ended_at_ms"@);
    assert(members[4].0 == "lost_records"@);
    assert(distinct_names(members));
    lemma_members(members);
}

/// A gap in the accounts is shown with its category, beginning, end and loss.
pub proof fn law_accounting_gaps_are_shown(gap: UsageGap)
    ensures
        accounting_gap_data(gap).member("category"@) == Some(JsonData::Text(gap.category@)),
        accounting_gap_data(gap).member("started_at_ms"@) == Some(integer_data(gap.started_at_ms as int)),
        accounting_gap_data(gap).member("ended_at_ms"@) == Some(optional_integer(gap.ended_at_ms)),
        accounting_gap_data(gap).member("lost_records"@) == Some(integer_data(gap.lost_records as int)),
{
    lemma_names();
    let members = accounting_gap_data(gap)->Object_0;
    assert(members[0].0 == "category"@);
    assert(members[1].0 == "started_at_ms"@);
    assert(members[2].0 == "ended_at_ms"@);
    assert(members[3].0 == "lost_records"@);
    assert(distinct_names(members));
    lemma_members(members);
}

/// A kind of records that fails is shown with its name, beginning, error and loss.
pub proof fn law_storage_failures_are_shown(failure: StorageCategoryFailure)
    ensures
        failure.shown().member("category"@) == Some(JsonData::Text(failure.category@)),
        failure.shown().member("since"@) == Some(integer_data(failure.since as int)),
        failure.shown().member("error"@) == Some(JsonData::Text(failure.error@)),
        failure.shown().member("lost_records"@) == Some(lost_data(failure.lost_records)),
{
    lemma_names();
    let members = failure.shown()->Object_0;
    assert(members[0].0 == "category"@);
    assert(members[1].0 == "since"@);
    assert(members[2].0 == "error"@);
    assert(members[3].0 == "lost_records"@);
    assert(distinct_names(members));
    lemma_members(members);
}

/// The storage is shown with its state, what fails and the gaps in the accounts.
pub proof fn law_storage_is_shown(health: StorageHealth, gaps: Seq<UsageGap>)
    ensures
        storage_data(health, gaps).member("state"@) == Some(JsonData::Text(state_name(health.state))),
        storage_data(health, gaps).member("since"@) == Some(integer_data(health.since as int)),
        storage_data(health, gaps).member("categories"@) == Some(listed_data(health.categories@)),
        storage_data(health, gaps).member("accounting_gaps"@) == Some(accounting_gaps_data(gaps)),
{
    lemma_names();
    let members = storage_data(health, gaps)->Object_0;
    assert(members[0].0 == "state"@);
    assert(members[1].0 == "since"@);
    assert(members[2].0 == "categories"@);
    assert(members[3].0 == "accounting_gaps"@);
    assert(distinct_names(members));
    lemma_members(members);
}

/// A storage that cannot be asked is shown as not ready from now on.
pub proof fn law_unknown_storage_is_shown(now: i64)
    ensures
        unknown_storage_data(now).member("state"@) == Some(JsonData::Text(state_name(StorageState::NotReady))),
        unknown_storage_data(now).member("since"@) == Some(integer_data(now as int)),
        unknown_storage_data(now).member("categories"@) == Some(JsonData::Array(Seq::empty())),
        unknown_storage_data(now).member("accounting_gaps"@) == Some(JsonData::Array(Seq::empty())),
{
    lemma_names();
    let members = unknown_storage_data(now)->Object_0;
    assert(members[0].0 == "state"@);
    assert(members[1].0 == "since"@);
    assert(members[2].0 == "categories"@);
    assert(members[3].0 == "accounting_gaps"@);
    assert(distinct_names(members));
    lemma_members(members);
}

/// A model is shown with its prices, and whether it is deprecated.
pub proof fn law_models_are_shown(model: PublishedModel)
    ensures
        model.shown().member("id"@) == Some(JsonData::Text(model.id@)),
        model.shown().member("name"@) == Some(JsonData::Text(model.name@)),
        model.shown().member("input_price_rmb"@) == Some(JsonData::Text(model.input_price_rmb@)),
        model.shown().member("output_price_rmb"@) == Some(JsonData::Text(model.output_price_rmb@)),
        model.shown().member("cached_input_price_rmb"@) == Some(JsonData::Text(model.cached_input_price_rmb@)),
        model.shown().member("deprecated"@) == Some(JsonData::Bool(model.deprecated)),
{
    lemma_names();
    let members = model.shown()->Object_0;
    assert(members[0].0 == "id"@);
    assert(members[1].0 == "name"@);
    assert(members[2].0 == "input_price_rmb"@);
    assert(members[3].0 == "output_price_rmb"@);
    assert(members[4].0 == "cached_input_price_rmb"@);
    assert(members[5].0 == "deprecated"@);
    assert(distinct_names(members));
    lemma_members(members);
}

/// A provider is shown with its masked key and its catalog.
pub proof fn law_providers_are_shown(listing: ProviderListing)
    ensures
        listing.shown().member("id"@) == Some(JsonData::Text(listing.summary.id@)),
        listing.shown().member("display_name"@) == Some(JsonData::Text(listing.summary.display_name@)),
        listing.shown().member("api_key_masked"@) == Some(JsonData::Text(listing.summary.api_key_masked@)),
        listing.shown().member("cached_models"@) == Some(listed_data(listing.models@)),
        listing.shown().member("catalog_fetched_at_ms"@) == Some(optional_integer(listing.fetched_at_ms)),
{
    lemma_names();
    let members = listing.shown()->Object_0;
    assert(members[0].0 == "id"@);
    assert(members[1].0 == "display_name"@);
    assert(members[2].0 == "api_key_masked"@);
    assert(members[3].0 == "cached_models"@);
    assert(members[4].0 == "catalog_fetched_at_ms"@);
    assert(distinct_names(members));
    lemma_members(members);
}

/// A route is shown with what it is, and with the health that it reports now.
pub proof fn law_routes_are_shown(overlay: HealthOverlay, settings: RecoverySettings, now: int, route: RouteSummary)
    ensures
        route_data(overlay, settings, now, route).member("id"@) == Some(JsonData::Text(route.id@)),
        route_data(overlay, settings, now, route).member("published_model_id"@) == Some(JsonData::Text(route.published_model_id@)),
        route_data(overlay, settings, now, route).member("published_model_name"@) == Some(JsonData::Text(route.published_model_name@)),
        route_data(overlay, settings, now, route).member("provider_id"@) == Some(JsonData::Text(route.provider_id@)),
        route_data(overlay, settings, now, route).member("provider_name"@) == Some(JsonData::Text(route.provider_name@)),
        route_data(overlay, settings, now, route).member("upstream_model_name"@) == Some(JsonData::Text(route.upstream_model_name@)),
        route_data(overlay, settings, now, route).member("protocol"@) == Some(JsonData::Text(route.protocol@)),
        route_data(overlay, settings, now, route).member("cost_multiplier"@) == Some(JsonData::Text(route.cost_multiplier@)),
        route_data(overlay, settings, now, route).member("health"@) == Some(JsonData::Text(health_name(shown_status(overlay, settings, now, route).health))),
        route_data(overlay, settings, now, route).member("last_checked_at"@) == Some(optional_integer(route.last_checked_at)),
        route_data(overlay, settings, now, route).member("failure_category"@) == Some(optional_text(shown_status(overlay, settings, now, route).failure_category)),
        route_data(overlay, settings, now, route).member("last_http_status"@) == Some(optional_integer(route.last_http_status)),
        route_data(overlay, settings, now, route).member("state_age_seconds"@) == Some(optional_integer(shown_status(overlay, settings, now, route).state_age_seconds)),
        route_data(overlay, settings, now, route).member("failed_probe_count"@) == Some(integer_data(route.failed_probe_count as int)),
        route_data(overlay, settings, now, route).member("next_probe_at_ms"@) == Some(optional_integer(route.next_probe_at_ms)),
        route_data(overlay, settings, now, route).member("current_interval_ms"@) == Some(optional_integer(shown_status(overlay, settings, now, route).current_interval_ms)),
{
    lemma_names();
    let members = route_data(overlay, settings, now, route)->Object_0;
    assert(members[0].0 == "id"@);
    assert(members[1].0 == "published_model_id"@);
    assert(members[2].0 == "published_model_name"@);
    assert(members[3].0 == "provider_id"@);
    assert(members[4].0 == "provider_name"@);
    assert(members[5].0 == "upstream_model_name"@);
    assert(members[6].0 == "protocol"@);
    assert(members[7].0 == "cost_multiplier"@);
    assert(members[8].0 == "health"@);
    assert(members[9].0 == "last_checked_at"@);
    assert(members[10].0 == "failure_category"@);
    assert(members[11].0 == "last_http_status"@);
    assert(members[12].0 == "state_age_seconds"@);
    assert(members[13].0 == "failed_probe_count"@);
    assert(members[14].0 == "next_probe_at_ms"@);
    assert(members[15].0 == "current_interval_ms"@);
    assert(distinct_names(members));
    lemma_members(members);
}

/// The routes are counted by the health that they report.
pub proof fn law_counts_are_shown(overlay: HealthOverlay, routes: Seq<RouteSummary>)
    ensures
        counts_data(overlay, routes).member("available"@) == Some(integer_data(reporting(overlay, routes, RouteHealth::Available, routes.len() as int) as int)),
        counts_data(overlay, routes).member("checking"@) == Some(integer_data(reporting(overlay, routes, RouteHealth::Checking, routes.len() as int) as int)),
        counts_data(overlay, routes).member("unavailable"@) == Some(integer_data(reporting(overlay, routes, RouteHealth::Unavailable, routes.len() as int) as int)),
{
    lemma_names();
    let members = counts_data(overlay, routes)->Object_0;
    assert(members[0].0 == "available"@);
    assert(members[1].0 == "checking"@);
    assert(members[2].0 == "unavailable"@);
    assert(distinct_names(members));
    lemma_members(members);
}

/// The usage is shown with what is said of it and its gaps.
pub proof fn law_usage_is_shown(gaps: Seq<UsageGap>, has_data: bool)
    ensures
        usage_data(gaps, has_data).member("state"@) == Some(JsonData::Text(usage_name(gaps.len() as int, has_data))),
        usage_data(gaps, has_data).member("gaps"@) == Some(listed_data(gaps)),
{
    lemma_names();
    let members = usage_data(gaps, has_data)->Object_0;
    assert(members[0].0 == "state"@);
    assert(members[1].0 == "gaps"@);
    assert(distinct_names(members));
    lemma_members(members);
}

/// The integrity of the usage is shown with its gaps.
pub proof fn law_integrity_is_shown(integrity: UsageIntegrity)
    ensures
        integrity_data(integrity).member("complete"@) == Some(JsonData::Bool(integrity.complete)),
        integrity_data(integrity).member("gaps"@) == Some(listed_data(integrity.gaps@)),
{
    lemma_names();
    let members = integrity_data(integrity)->Object_0;
    assert(members[0].0 == "complete"@);
    assert(members[1].0 == "gaps"@);
    assert(distinct_names(members));
    lemma_members(members);
}

/// The operations page has a part for each thing that it shows.
pub proof fn law_operations_are_shown(parts: Operations, storage: Option<StorageHealth>, overlay: HealthOverlay, now: i64)
    ensures
        operations_data(parts, storage, overlay, now).member("storage"@) == Some(storage_part(storage, parts.integrity.gaps@, now)),
        operations_data(parts, storage, overlay, now).member("model_routes"@) == Some(counts_data(overlay, parts.routes@)),
        operations_data(parts, storage, overlay, now).member("recovery"@) == Some(parts.settings.shown()),
        operations_data(parts, storage, overlay, now).member("backups"@) == Some(parts.backups.shown()),
        operations_data(parts, storage, overlay, now).member("migration"@) == Some(parts.migration.shown()),
        operations_data(parts, storage, overlay, now).member("usage"@) == Some(usage_data(parts.integrity.gaps@, parts.has_data)),
        operations_data(parts, storage, overlay, now).member("catalog"@) == Some(listed_data(parts.catalog@)),
        operations_data(parts, storage, overlay, now).member("providers"@) == Some(listed_data(parts.providers@)),
        operations_data(parts, storage, overlay, now).member("routes"@) == Some(routes_data(overlay, parts.settings, now as int, parts.routes@)),
{
    lemma_names();
    let members = operations_data(parts, storage, overlay, now)->Object_0;
    assert(members[0].0 == "storage"@);
    assert(members[1].0 == "model_routes"@);
    assert(members[2].0 == "recovery"@);
    assert(members[3].0 == "backups"@);
    assert(members[4].0 == "migration"@);
    assert(members[5].0 == "usage"@);
    assert(members[6].0 == "catalog"@);
    assert(members[7].0 == "providers"@);
    assert(members[8].0 == "routes"@);
    assert(distinct_names(members));
    lemma_members(members);
}

/// A restore is shown with its source, its schemas, the backup made before it, and how many
/// routes are checked.
pub proof fn law_restores_are_shown(outcome: RestoreOutcome)
    ensures
        restored_data(outcome).member("restored_from"@) == Some(JsonData::Text(outcome.candidate_name@)),
        restored_data(outcome).member("candidate_schema"@) == Some(integer_data(outcome.candidate_schema as int)),
        restored_data(outcome).member("schema_version"@) == Some(integer_data(outcome.restored_schema as int)),
        restored_data(outcome).member("pre_restore_backup"@) == Some(JsonData::Text(outcome.pre_restore_backup_name@)),
        restored_data(outcome).member("completed_at"@) == Some(integer_data(outcome.completed_at as int)),
        restored_data(outcome).member("routes_reset_to_checking"@) == Some(integer_data(outcome.probe_configurations@.len() as int)),
{
    lemma_names();
    let members = restored_data(outcome)->Object_0;
    assert(members[0].0 == "restored_from"@);
    assert(members[1].0 == "candidate_schema"@);
    assert(members[2].0 == "schema_version"@);
    assert(members[3].0 == "pre_restore_backup"@);
    assert(members[4].0 == "completed_at"@);
    assert(members[5].0 == "routes_reset_to_checking"@);
    assert(distinct_names(members));
    lemma_members(members);
}

/// A key that was just made is shown with its secret.
pub proof fn law_created_keys_are_shown(key: CreatedRelayAccessKey)
    ensures
        key.shown().member("id"@) == Some(JsonData::Text(key.id@)),
        key.shown().member("label"@) == Some(JsonData::Text(key.label@)),
        key.shown().member("prefix"@) == Some(JsonData::Text(key.secret_prefix@)),
        key.shown().member("created_at"@) == Some(integer_data(key.created_at as int)),
        key.shown().member("model_route_ids"@) == Some(listed_data(key.model_route_ids@)),
        key.shown().member("secret"@) == Some(JsonData::Text(key.secret@)),
{
    lemma_names();
    let members = key.shown()->Object_0;
    assert(members[0].0 == "id"@);
    assert(members[1].0 == "label"@);
    assert(members[2].0 == "prefix"@);
    assert(members[3].0 == "created_at"@);
    assert(members[4].0 == "model_route_ids"@);
    assert(members[5].0 == "secret"@);
    assert(distinct_names(members));
    lemma_members(members);
}

/// A listed key is shown with what is kept of it.
pub proof fn law_listed_keys_are_shown(key: RelayAccessKeySummary)
    ensures
        key.shown().member("id"@) == Some(JsonData::Text(key.id@)),
        key.shown().member("prefix"@) == Some(JsonData::Text(key.secret_prefix@)),
        key.shown().member("label"@) == Some(JsonData::Text(key.label@)),
        key.shown().member("created_at"@) == Some(integer_data(key.created_at as int)),
        key.shown().member("revoked_at"@) == Some(optional_integer(key.revoked_at)),
        key.shown().member("secret"@) == Some(optional_text(key.secret)),
        key.shown().member("model_route_ids"@) == Some(listed_data(key.model_route_ids@)),
{
    lemma_names();
    let members = key.shown()->Object_0;
    assert(members[0].0 == "id"@);
    assert(members[1].0 == "prefix"@);
    assert(members[2].0 == "label"@);
    assert(members[3].0 == "created_at"@);
    assert(members[4].0 == "revoked_at"@);
    assert(members[5].0 == "secret"@);
    assert(members[6].0 == "model_route_ids"@);
    assert(distinct_names(members));
    lemma_members(members);
}

/// A provider is shown with its masked key.
pub proof fn law_provider_summaries_are_shown(summary: ProviderSummary)
    ensures
        summary.shown().member("id"@) == Some(JsonData::Text(summary.id@)),
        summary.shown().member("display_name"@) == Some(JsonData::Text(summary.display_name@)),
        summary.shown().member("api_key_masked"@) == Some(JsonData::Text(summary.api_key_masked@)),
{
    lemma_names();
    let members = summary.shown()->Object_0;
    assert(members[0].0 == "id"@);
    assert(members[1].0 == "display_name"@);
    assert(members[2].0 == "api_key_masked"@);
    assert(distinct_names(members));
    lemma_members(members);
}

/// An event is shown with its time, section, severity, code, version, correlation and payload.
pub proof fn law_events_are_shown(event: OperationalEvent)
    ensures
        event_data(event).member("id"@) == Some(integer_data(event.id as int)),
        event_data(event).member("occurred_at_ms"@) == Some(integer_data(event.occurred_at_ms as int)),
        event_data(event).member("section"@) == Some(JsonData::Text(event.section@)),
        event_data(event).member("severity"@) == Some(JsonData::Text(event.severity@)),
        event_data(event).member("event_code"@) == Some(JsonData::Text(event.event_code@)),
        event_data(event).member("version"@) == Some(JsonData::Text(event.version@)),
        event_data(event).member("correlation_id"@) == Some(optional_text(event.correlation_id)),
        event_data(event).member("payload"@) == Some(event.payload@),
{
    lemma_names();
    let members = event_data(event)->Object_0;
    assert(members[0].0 == "id"@);
    assert(members[1].0 == "occurred_at_ms"@);
    assert(members[2].0 == "section"@);
    assert(members[3].0 == "severity"@);
    assert(members[4].0 == "event_code"@);
    assert(members[5].0 == "version"@);
    assert(members[6].0 == "correlation_id"@);
    assert(members[7].0 == "payload"@);
    assert(distinct_names(members));
    lemma_members(members);
}

/// A page of events is shown with its number, its size and the total.
pub proof fn law_event_pages_are_shown(listing: OperationalEventPage, page: i64, page_size: i64)
    ensures
        events_data(listing, page, page_size).member("events"@) == Some(JsonData::Array( listing.events@.map_values(|event: OperationalEvent| event_data(event)), )),
        events_data(listing, page, page_size).member("page"@) == Some(integer_data(page as int)),
        events_data(listing, page, page_size).member("page_size"@) == Some(integer_data(page_size as int)),
        events_data(listing, page, page_size).member("total"@) == Some(integer_data(listing.total as int)),
{
    lemma_names();
    let members = events_data(listing, page, page_size)->Object_0;
    assert(members[0].0 == "events"@);
    assert(members[1].0 == "page"@);
    assert(members[2].0 == "page_size"@);
    assert(members[3].0 == "total"@);
    assert(distinct_names(members));
    lemma_members(members);
}

/// A backup made before a migration is shown with how it went, its name and the
/// schema that it holds; none is shown as null.
pub proof fn law_backups_before_migrations_are_shown(status: DataOperationsStatus)
    ensures
        status.pre_backup_name is None ==> pre_backup_data(status) == JsonData::Null,
        status.pre_backup_name matches Some(name) ==> {
            let shown = pre_backup_data(status);
            &&& status.pre_backup_ok matches Some(ok) ==> shown.member("ok"@) == Some(
                JsonData::Bool(ok),
            )
            &&& status.pre_backup_ok is None ==> shown.member("ok"@) == Some(JsonData::Null)
            &&& shown.member("name"@) == Some(JsonData::Text(name@))
            &&& shown.member("schema_version"@) == Some(
                optional_integer(status.migrated_from_schema),
            )
        },
{
    if status.pre_backup_name is Some {
        lemma_names();
        let members = pre_backup_data(status)->Object_0;
        reveal_strlit("ok");
        assert(members[0].0 == "ok"@);
        assert(members[1].0 == "name"@);
        assert(members[2].0 == "schema_version"@);
        assert(distinct_names(members));
        lemma_members(members);
    }
}

/// Records lost are shown by their number where it is known.
pub proof fn law_losses_are_shown(n: u64)
    ensures
        lost_data(Some(n)) == JsonData::Number(NumberData::Unsigned(n)),
        lost_data(None) == JsonData::Null,
{
}

/// The gaps in the accounts are those of records that could not be kept and that
/// are still open.
pub proof fn law_open_gaps_are_shown(gaps: Seq<UsageGap>, k: int)
    requires
        gaps.len() <= usize::MAX,
        0 <= k < losing_upto(gaps, gaps.len() as int).len(),
    ensures
        accounting_gaps_data(gaps) matches JsonData::Array(shown) && {
            let place = losing_upto(gaps, gaps.len() as int)[k] as int;
            &&& shown.len() == losing_upto(gaps, gaps.len() as int).len()
            &&& place < gaps.len()
            &&& gaps[place].kind@ == "persistence"@
            &&& gaps[place].ended_at_ms is None
            &&& shown[k] == accounting_gap_data(gaps[place])
        },
{
    law_losing_gaps_are_reported(gaps, gaps.len() as int);
}

/// Each route has its place in the list of routes.
pub proof fn law_route_lists_show_each_route(
    overlay: HealthOverlay,
    settings: RecoverySettings,
    now: int,
    routes: Seq<RouteSummary>,
    i: int,
)
    requires
        0 <= i < routes.len(),
    ensures
        routes_data(overlay, settings, now, routes) matches JsonData::Array(shown) && shown.len()
            == routes.len() && shown[i] == route_data(overlay, settings, now, routes[i]),
{
}

/// The page of the storage is what is known of it, or that nothing is.
pub proof fn law_the_storage_part(health: StorageHealth, gaps: Seq<UsageGap>, now: i64)
    ensures
        storage_part(Some(health), gaps, now) == storage_data(health, gaps),
        storage_part(None, gaps, now) == unknown_storage_data(now),
{
}

/// A restore is shown while it goes on with its stages, for ten seconds after it
/// ended with its end, and then no more.
pub proof fn law_progress_is_shown(restore: RestoreProgress, now: i64)
    ensures
        progress_data(None, now).member("state"@) == Some(JsonData::Text("idle"@)),
        restore.finished_at is None ==> {
            let shown = progress_data(Some(restore), now);
            &&& shown.member("state"@) == Some(JsonData::Text("restoring"@))
            &&& shown.member("candidate"@) == Some(JsonData::Text(restore.candidate@))
            &&& shown.member("stage"@) == Some(JsonData::Text(stage_name(restore.stage)))
            &&& shown.member("stages"@) == Some(listed_data(restore.stages@))
            &&& shown.member("started_at"@) == Some(integer_data(restore.started_at as int))
        },
        restore.finished_at matches Some(at) ==> {
            let shown = progress_data(Some(restore), now);
            &&& now - at <= 10 ==> shown.member("state"@) == Some(JsonData::Text("recent"@))
                && shown.member("candidate"@) == Some(JsonData::Text(restore.candidate@))
                && shown.member("stages"@) == Some(listed_data(restore.stages@)) && shown.member(
                "completed_at"@,
            ) == Some(integer_data(at as int))
            &&& now - at > 10 ==> shown.member("state"@) == Some(JsonData::Text("idle"@))
        },
{
    lemma_names();
    let idle = progress_data(None, now)->Object_0;
    assert(idle[0].0 == "state"@);
    lemma_members(idle);
    let members = progress_data(Some(restore), now)->Object_0;
    assert(members[0].0 == "state"@);
    if restore.finished_at is None {
        assert(members[1].0 == "candidate"@);
        assert(members[2].0 == "stage"@);
        assert(members[3].0 == "stages"@);
        assert(members[4].0 == "started_at"@);
    } else if now - restore.finished_at->0 <= 10 {
        assert(members[1].0 == "candidate"@);
        assert(members[2].0 == "stages"@);
        assert(members[3].0 == "completed_at"@);
    }
    assert(distinct_names(members));
    lemma_members(members);
}

} // verus!
