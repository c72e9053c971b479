//! The plugins of the host: which are installed and enabled, what the newest
//! versions are, and what is shown of them.
use vstd::prelude::*;

use crate::records::{
    fields_view, fits, laid_out_text_is_read, lemma_record_fits, parse_record, record_parsed,
    rows_view, value_outcome, Row, RowV, MAX_PART_NESTING,
};
use crate::catalog::{defs_view, find, first_with_id, DefV, PluginDef};
use crate::config::stored_text;
use crate::host_update::{current_version, version_newer, version_order, HostReleaseInfo, ReleaseV};
use crate::json::{
    check_record, collected, get_record_field, is_record, json_pretty, lemma_collected_survives,
    lemma_values_view, object_of, opt_json, opt_text, opt_text_json, pairs_view, record_field,
    survives, text_json, values_view, write_pretty, Json, JsonV,
};
use crate::manifest::{ManifestV, PluginManifest};
use crate::protocol::{capability_labels, enabled_names};
use crate::proxy::{
    mode_name, proxy_from, proxy_json, proxy_value, read_proxy, ProxyMode, ProxySettings, ProxyV,
};
use crate::table::Table;
use crate::text::{
    contains_char, copy_list, copy_opt, decimal, decimal_text, ends_with, has_prefix, has_suffix,
    join, joined, list_view, opt_view, outcome, same, starts_with, trimmed, untag, untagged,
};

verus! {

// ---------------------------------------------------------------------------
// Records
// ---------------------------------------------------------------------------

/// What the host notes of a plugin.
#[derive(Clone, Debug)]
pub struct PluginRecord {
    pub id: String,
    pub enabled: bool,
    pub installed_version: Option<String>,
}

/// The model of a record.
pub struct RecordV {
    pub id: Seq<char>,
    pub enabled: bool,
    pub installed_version: Option<Seq<char>>,
}

impl View for PluginRecord {
    type V = RecordV;

    open spec fn view(&self) -> RecordV {
        RecordV {
            id: self.id@,
            enabled: self.enabled,
            installed_version: opt_view(self.installed_version),
        }
    }
}

/// The record of a plugin that is not installed.
pub open spec fn blank_record(id: Seq<char>) -> RecordV {
    RecordV { id, enabled: false, installed_version: None }
}

impl PluginRecord {
    /// The record of a plugin that is not installed.
    pub fn blank(id: &str) -> (r: PluginRecord)
        ensures
            r@ == blank_record(id@),
    {
        PluginRecord { id: id.to_string(), enabled: false, installed_version: None }
    }

    pub fn copy(&self) -> (r: PluginRecord)
        ensures
            r@ == self@,
    {
        PluginRecord {
            id: self.id.clone(),
            enabled: self.enabled,
            installed_version: copy_opt(&self.installed_version),
        }
    }
}

/// The models of records.
pub open spec fn records_view(records: Seq<PluginRecord>) -> Seq<RecordV> {
    records.map_values(|record: PluginRecord| record@)
}

/// What the host stores of its plugins and of itself.
#[derive(Clone, Debug)]
pub struct PluginsState {
    pub plugins: Vec<PluginRecord>,
    pub auto_start_with_windows: bool,
    pub start_minimized: bool,
    pub proxy: ProxySettings,
}

/// The model of the state.
pub struct StateV {
    pub plugins: Seq<RecordV>,
    pub auto_start_with_windows: bool,
    pub start_minimized: bool,
    pub proxy: ProxyV,
}

impl View for PluginsState {
    type V = StateV;

    open spec fn view(&self) -> StateV {
        StateV {
            plugins: records_view(self.plugins@),
            auto_start_with_windows: self.auto_start_with_windows,
            start_minimized: self.start_minimized,
            proxy: self.proxy@,
        }
    }
}

impl Default for PluginsState {
    fn default() -> (r: PluginsState)
        ensures
            r@ == (StateV {
                plugins: Seq::empty(),
                auto_start_with_windows: false,
                start_minimized: false,
                proxy: ProxyV { mode: ProxyMode::Off, url: Seq::empty() },
            }),
    {
        let r = PluginsState {
            plugins: Vec::new(),
            auto_start_with_windows: false,
            start_minimized: false,
            proxy: ProxySettings::default(),
        };
        assert(r@.plugins =~= Seq::empty());
        r
    }
}

/// The place of the first record of a plugin.
pub open spec fn record_index(records: Seq<RecordV>, id: Seq<char>) -> Option<int>
    decreases records.len(),
{
    if records.len() == 0 {
        None
    } else if records[0].id == id {
        Some(0)
    } else {
        match record_index(records.drop_first(), id) {
            Some(i) => Some(i + 1),
            None => None,
        }
    }
}

/// What `record_index` finds is the first record of the plugin.
pub proof fn lemma_record_index(records: Seq<RecordV>, id: Seq<char>)
    ensures
        match record_index(records, id) {
            Some(i) => 0 <= i < records.len() && records[i].id == id && forall|k: int|
                0 <= k < i ==> (#[trigger] records[k]).id != id,
            None => forall|k: int| 0 <= k < records.len() ==> (#[trigger] records[k]).id != id,
        },
    decreases records.len(),
{
    if records.len() > 0 && records[0].id != id {
        let rest = records.drop_first();
        lemma_record_index(rest, id);
        assert forall|k: int| 0 < k < records.len() implies records[k] == rest[k - 1] by {}
        match record_index(rest, id) {
            Some(i) => {
                assert(records[i + 1] == rest[i]);
                assert forall|k: int| 0 <= k < i + 1 implies (#[trigger] records[k]).id != id by {
                    if k > 0 {
                        assert(records[k] == rest[k - 1]);
                    }
                }
            },
            None => {
                assert forall|k: int| 0 <= k < records.len() implies (
                #[trigger] records[k]).id != id by {
                    if k > 0 {
                        assert(records[k] == rest[k - 1]);
                    }
                }
            },
        }
    }
}

fn find_record(records: &Vec<PluginRecord>, id: &str) -> (r: Option<usize>)
    ensures
        match record_index(records_view(records@), id@) {
            Some(i) => r == Some(i as usize) && 0 <= i < records.len(),
            None => r is None,
        },
{
    let ghost model = records_view(records@);
    proof {
        lemma_record_index(model, id@);
    }
    let mut i: usize = 0;
    while i < records.len()
        invariant
            i <= records.len(),
            model == records_view(records@),
            forall|k: int| 0 <= k < i ==> (#[trigger] model[k]).id != id@,
        decreases records.len() - i,
    {
        assert(model[i as int] == records@[i as int]@);
        if same(records[i].id.as_str(), id) {
            proof {
                lemma_record_index(model, id@);
            }
            return Some(i);
        }
        i += 1;
    }
    proof {
        lemma_record_index(model, id@);
    }
    None
}

/// The record of a plugin.
pub open spec fn record_of(records: Seq<RecordV>, id: Seq<char>) -> Option<RecordV> {
    match record_index(records, id) {
        Some(i) => Some(records[i]),
        None => None,
    }
}

/// The records with one for this plugin.
pub open spec fn with_record(records: Seq<RecordV>, id: Seq<char>) -> Seq<RecordV> {
    if record_index(records, id) is Some {
        records
    } else {
        records.push(blank_record(id))
    }
}

/// The records with one for each listed plugin.
pub open spec fn with_records(records: Seq<RecordV>, defs: Seq<DefV>) -> Seq<RecordV>
    decreases defs.len(),
{
    if defs.len() == 0 {
        records
    } else {
        with_record(with_records(records, defs.drop_last()), defs.last().id)
    }
}

/// The records with the one of a plugin changed.
pub open spec fn with_changed(records: Seq<RecordV>, id: Seq<char>, record: RecordV) -> Seq<
    RecordV,
> {
    match record_index(with_record(records, id), id) {
        Some(i) => with_record(records, id).update(i, record),
        None => records,
    }
}

fn add_record(records: &mut Vec<PluginRecord>, id: &str)
    ensures
        records_view(final(records)@) == with_record(records_view(old(records)@), id@),
{
    if find_record(records, id).is_none() {
        let ghost start = records@;
        records.push(PluginRecord::blank(id));
        assert(records_view(records@) =~= records_view(start).push(blank_record(id@)));
    }
}

fn add_records(records: &mut Vec<PluginRecord>, defs: &Vec<PluginDef>)
    ensures
        records_view(final(records)@) == with_records(
            records_view(old(records)@),
            defs_view(defs@),
        ),
{
    let ghost start = records_view(records@);
    let ghost model = defs_view(defs@);
    let mut i: usize = 0;
    assert(model.take(0).len() == 0);
    while i < defs.len()
        invariant
            i <= defs.len(),
            model == defs_view(defs@),
            records_view(records@) == with_records(start, model.take(i as int)),
        decreases defs.len() - i,
    {
        proof {
            assert(model.take(i + 1).drop_last() =~= model.take(i as int));
            assert(model.take(i + 1).last() == defs@[i as int]@);
        }
        add_record(records, defs[i].id.as_str());
        i += 1;
    }
    assert(model.take(i as int) =~= model);
}

/// Sets the record of a plugin.
fn change_record(
    records: &mut Vec<PluginRecord>,
    id: &str,
    enabled: bool,
    installed_version: Option<String>,
)
    ensures
        records_view(final(records)@) == with_changed(
            records_view(old(records)@),
            id@,
            RecordV { id: id@, enabled, installed_version: opt_view(installed_version) },
        ),
{
    add_record(records, id);
    let ghost start = records@;
    match find_record(records, id) {
        Some(i) => {
            let record = PluginRecord { id: id.to_string(), enabled, installed_version };
            records.set(i, record);
            assert(records_view(records@) =~= records_view(start).update(i as int, record@));
        },
        None => {
            proof {
                lemma_has_record(records_view(old(records)@), id@);
            }
        },
    }
}

/// A plugin for which a record was made has one.
pub proof fn lemma_has_record(records: Seq<RecordV>, id: Seq<char>)
    ensures
        record_index(with_record(records, id), id) is Some,
{
    lemma_record_index(records, id);
    let after = with_record(records, id);
    lemma_record_index(after, id);
    if record_index(records, id) is None {
        assert(after[records.len() as int].id == id);
    }
}

/// The record of a plugin that was changed is the new one, and the other
/// records stay as they were.
pub proof fn changed_record_reads_back(
    records: Seq<RecordV>,
    id: Seq<char>,
    record: RecordV,
    other: Seq<char>,
)
    requires
        record.id == id,
    ensures
        record_of(with_changed(records, id, record), id) == Some(record),
        other != id ==> record_of(with_changed(records, id, record), other) == record_of(
            records,
            other,
        ),
{
    lemma_has_record(records, id);
    let base = with_record(records, id);
    let after = with_changed(records, id, record);
    lemma_record_index(base, id);
    lemma_record_index(after, id);
    let i = record_index(base, id)->0;
    assert(after[i] == record);
    assert forall|k: int| 0 <= k < i implies (#[trigger] after[k]).id != id by {
        assert(after[k] == base[k]);
    }
    let j = record_index(after, id)->0;
    if j < i {
        assert(after[j].id != id);
    }
    if i < j {
        assert(after[i].id != id);
    }
    if other != id {
        lemma_record_index(records, other);
        lemma_record_index(after, other);
        assert forall|k: int| 0 <= k < base.len() implies (#[trigger] after[k]).id == base[k].id by {
        }
        match record_index(records, other) {
            Some(a) => {
                assert(base[a] == records[a]);
                assert(after[a].id == other);
                let b = record_index(after, other)->0;
                if b < a {
                    assert(base[b] == records[b]);
                    assert(after[b].id != other);
                }
                if a < b {
                    assert(after[a].id != other);
                }
            },
            None => {
                match record_index(after, other) {
                    Some(b) => {
                        assert(after[b].id == base[b].id);
                        if b < records.len() {
                            assert(base[b] == records[b]);
                        }
                    },
                    None => {},
                }
            },
        }
    }
}

// ---------------------------------------------------------------------------
// The stored form
// ---------------------------------------------------------------------------

pub open spec fn record_json(record: RecordV) -> JsonV {
    JsonV::Object(
        collected(
            seq![
                ("id"@, JsonV::Text(record.id)),
                ("enabled"@, JsonV::Bool(record.enabled)),
                ("installedVersion"@, opt_text(record.installed_version)),
            ],
        ),
    )
}

fn record_value(record: &PluginRecord) -> (r: Json)
    ensures
        r@ == record_json(record@),
{
    let pairs: Vec<(&str, Json)> = vec![
        ("id", text_json(record.id.as_str())),
        ("enabled", Json::Bool(record.enabled)),
        ("installedVersion", opt_text_json(&record.installed_version)),
    ];
    assert(pairs_view(pairs@) =~= seq![
        ("id"@, JsonV::Text(record@.id)),
        ("enabled"@, JsonV::Bool(record@.enabled)),
        ("installedVersion"@, opt_text(record@.installed_version)),
    ]);
    object_of(pairs)
}

pub open spec fn state_json(state: StateV) -> JsonV {
    JsonV::Object(
        collected(
            seq![
                (
                    "plugins"@,
                    JsonV::Array(state.plugins.map_values(|r: RecordV| record_json(r))),
                ),
                ("autoStartWithWindows"@, JsonV::Bool(state.auto_start_with_windows)),
                ("startMinimized"@, JsonV::Bool(state.start_minimized)),
                ("proxy"@, proxy_json(state.proxy)),
            ],
        ),
    )
}

/// The stored form of the state.
fn state_value(state: &PluginsState) -> (r: Json)
    ensures
        r@ == state_json(state@),
{
    let mut records: Vec<Json> = Vec::new();
    let mut i: usize = 0;
    while i < state.plugins.len()
        invariant
            i <= state.plugins.len(),
            records.len() == i,
            forall|k: int|
                0 <= k < i ==> (#[trigger] records@[k])@ == record_json(state.plugins@[k]@),
        decreases state.plugins.len() - i,
    {
        records.push(record_value(&state.plugins[i]));
        i += 1;
    }
    let ghost model = values_view(records@);
    proof {
        lemma_values_view(records@);
        assert(model =~= state@.plugins.map_values(|r: RecordV| record_json(r)));
    }
    let pairs: Vec<(&str, Json)> = vec![
        ("plugins", Json::Array(records)),
        ("autoStartWithWindows", Json::Bool(state.auto_start_with_windows)),
        ("startMinimized", Json::Bool(state.start_minimized)),
        ("proxy", proxy_value(&state.proxy)),
    ];
    assert(pairs_view(pairs@) =~= seq![
        ("plugins"@, JsonV::Array(model)),
        ("autoStartWithWindows"@, JsonV::Bool(state@.auto_start_with_windows)),
        ("startMinimized"@, JsonV::Bool(state@.start_minimized)),
        ("proxy"@, proxy_json(state@.proxy)),
    ]);
    object_of(pairs)
}

proof fn lemma_state_survives(state: StateV)
    ensures
        survives(state_json(state), MAX_PART_NESTING as nat),
{
    let values = state.plugins.map_values(|r: RecordV| record_json(r));
    assert forall|i: int| 0 <= i < values.len() implies survives(#[trigger] values[i], 124) by {
        let record = state.plugins[i];
        lemma_collected_survives(
            seq![
                ("id"@, JsonV::Text(record.id)),
                ("enabled"@, JsonV::Bool(record.enabled)),
                ("installedVersion"@, opt_text(record.installed_version)),
            ],
            123,
        );
    }
    lemma_collected_survives(
        seq![
            ("mode"@, JsonV::Text(mode_name(state.proxy.mode))),
            ("url"@, JsonV::Text(state.proxy.url)),
        ],
        124,
    );
    lemma_collected_survives(
        seq![
            ("plugins"@, JsonV::Array(values)),
            ("autoStartWithWindows"@, JsonV::Bool(state.auto_start_with_windows)),
            ("startMinimized"@, JsonV::Bool(state.start_minimized)),
            ("proxy"@, proxy_json(state.proxy)),
        ],
        125,
    );
}

/// The record that a stored value is. Its version may be missing from an object.
pub open spec fn record_from(value: JsonV) -> Option<RecordV> {
    let id = match record_field(value, "id"@, 0) {
        Some(field) => field.as_str(),
        None => None,
    };
    let version = match record_field(value, "installedVersion"@, 2) {
        None => Some(None),
        Some(JsonV::Null) => Some(None),
        Some(JsonV::Text(text)) => Some(Some(text)),
        _ => None,
    };
    match (id, record_field(value, "enabled"@, 1), version) {
        (Some(id), Some(JsonV::Bool(enabled)), Some(installed_version)) => if is_record(
            value,
            3,
            3,
        ) {
            Some(RecordV { id, enabled, installed_version })
        } else {
            None
        },
        _ => None,
    }
}

fn read_record(value: &Json) -> (r: Option<PluginRecord>)
    ensures
        match r {
            Some(record) => record_from(value@) == Some(record@),
            None => record_from(value@) is None,
        },
{
    if !check_record(value, 3, 3) {
        return None;
    }
    let id = get_record_field(value, "id", 0)?.as_str()?;
    let enabled = get_record_field(value, "enabled", 1)?.as_bool()?;
    let installed_version = match get_record_field(value, "installedVersion", 2) {
        None => None,
        Some(Json::Null) => None,
        Some(Json::Text(text)) => Some(text.clone()),
        _ => {
            return None;
        },
    };
    Some(PluginRecord { id: id.clone(), enabled, installed_version })
}

/// The records of a stored list, where every entry is one.
pub open spec fn records_from(values: Seq<JsonV>) -> Option<Seq<RecordV>>
    decreases values.len(),
{
    if values.len() == 0 {
        Some(Seq::empty())
    } else {
        match (records_from(values.drop_last()), record_from(values.last())) {
            (Some(records), Some(record)) => Some(records.push(record)),
            _ => None,
        }
    }
}

proof fn lemma_records_prefix(values: Seq<JsonV>, n: int)
    requires
        0 <= n <= values.len(),
        records_from(values) is Some,
    ensures
        records_from(values.take(n)) is Some,
    decreases values.len() - n,
{
    if n < values.len() {
        lemma_records_prefix(values, n + 1);
        assert(values.take(n + 1).drop_last() == values.take(n));
    } else {
        assert(values.take(n) == values);
    }
}

fn read_records(values: &Vec<Json>) -> (r: Option<Vec<PluginRecord>>)
    ensures
        match r {
            Some(records) => records_from(values_view(values@)) == Some(records_view(records@)),
            None => records_from(values_view(values@)) is None,
        },
{
    let ghost model = values_view(values@);
    proof {
        lemma_values_view(values@);
        assert(model.take(0).len() == 0);
    }
    let mut out: Vec<PluginRecord> = Vec::new();
    assert(records_view(out@) =~= Seq::empty());
    let mut i: usize = 0;
    while i < values.len()
        invariant
            i <= values.len(),
            model == values_view(values@),
            model.len() == values.len(),
            forall|k: int| 0 <= k < values.len() ==> #[trigger] model[k] == values@[k]@,
            records_from(model.take(i as int)) == Some(records_view(out@)),
        decreases values.len() - i,
    {
        proof {
            assert(model.take(i + 1).drop_last() == model.take(i as int));
            assert(model.take(i + 1).last() == values@[i as int]@);
            if records_from(model) is Some {
                lemma_records_prefix(model, i + 1);
            }
        }
        match read_record(&values[i]) {
            None => {
                return None;
            },
            Some(record) => {
                let ghost before = out@;
                out.push(record);
                assert(records_view(out@) =~= records_view(before).push(record@));
            },
        }
        i += 1;
    }
    assert(model.take(i as int) == model);
    Some(out)
}

/// The state that a stored value is; the proxy may be missing.
pub open spec fn state_from(value: JsonV) -> Option<StateV> {
    let records = match record_field(value, "plugins"@, 0) {
        Some(JsonV::Array(values)) => records_from(values),
        _ => None,
    };
    let proxy = match record_field(value, "proxy"@, 3) {
        None => Some(ProxyV { mode: ProxyMode::Off, url: Seq::empty() }),
        Some(field) => proxy_from(field),
    };
    match (
        records,
        record_field(value, "autoStartWithWindows"@, 1),
        record_field(value, "startMinimized"@, 2),
        proxy,
    ) {
        (
            Some(plugins),
            Some(JsonV::Bool(auto_start_with_windows)),
            Some(JsonV::Bool(start_minimized)),
            Some(proxy),
        ) => if is_record(value, 3, 4) {
            Some(StateV { plugins, auto_start_with_windows, start_minimized, proxy })
        } else {
            None
        },
        _ => None,
    }
}

fn read_state(value: &Json) -> (r: Option<PluginsState>)
    ensures
        match r {
            Some(state) => state_from(value@) == Some(state@),
            None => state_from(value@) is None,
        },
{
    if !check_record(value, 3, 4) {
        return None;
    }
    let plugins = match get_record_field(value, "plugins", 0) {
        Some(Json::Array(values)) => read_records(values)?,
        _ => {
            return None;
        },
    };
    let auto_start_with_windows = get_record_field(value, "autoStartWithWindows", 1)?.as_bool()?;
    let start_minimized = get_record_field(value, "startMinimized", 2)?.as_bool()?;
    let proxy = match get_record_field(value, "proxy", 3) {
        None => ProxySettings::default(),
        Some(field) => read_proxy(field)?,
    };
    Some(PluginsState { plugins, auto_start_with_windows, start_minimized, proxy })
}

/// The state of a host that has stored none.
pub open spec fn fresh_state() -> StateV {
    StateV {
        plugins: Seq::empty(),
        auto_start_with_windows: false,
        start_minimized: true,
        proxy: ProxyV { mode: ProxyMode::Off, url: Seq::empty() },
    }
}

/// The fields of a state, of a record and of the settings of a proxy in it.
pub open spec fn state_rows() -> Seq<RowV> {
    seq![
        RowV::Any,
        RowV::Choice,
        RowV::Record(seq![("id"@, 0), ("enabled"@, 0), ("installedVersion"@, 0)]),
        RowV::List(2),
        RowV::Record(seq![("mode"@, 1), ("url"@, 0)]),
        RowV::Record(
            seq![
                ("plugins"@, 3),
                ("autoStartWithWindows"@, 0),
                ("startMinimized"@, 0),
                ("proxy"@, 4),
            ],
        ),
    ]
}

fn parse_state(text: &str) -> (r: Result<Json, String>)
    ensures
        value_outcome(r) == record_parsed(text@, state_rows(), 5),
{
    let record = vec![("id", 0usize), ("enabled", 0), ("installedVersion", 0)];
    assert(fields_view(record@) =~= state_rows()[2]->Record_0);
    let proxy = vec![("mode", 1usize), ("url", 0)];
    assert(fields_view(proxy@) =~= state_rows()[4]->Record_0);
    let state = vec![
        ("plugins", 3usize),
        ("autoStartWithWindows", 0),
        ("startMinimized", 0),
        ("proxy", 4),
    ];
    assert(fields_view(state@) =~= state_rows()[5]->Record_0);
    let rows = vec![
        Row::Any,
        Row::Choice,
        Row::Record(record),
        Row::List(2),
        Row::Record(proxy),
        Row::Record(state),
    ];
    assert(rows_view(rows@) =~= state_rows());
    parse_record(text, &rows, 5)
}

/// The state that was stored.
pub open spec fn stored_state(stored: Option<Result<Seq<char>, Seq<char>>>) -> Result<
    StateV,
    Seq<char>,
> {
    match stored {
        None => Ok(fresh_state()),
        Some(Err(message)) => Err(message),
        Some(Ok(text)) => match record_parsed(text, state_rows(), 5) {
            Err(message) => Err(message),
            Ok(value) => match state_from(value) {
                Some(state) => Ok(state),
                None => Err("plugins.json 的字段类型无效。"@),
            },
        },
    }
}

fn load_state(stored: Option<Result<String, String>>) -> (r: Result<PluginsState, String>)
    ensures
        (match r {
            Ok(state) => Ok(state@),
            Err(message) => Err(message@),
        }) == stored_state(stored_text(stored)),
{
    match stored {
        None => {
            let state = PluginsState {
                plugins: Vec::new(),
                auto_start_with_windows: false,
                start_minimized: true,
                proxy: ProxySettings::default(),
            };
            assert(state@.plugins =~= Seq::empty());
            Ok(state)
        },
        Some(Err(message)) => Err(message),
        Some(Ok(text)) => match parse_state(text.as_str()) {
            Err(message) => Err(message),
            Ok(value) => match read_state(&value) {
                Some(state) => Ok(state),
                None => Err("plugins.json 的字段类型无效。".to_string()),
            },
        },
    }
}

proof fn lemma_state_names()
    ensures
        "id"@.len() == 2,
        "enabled"@.len() == 7 && "enabled"@[0] == 'e',
        "installedVersion"@.len() == 16,
        "plugins"@.len() == 7 && "plugins"@[0] == 'p',
        "autoStartWithWindows"@.len() == 20,
        "startMinimized"@.len() == 14,
        "proxy"@.len() == 5,
{
    reveal_strlit("id");
    reveal_strlit("enabled");
    reveal_strlit("installedVersion");
    reveal_strlit("plugins");
    reveal_strlit("autoStartWithWindows");
    reveal_strlit("startMinimized");
    reveal_strlit("proxy");
}

proof fn lemma_record_reads_back(record: RecordV)
    ensures
        record_from(record_json(record)) == Some(record),
{
    lemma_state_names();
    let pairs = seq![
        ("id"@, JsonV::Text(record.id)),
        ("enabled"@, JsonV::Bool(record.enabled)),
        ("installedVersion"@, opt_text(record.installed_version)),
    ];
    assert(crate::json::names_differ(pairs));
    crate::json::lemma_pair_found(pairs, 0);
    crate::json::lemma_pair_found(pairs, 1);
    crate::json::lemma_pair_found(pairs, 2);
    crate::json::lemma_collected_member(pairs, "id"@);
    crate::json::lemma_collected_member(pairs, "enabled"@);
    crate::json::lemma_collected_member(pairs, "installedVersion"@);
}

proof fn lemma_records_read_back(records: Seq<RecordV>)
    ensures
        records_from(records.map_values(|r: RecordV| record_json(r))) == Some(records),
    decreases records.len(),
{
    let values = records.map_values(|r: RecordV| record_json(r));
    if records.len() == 0 {
        assert(records =~= Seq::empty());
    } else {
        let rest = records.drop_last();
        lemma_records_read_back(rest);
        lemma_record_reads_back(records.last());
        assert(values.drop_last() =~= rest.map_values(|r: RecordV| record_json(r)));
        assert(rest.push(records.last()) =~= records);
    }
}

proof fn lemma_state_fits(state: StateV)
    ensures
        fits(state_json(state), state_rows(), 5),
{
    lemma_state_names();
    let rows = state_rows();
    let values = state.plugins.map_values(|r: RecordV| record_json(r));
    assert forall|i: int| 0 <= i < values.len() implies fits(#[trigger] values[i], rows, 2) by {
        let record = state.plugins[i];
        let fields = rows[2]->Record_0;
        assert(fields[0].0 == "id"@);
        assert(fields[1].0 == "enabled"@);
        assert(fields[2].0 == "installedVersion"@);
        lemma_record_fits(
            seq![
                ("id"@, JsonV::Text(record.id)),
                ("enabled"@, JsonV::Bool(record.enabled)),
                ("installedVersion"@, opt_text(record.installed_version)),
            ],
            rows,
            2,
        );
    }
    assert(fits(JsonV::Array(values), rows, 3));
    assert(rows[4]->Record_0[0].0 == "mode"@);
    assert(rows[4]->Record_0[1].0 == "url"@);
    lemma_record_fits(
        seq![
            ("mode"@, JsonV::Text(mode_name(state.proxy.mode))),
            ("url"@, JsonV::Text(state.proxy.url)),
        ],
        rows,
        4,
    );
    assert(fits(proxy_json(state.proxy), rows, 4));
    let fields = rows[5]->Record_0;
    assert(fields[0].0 == "plugins"@);
    assert(fields[1].0 == "autoStartWithWindows"@);
    assert(fields[2].0 == "startMinimized"@);
    assert(fields[3].0 == "proxy"@);
    lemma_record_fits(
        seq![
            ("plugins"@, JsonV::Array(values)),
            ("autoStartWithWindows"@, JsonV::Bool(state.auto_start_with_windows)),
            ("startMinimized"@, JsonV::Bool(state.start_minimized)),
            ("proxy"@, proxy_json(state.proxy)),
        ],
        rows,
        5,
    );
}

/// A stored state is read back as it was.
pub proof fn stored_state_reads_back(state: StateV)
    ensures
        state_from(state_json(state)) == Some(state),
{
    lemma_state_names();
    lemma_records_read_back(state.plugins);
    crate::proxy::stored_proxy_reads_back(state.proxy);
    let pairs = seq![
        ("plugins"@, JsonV::Array(state.plugins.map_values(|r: RecordV| record_json(r)))),
        ("autoStartWithWindows"@, JsonV::Bool(state.auto_start_with_windows)),
        ("startMinimized"@, JsonV::Bool(state.start_minimized)),
        ("proxy"@, proxy_json(state.proxy)),
    ];
    assert(crate::json::names_differ(pairs));
    crate::json::lemma_pair_found(pairs, 0);
    crate::json::lemma_pair_found(pairs, 1);
    crate::json::lemma_pair_found(pairs, 2);
    crate::json::lemma_pair_found(pairs, 3);
    crate::json::lemma_collected_member(pairs, "plugins"@);
    crate::json::lemma_collected_member(pairs, "autoStartWithWindows"@);
    crate::json::lemma_collected_member(pairs, "startMinimized"@);
    crate::json::lemma_collected_member(pairs, "proxy"@);
}

// ---------------------------------------------------------------------------
// Releases of plugins
// ---------------------------------------------------------------------------

/// The release is a prerelease that is out.
pub open spec fn is_open_prerelease(release: JsonV) -> bool {
    release.get("draft"@) != Some(JsonV::Bool(true)) && release.get("prerelease"@) == Some(
        JsonV::Bool(true),
    )
}

/// The first prerelease that is out.
pub open spec fn first_prerelease(releases: Seq<JsonV>) -> Option<JsonV>
    decreases releases.len(),
{
    if releases.len() == 0 {
        None
    } else if is_open_prerelease(releases[0]) {
        Some(releases[0])
    } else {
        first_prerelease(releases.drop_first())
    }
}

fn has_flag(release: &Json, key: &str) -> (r: bool)
    ensures
        r == (release@.get(key@) == Some(JsonV::Bool(true))),
{
    match release.get(key) {
        Some(Json::Bool(flag)) => *flag,
        _ => false,
    }
}

fn find_prerelease(releases: &Vec<Json>) -> (r: Option<&Json>)
    ensures
        opt_json(r) == first_prerelease(values_view(releases@)),
{
    let ghost model = values_view(releases@);
    proof {
        lemma_values_view(releases@);
        assert(model.skip(0) =~= model);
    }
    let mut i: usize = 0;
    while i < releases.len()
        invariant
            i <= releases.len(),
            model == values_view(releases@),
            model.len() == releases.len(),
            forall|k: int| 0 <= k < releases.len() ==> #[trigger] model[k] == releases@[k]@,
            first_prerelease(model) == first_prerelease(model.skip(i as int)),
        decreases releases.len() - i,
    {
        proof {
            assert(model.skip(i as int)[0] == releases@[i as int]@);
            assert(model.skip(i as int).drop_first() =~= model.skip(i + 1));
        }
        if !has_flag(&releases[i], "draft") && has_flag(&releases[i], "prerelease") {
            return Some(&releases[i]);
        }
        i += 1;
    }
    None
}

/// The file is the package of a plugin.
pub open spec fn is_package_name(name: Seq<char>, prefix: Seq<char>) -> bool {
    has_prefix(name, prefix) && has_suffix(name, "-plugin.zip"@)
}

/// The first package among the files of a release.
pub open spec fn first_package(assets: Seq<JsonV>, prefix: Seq<char>) -> Option<Seq<char>>
    decreases assets.len(),
{
    if assets.len() == 0 {
        None
    } else {
        match assets[0].get_str("name"@) {
            Some(name) => if is_package_name(name, prefix) {
                Some(name)
            } else {
                first_package(assets.drop_first(), prefix)
            },
            None => first_package(assets.drop_first(), prefix),
        }
    }
}

fn find_package(assets: &Vec<Json>, prefix: &str) -> (r: Option<String>)
    ensures
        opt_view(r) == first_package(values_view(assets@), prefix@),
{
    let ghost model = values_view(assets@);
    proof {
        lemma_values_view(assets@);
        assert(model.skip(0) =~= model);
    }
    let mut i: usize = 0;
    while i < assets.len()
        invariant
            i <= assets.len(),
            model == values_view(assets@),
            model.len() == assets.len(),
            forall|k: int| 0 <= k < assets.len() ==> #[trigger] model[k] == assets@[k]@,
            first_package(model, prefix@) == first_package(model.skip(i as int), prefix@),
        decreases assets.len() - i,
    {
        proof {
            assert(model.skip(i as int)[0] == assets@[i as int]@);
            assert(model.skip(i as int).drop_first() =~= model.skip(i + 1));
        }
        if let Some(name) = assets[i].get_str("name") {
            if starts_with(name.as_str(), prefix) && ends_with(name.as_str(), "-plugin.zip") {
                return Some(name.clone());
            }
        }
        i += 1;
    }
    None
}

/// Version and package of a release.
pub open spec fn release_asset(release: JsonV, prefix: Seq<char>) -> Result<
    (Seq<char>, Seq<char>),
    Seq<char>,
> {
    match release.get_str("tag_name"@) {
        None => Err("Release 缺少 tag_name（仓库可能还没有正式发布）。"@),
        Some(tag) => match release.get("assets"@) {
            Some(JsonV::Array(assets)) => match first_package(assets, prefix) {
                Some(name) => Ok((untagged(tag), name)),
                None => Err(
                    "最新 Release "@ + tag + " 中没有 "@ + prefix + "*-plugin.zip"@,
                ),
            },
            _ => Err("Release 缺少 assets"@),
        },
    }
}

/// Version and package of the newest release of a plugin, on the channel that
/// is followed.
pub open spec fn plugin_asset(prefix: Seq<char>, value: JsonV, prerelease_channel: bool) -> Result<
    (Seq<char>, Seq<char>),
    Seq<char>,
> {
    if prerelease_channel {
        match value {
            JsonV::Array(releases) => match first_prerelease(releases) {
                Some(release) => release_asset(release, prefix),
                None => Err("没有找到可用的插件预发布版本。"@),
            },
            _ => Err("没有找到可用的插件预发布版本。"@),
        }
    } else {
        release_asset(value, prefix)
    }
}

/// The model of version and package, or of the complaint.
pub open spec fn asset_outcome(r: Result<(String, String), String>) -> Result<
    (Seq<char>, Seq<char>),
    Seq<char>,
> {
    match r {
        Ok((version, name)) => Ok((version@, name@)),
        Err(message) => Err(message@),
    }
}

fn read_release(release: &Json, prefix: &str) -> (r: Result<(String, String), String>)
    ensures
        asset_outcome(r) == release_asset(release@, prefix@),
{
    let tag = match release.get_str("tag_name") {
        Some(tag) => tag,
        None => {
            return Err("Release 缺少 tag_name（仓库可能还没有正式发布）。".to_string());
        },
    };
    let assets = match release.get("assets") {
        Some(Json::Array(assets)) => assets,
        _ => {
            return Err("Release 缺少 assets".to_string());
        },
    };
    match find_package(assets, prefix) {
        Some(name) => Ok((untag(tag.as_str()), name)),
        None => Err(
            "最新 Release ".to_string().concat(tag.as_str()).concat(" 中没有 ").concat(
                prefix,
            ).concat("*-plugin.zip"),
        ),
    }
}

/// Finds version and package of the newest release of a plugin.
pub fn select_plugin_asset(plugin: &PluginDef, value: &Json, prerelease_channel: bool) -> (r: Result<
    (String, String),
    String,
>)
    ensures
        asset_outcome(r) == plugin_asset(plugin@.asset_prefix, value@, prerelease_channel),
{
    if prerelease_channel {
        return match value {
            Json::Array(releases) => match find_prerelease(releases) {
                Some(release) => read_release(release, plugin.asset_prefix.as_str()),
                None => Err("没有找到可用的插件预发布版本。".to_string()),
            },
            _ => Err("没有找到可用的插件预发布版本。".to_string()),
        };
    }
    read_release(value, plugin.asset_prefix.as_str())
}

/// The package that is found has the prefix of the plugin.
pub proof fn found_package_fits_plugin(assets: Seq<JsonV>, prefix: Seq<char>)
    ensures
        first_package(assets, prefix) matches Some(name) ==> is_package_name(name, prefix),
    decreases assets.len(),
{
    if assets.len() > 0 {
        found_package_fits_plugin(assets.drop_first(), prefix);
    }
}

/// The host follows prereleases where it is one itself.
pub fn follows_prereleases() -> (r: bool)
    ensures
        r == "0.1.3"@.contains('-'),
{
    contains_char(current_version().as_str(), '-')
}

/// The path of the API at which the newest release of a plugin is found.
pub open spec fn release_path(owner: Seq<char>, repo: Seq<char>, prerelease_channel: bool) -> Seq<
    char,
> {
    "repos/"@ + owner + "/"@ + repo + (if prerelease_channel {
        "/releases?per_page=20"@
    } else {
        "/releases/latest"@
    })
}

/// The path of the API at which the newest release of a plugin is found.
pub fn plugin_release_path(plugin: &PluginDef, prerelease_channel: bool) -> (r: String)
    ensures
        r@ == release_path(plugin@.owner, plugin@.repo, prerelease_channel),
{
    let front = "repos/".to_string().concat(plugin.owner.as_str()).concat("/").concat(
        plugin.repo.as_str(),
    );
    if prerelease_channel {
        front.concat("/releases?per_page=20")
    } else {
        front.concat("/releases/latest")
    }
}

// ---------------------------------------------------------------------------
// The manager
// ---------------------------------------------------------------------------

/// The plugins that can be installed, those that are, and what is known of
/// their newest versions.
pub struct PluginManager {
    catalog: Vec<PluginDef>,
    state: PluginsState,
    latest: Table<(String, String)>,
    latest_errors: Table<String>,
    host_release: HostReleaseInfo,
    host_release_error: Option<String>,
}

/// The model of the manager.
pub struct ManagerV {
    pub catalog: Seq<DefV>,
    pub state: StateV,
    pub latest: Map<Seq<char>, (Seq<char>, Seq<char>)>,
    pub latest_errors: Map<Seq<char>, Seq<char>>,
    pub host_release: ReleaseV,
    pub host_release_error: Option<Seq<char>>,
}

/// The model of the newest versions.
pub open spec fn latest_view(latest: Map<Seq<char>, (String, String)>) -> Map<
    Seq<char>,
    (Seq<char>, Seq<char>),
> {
    latest.map_values(|pair: (String, String)| (pair.0@, pair.1@))
}

/// The model of the complaints.
pub open spec fn errors_view(errors: Map<Seq<char>, String>) -> Map<Seq<char>, Seq<char>> {
    errors.map_values(|message: String| message@)
}

impl View for PluginManager {
    type V = ManagerV;

    closed spec fn view(&self) -> ManagerV {
        ManagerV {
            catalog: defs_view(self.catalog@),
            state: self.state@,
            latest: latest_view(self.latest@),
            latest_errors: errors_view(self.latest_errors@),
            host_release: self.host_release@,
            host_release_error: opt_view(self.host_release_error),
        }
    }
}

/// A manager that has asked for no versions yet.
pub open spec fn fresh_manager(catalog: Seq<DefV>, state: StateV) -> ManagerV {
    ManagerV {
        catalog,
        state: StateV { plugins: with_records(state.plugins, catalog), ..state },
        latest: Map::empty(),
        latest_errors: Map::empty(),
        host_release: ReleaseV {
            latest_version: None,
            asset_name: None,
            release_url: None,
            download_url: None,
        },
        host_release_error: None,
    }
}

/// The manager with other records.
pub open spec fn with_plugins(manager: ManagerV, plugins: Seq<RecordV>) -> ManagerV {
    ManagerV { state: StateV { plugins, ..manager.state }, ..manager }
}

/// The listed plugin, or the complaint that there is none.
pub open spec fn definition_of(manager: ManagerV, id: Seq<char>) -> Result<DefV, Seq<char>> {
    match first_with_id(manager.catalog, id) {
        Some(def) => Ok(def),
        None => Err("未知插件："@ + id),
    }
}

/// The version of a plugin that is installed.
pub open spec fn installed_version_of(manager: ManagerV, id: Seq<char>) -> Option<Seq<char>> {
    match record_of(manager.state.plugins, id) {
        Some(record) => record.installed_version,
        None => None,
    }
}

/// Some record says that the plugin is enabled and installed.
pub open spec fn is_active_record(record: RecordV, id: Seq<char>) -> bool {
    record.id == id && record.enabled && record.installed_version is Some
}

pub open spec fn enabled_in(manager: ManagerV, id: Seq<char>) -> bool {
    exists|i: int|
        0 <= i < manager.state.plugins.len() && is_active_record(
            #[trigger] manager.state.plugins[i],
            id,
        )
}

/// The identifiers of the records that are enabled and installed.
pub open spec fn enabled_ids_of(records: Seq<RecordV>) -> Seq<Seq<char>>
    decreases records.len(),
{
    if records.len() == 0 {
        Seq::empty()
    } else if records.last().enabled && records.last().installed_version is Some {
        enabled_ids_of(records.drop_last()).push(records.last().id)
    } else {
        enabled_ids_of(records.drop_last())
    }
}

/// The plugins with what was found of the newest release of one of them.
pub open spec fn with_latest(
    manager: ManagerV,
    id: Seq<char>,
    found: Result<(Seq<char>, Seq<char>), Seq<char>>,
) -> ManagerV {
    match found {
        Ok(release) => ManagerV {
            latest: manager.latest.insert(id, release),
            latest_errors: manager.latest_errors.remove(id),
            ..manager
        },
        Err(message) => ManagerV {
            latest_errors: manager.latest_errors.insert(id, message),
            ..manager
        },
    }
}

/// The plugins with what was found of the newest release of the host.
pub open spec fn with_host_release(
    manager: ManagerV,
    found: Result<ReleaseV, Seq<char>>,
) -> ManagerV {
    match found {
        Ok(info) => ManagerV { host_release: info, host_release_error: None, ..manager },
        Err(message) => ManagerV { host_release_error: Some(message), ..manager },
    }
}

/// The plugins with another catalog.
pub open spec fn with_catalog(manager: ManagerV, catalog: Seq<DefV>) -> ManagerV {
    ManagerV { catalog, ..with_plugins(manager, with_records(manager.state.plugins, catalog)) }
}

/// What comes of taking over a state that was stored elsewhere.
pub open spec fn restored(
    manager: ManagerV,
    stored: Option<Result<Seq<char>, Seq<char>>>,
) -> (Result<(), Seq<char>>, ManagerV) {
    match stored {
        None => (Ok(()), manager),
        Some(_) => match stored_state(stored) {
            Ok(state) => (Ok(()), ManagerV { state, ..manager }),
            Err(message) => (Err(message), manager),
        },
    }
}

/// The plugins with another way of starting with Windows.
pub open spec fn with_autostart(
    manager: ManagerV,
    enabled: bool,
    start_minimized: bool,
) -> ManagerV {
    ManagerV {
        state: StateV { auto_start_with_windows: enabled, start_minimized, ..manager.state },
        ..manager
    }
}

/// The plugins with another proxy.
pub open spec fn with_proxy(manager: ManagerV, proxy: ProxyV) -> ManagerV {
    ManagerV {
        state: StateV {
            proxy: ProxyV { mode: proxy.mode, url: trimmed(proxy.url) },
            ..manager.state
        },
        ..manager
    }
}

impl PluginManager {
    /// The manager of a list of plugins and of the state that was stored,
    /// where one was.
    pub fn load(catalog: Vec<PluginDef>, stored: Option<Result<String, String>>) -> (r: Result<
        PluginManager,
        String,
    >)
        ensures
            match stored_state(stored_text(stored)) {
                Ok(state) => r matches Ok(manager) && manager@ == fresh_manager(
                    defs_view(catalog@),
                    state,
                ),
                Err(message) => r matches Err(text) && text@ == message,
            },
    {
        let mut state = match load_state(stored) {
            Ok(state) => state,
            Err(message) => {
                return Err(message);
            },
        };
        add_records(&mut state.plugins, &catalog);
        let manager = PluginManager {
            catalog,
            state,
            latest: Table::new(),
            latest_errors: Table::new(),
            host_release: HostReleaseInfo::default(),
            host_release_error: None,
        };
        assert(manager@.latest =~= Map::empty());
        assert(manager@.latest_errors =~= Map::empty());
        Ok(manager)
    }

    /// Takes another list of plugins.
    pub fn reload_catalog(&mut self, catalog: Vec<PluginDef>)
        ensures
            final(self)@ == with_catalog(old(self)@, defs_view(catalog@)),
    {
        add_records(&mut self.state.plugins, &catalog);
        self.catalog = catalog;
    }

    /// Takes the state that was stored elsewhere.
    pub fn replace_state(&mut self, stored: Option<Result<String, String>>) -> (r: Result<
        (),
        String,
    >)
        ensures
            outcome(r) == restored(old(self)@, stored_text(stored)).0,
            final(self)@ == restored(old(self)@, stored_text(stored)).1,
    {
        if stored.is_none() {
            return Ok(());
        }
        match load_state(stored) {
            Ok(state) => {
                self.state = state;
                Ok(())
            },
            Err(message) => Err(message),
        }
    }

    pub fn state(&self) -> (r: &PluginsState)
        ensures
            r@ == self@.state,
    {
        &self.state
    }

    /// The text of the file that keeps the state. Reading it gives the state back.
    pub fn state_to_save(&self) -> (r: String)
        ensures
            r@ == json_pretty(state_json(self@.state)),
            stored_state(Some(Ok(r@))) == Ok::<StateV, Seq<char>>(self@.state),
    {
        proof {
            lemma_state_survives(self@.state);
            lemma_state_fits(self@.state);
            stored_state_reads_back(self@.state);
        }
        let text = write_pretty(&state_value(&self.state));
        proof {
            laid_out_text_is_read(
                text@,
                state_json(self@.state),
                state_rows(),
                5,
                MAX_PART_NESTING as nat,
            );
        }
        text
    }

    pub fn catalog(&self) -> (r: &Vec<PluginDef>)
        ensures
            defs_view(r@) == self@.catalog,
    {
        &self.catalog
    }

    /// The listed plugin.
    pub fn definition(&self, id: &str) -> (r: Result<&PluginDef, String>)
        ensures
            (match r {
                Ok(def) => Ok(def@),
                Err(message) => Err(message@),
            }) == definition_of(self@, id@),
    {
        match find(&self.catalog, id) {
            Some(def) => Ok(def),
            None => Err("未知插件：".to_string().concat(id)),
        }
    }

    pub fn set_autostart(&mut self, enabled: bool, start_minimized: bool)
        ensures
            final(self)@ == with_autostart(old(self)@, enabled, start_minimized),
    {
        self.state.auto_start_with_windows = enabled;
        self.state.start_minimized = start_minimized;
    }

    pub fn proxy_settings(&self) -> (r: ProxySettings)
        ensures
            r@ == self@.state.proxy,
    {
        self.state.proxy.copy()
    }

    /// Takes other proxy settings. They are checked only when they are used.
    pub fn set_proxy(&mut self, proxy: ProxySettings)
        ensures
            final(self)@ == with_proxy(old(self)@, proxy@),
    {
        self.state.proxy = proxy.normalized();
    }

    /// The version of a plugin that is installed.
    pub fn installed_version(&self, id: &str) -> (r: Option<String>)
        ensures
            opt_view(r) == installed_version_of(self@, id@),
    {
        match find_record(&self.state.plugins, id) {
            Some(i) => copy_opt(&self.state.plugins[i].installed_version),
            None => None,
        }
    }

    pub fn is_enabled(&self, id: &str) -> (r: bool)
        ensures
            r == enabled_in(self@, id@),
    {
        let ghost records = self@.state.plugins;
        let mut i: usize = 0;
        while i < self.state.plugins.len()
            invariant
                i <= self.state.plugins.len(),
                records == self@.state.plugins,
                records.len() == self.state.plugins.len(),
                forall|k: int| 0 <= k < i ==> !is_active_record(#[trigger] records[k], id@),
            decreases self.state.plugins.len() - i,
        {
            let record = &self.state.plugins[i];
            assert(records[i as int] == record@);
            if same(record.id.as_str(), id) && record.enabled
                && record.installed_version.is_some() {
                assert(is_active_record(records[i as int], id@));
                return true;
            }
            i += 1;
        }
        false
    }

    /// The plugins that are enabled and installed.
    pub fn enabled_ids(&self) -> (r: Vec<String>)
        ensures
            list_view(r@) == enabled_ids_of(self@.state.plugins),
    {
        let ghost records = self@.state.plugins;
        let mut out: Vec<String> = Vec::new();
        let mut i: usize = 0;
        assert(list_view(out@) =~= enabled_ids_of(records.take(0)));
        while i < self.state.plugins.len()
            invariant
                i <= self.state.plugins.len(),
                records == self@.state.plugins,
                records.len() == self.state.plugins.len(),
                list_view(out@) == enabled_ids_of(records.take(i as int)),
            decreases self.state.plugins.len() - i,
        {
            let record = &self.state.plugins[i];
            let ghost before = out@;
            proof {
                assert(records.take(i + 1).drop_last() =~= records.take(i as int));
                assert(records.take(i + 1).last() == record@);
            }
            if record.enabled && record.installed_version.is_some() {
                out.push(record.id.clone());
                assert(list_view(out@) =~= list_view(before).push(record@.id));
            }
            i += 1;
        }
        assert(records.take(i as int) =~= records);
        out
    }

    /// The pipe of a plugin: that of its manifest, or the listed one.
    pub fn pipe_name(&self, id: &str, manifest: Option<&PluginManifest>) -> (r: Result<
        String,
        String,
    >)
        ensures
            (match r {
                Ok(name) => Ok(name@),
                Err(message) => Err(message@),
            }) == (match manifest {
                Some(found) => Ok(found@.pipe_name),
                None => match definition_of(self@, id@) {
                    Ok(def) => Ok(def.pipe_name),
                    Err(message) => Err(message),
                },
            }),
    {
        match manifest {
            Some(found) => Ok(found.pipe_name.clone()),
            None => match self.definition(id) {
                Ok(def) => Ok(def.pipe_name.clone()),
                Err(message) => Err(message),
            },
        }
    }

    /// The executable of a plugin: that of its manifest, or the listed one;
    /// nothing where neither is known.
    pub fn exe_name(&self, id: &str, manifest: Option<&PluginManifest>) -> (r: Option<String>)
        ensures
            opt_view(r) == (match manifest {
                Some(found) => Some(found@.exe_name),
                None => match definition_of(self@, id@) {
                    Ok(def) => Some(def.exe_name),
                    Err(_) => None,
                },
            }),
    {
        match manifest {
            Some(found) => Some(found.exe_name.clone()),
            None => match self.definition(id) {
                Ok(def) => Some(def.exe_name.clone()),
                Err(_) => None,
            },
        }
    }

    /// Notes what asking for the newest version of a plugin gave.
    pub fn record_latest(&mut self, id: &str, found: Result<(String, String), String>)
        ensures
            final(self)@ == with_latest(
                old(self)@,
                id@,
                match found {
                    Ok((version, asset)) => Ok((version@, asset@)),
                    Err(message) => Err(message@),
                },
            ),
    {
        let ghost latest = self.latest@;
        let ghost errors = self.latest_errors@;
        match found {
            Ok(pair) => {
                self.latest.insert(id.to_string(), pair);
                self.latest_errors.remove(id);
                assert(latest_view(self.latest@) =~= latest_view(latest).insert(
                    id@,
                    (pair.0@, pair.1@),
                ));
                assert(errors_view(self.latest_errors@) =~= errors_view(errors).remove(id@));
            },
            Err(message) => {
                self.latest_errors.insert(id.to_string(), message);
                assert(errors_view(self.latest_errors@) =~= errors_view(errors).insert(
                    id@,
                    message@,
                ));
            },
        }
    }

    /// Notes what asking for the newest version of the host gave.
    pub fn record_host_release(&mut self, found: Result<HostReleaseInfo, String>)
        ensures
            final(self)@ == with_host_release(
                old(self)@,
                match found {
                    Ok(info) => Ok(info@),
                    Err(message) => Err(message@),
                },
            ),
    {
        match found {
            Ok(info) => {
                self.host_release = info;
                self.host_release_error = None;
            },
            Err(message) => {
                self.host_release_error = Some(message);
            },
        }
    }

    pub fn host_release(&self) -> (r: &HostReleaseInfo)
        ensures
            r@ == self@.host_release,
    {
        &self.host_release
    }

    /// Whether the newest version of a plugin is known.
    pub fn knows_latest(&self, id: &str) -> (r: bool)
        ensures
            r == self@.latest.contains_key(id@),
    {
        self.latest.contains(id)
    }
}

/// The directory of an installed plugin below the data directory.
pub fn install_dir(id: &str, version: &str) -> (r: Vec<String>)
    ensures
        list_view(r@) == seq!["plugins"@, id@, version@],
{
    let r: Vec<String> = vec!["plugins".to_string(), id.to_string(), version.to_string()];
    assert(list_view(r@) =~= seq!["plugins"@, id@, version@]);
    r
}

// ---------------------------------------------------------------------------
// Installing
// ---------------------------------------------------------------------------

/// What is needed to install the newest version of a plugin.
pub struct InstallPlan {
    pub version: String,
    pub download_url: String,
    pub zip_name: String,
    pub exe_name: String,
}

/// The model of a plan.
pub struct InstallV {
    pub version: Seq<char>,
    pub download_url: Seq<char>,
    pub zip_name: Seq<char>,
    pub exe_name: Seq<char>,
}

impl View for InstallPlan {
    type V = InstallV;

    open spec fn view(&self) -> InstallV {
        InstallV {
            version: self.version@,
            download_url: self.download_url@,
            zip_name: self.zip_name@,
            exe_name: self.exe_name@,
        }
    }
}

/// What is needed to install the newest version of a plugin, or the complaint.
pub open spec fn install_plan(manager: ManagerV, id: Seq<char>) -> Result<InstallV, Seq<char>> {
    if !manager.latest.contains_key(id) {
        if manager.latest_errors.contains_key(id) {
            Err("无法获取 "@ + id + " 的最新版："@ + manager.latest_errors[id])
        } else {
            Err(
                "找不到 "@ + id
                    + " 的最新 Release（需要带 *-plugin.zip 的发布）。请先点「检查更新」。"@,
            )
        }
    } else {
        let version = untagged(manager.latest[id].0);
        match definition_of(manager, id) {
            Err(message) => Err(message),
            Ok(def) => Ok(
                InstallV {
                    version,
                    download_url: "https://github.com/"@ + def.owner + "/"@ + def.repo
                        + "/releases/download/"@ + ("v"@ + version) + "/"@
                        + manager.latest[id].1,
                    zip_name: id + "-"@ + version + "-plugin.zip"@,
                    exe_name: def.exe_name,
                },
            ),
        }
    }
}

/// A package is that of the plugin: its manifest, where it has one, names the
/// plugin, and its executable is there.
pub open spec fn package_check(
    id: Seq<char>,
    exe_name: Seq<char>,
    manifest: Result<Option<ManifestV>, Seq<char>>,
    exe_present: bool,
) -> Result<(), Seq<char>> {
    match manifest {
        Err(message) => Err(message),
        Ok(Some(found)) => if found.id != id {
            Err("plugin.json 的 id 为 "@ + found.id + "，与目录插件 "@ + id + " 不一致。"@)
        } else if !exe_present {
            Err("插件包缺少可执行文件："@ + found.exe_name)
        } else {
            Ok(())
        },
        Ok(None) => if !exe_present {
            Err("插件包缺少可执行文件："@ + exe_name)
        } else {
            Ok(())
        },
    }
}

/// The model of a manifest that may be missing.
pub open spec fn manifest_result(manifest: Result<Option<PluginManifest>, String>) -> Result<
    Option<ManifestV>,
    Seq<char>,
> {
    match manifest {
        Ok(Some(found)) => Ok(Some(found@)),
        Ok(None) => Ok(None),
        Err(message) => Err(message@),
    }
}

/// Checks a package that was unpacked. `exe_present` says whether the
/// executable that it should have is there.
pub fn check_package(
    id: &str,
    exe_name: &str,
    manifest: &Result<Option<PluginManifest>, String>,
    exe_present: bool,
) -> (r: Result<(), String>)
    ensures
        outcome(r) == package_check(id@, exe_name@, manifest_result(*manifest), exe_present),
{
    match manifest {
        Err(message) => Err(message.clone()),
        Ok(Some(found)) => {
            if !same(found.id.as_str(), id) {
                return Err(
                    "plugin.json 的 id 为 ".to_string().concat(found.id.as_str()).concat(
                        "，与目录插件 ",
                    ).concat(id).concat(" 不一致。"),
                );
            }
            if !exe_present {
                return Err(
                    "插件包缺少可执行文件：".to_string().concat(found.exe_name.as_str()),
                );
            }
            Ok(())
        },
        Ok(None) => {
            if !exe_present {
                return Err("插件包缺少可执行文件：".to_string().concat(exe_name));
            }
            Ok(())
        },
    }
}

/// The manager once a version of a plugin is in its place: it is installed and
/// enabled.
pub open spec fn installed(manager: ManagerV, id: Seq<char>, version: Seq<char>) -> ManagerV {
    with_plugins(
        manager,
        with_changed(
            manager.state.plugins,
            id,
            RecordV { id, enabled: true, installed_version: Some(version) },
        ),
    )
}

/// What enabling or disabling a plugin gives, and the plugins afterwards.
pub open spec fn switched(manager: ManagerV, id: Seq<char>, enabled: bool) -> (
    Result<(), Seq<char>>,
    ManagerV,
) {
    let version = installed_version_of(manager, id);
    if enabled && version is None {
        (
            Err("请先安装插件。"@),
            with_plugins(manager, with_record(manager.state.plugins, id)),
        )
    } else {
        (
            Ok(()),
            with_plugins(
                manager,
                with_changed(
                    manager.state.plugins,
                    id,
                    RecordV { id, enabled, installed_version: version },
                ),
            ),
        )
    }
}

/// The manager once a plugin is gone.
pub open spec fn uninstalled(manager: ManagerV, id: Seq<char>) -> ManagerV {
    with_plugins(
        manager,
        with_changed(manager.state.plugins, id, blank_record(id)),
    )
}

impl PluginManager {
    /// Decides what is needed to install the newest version of a plugin.
    pub fn plan_install(&self, id: &str) -> (r: Result<InstallPlan, String>)
        ensures
            (match r {
                Ok(plan) => Ok(plan@),
                Err(message) => Err(message@),
            }) == install_plan(self@, id@),
    {
        let (tag, asset) = match self.latest.get(id) {
            Some(pair) => {
                assert(self@.latest[id@] == (pair.0@, pair.1@));
                (pair.0.clone(), pair.1.clone())
            },
            None => {
                return match self.latest_errors.get(id) {
                    Some(message) => {
                        assert(self@.latest_errors[id@] == message@);
                        Err(
                            "无法获取 ".to_string().concat(id).concat(" 的最新版：").concat(
                                message.as_str(),
                            ),
                        )
                    },
                    None => Err(
                        "找不到 ".to_string().concat(id).concat(
                            " 的最新 Release（需要带 *-plugin.zip 的发布）。请先点「检查更新」。",
                        ),
                    ),
                };
            },
        };
        let version = untag(tag.as_str());
        let def = match self.definition(id) {
            Ok(def) => def,
            Err(message) => {
                return Err(message);
            },
        };
        let tagged = "v".to_string().concat(version.as_str());
        let download_url = "https://github.com/".to_string().concat(def.owner.as_str()).concat(
            "/",
        ).concat(def.repo.as_str()).concat("/releases/download/").concat(tagged.as_str()).concat(
            "/",
        ).concat(asset.as_str());
        let zip_name = id.to_string().concat("-").concat(version.as_str()).concat("-plugin.zip");
        Ok(InstallPlan { version, download_url, zip_name, exe_name: def.exe_name.clone() })
    }

    /// Notes that a version of a plugin is in its place.
    pub fn finish_install(&mut self, id: &str, version: &str)
        ensures
            final(self)@ == installed(old(self)@, id@, version@),
    {
        change_record(&mut self.state.plugins, id, true, Some(version.to_string()));
    }

    /// Notes that a plugin is gone.
    pub fn uninstall(&mut self, id: &str)
        ensures
            final(self)@ == uninstalled(old(self)@, id@),
    {
        change_record(&mut self.state.plugins, id, false, None);
    }

    /// Enables or disables a plugin. One that is not installed cannot be
    /// enabled.
    pub fn set_enabled(&mut self, id: &str, enabled: bool) -> (r: Result<(), String>)
        ensures
            (outcome(r), final(self)@) == switched(old(self)@, id@, enabled),
    {
        let version = self.installed_version(id);
        if enabled && version.is_none() {
            add_record(&mut self.state.plugins, id);
            return Err("请先安装插件。".to_string());
        }
        change_record(&mut self.state.plugins, id, enabled, version);
        Ok(())
    }
}

/// A plugin that was installed is enabled, in that version.
pub proof fn install_enables(manager: ManagerV, id: Seq<char>, version: Seq<char>)
    ensures
        enabled_in(installed(manager, id, version), id),
        installed_version_of(installed(manager, id, version), id) == Some(version),
{
    let record = RecordV { id, enabled: true, installed_version: Some(version) };
    let after = with_changed(manager.state.plugins, id, record);
    changed_record_reads_back(manager.state.plugins, id, record, id);
    lemma_record_index(after, id);
    let i = record_index(after, id)->0;
    assert(after[i] == record);
    assert(installed(manager, id, version).state.plugins[i] == record);
    assert(is_active_record(after[i], id));
}

/// A plugin that was taken away has no version.
pub proof fn uninstall_clears(manager: ManagerV, id: Seq<char>)
    ensures
        installed_version_of(uninstalled(manager, id), id) is None,
{
    changed_record_reads_back(manager.state.plugins, id, blank_record(id), id);
}

// ---------------------------------------------------------------------------
// Unpacking
// ---------------------------------------------------------------------------

pub const MAX_ARCHIVE_ENTRIES: usize = 128;

pub const MAX_ARCHIVE_FILE_BYTES: u64 = 134217728;

pub const MAX_ARCHIVE_TOTAL_BYTES: u64 = 268435456;

/// Checks how many files a package has.
pub fn check_archive(entries: usize) -> (r: Result<(), String>)
    ensures
        outcome(r) == (if entries > MAX_ARCHIVE_ENTRIES {
            Err("插件包文件数超过 "@ + decimal(MAX_ARCHIVE_ENTRIES as nat) + " 项上限。"@)
        } else {
            Ok(())
        }),
{
    if entries > MAX_ARCHIVE_ENTRIES {
        return Err(
            "插件包文件数超过 ".to_string().concat(
                decimal_text(MAX_ARCHIVE_ENTRIES as u64).as_str(),
            ).concat(" 项上限。"),
        );
    }
    Ok(())
}

/// The total size of the files up to an entry of a package, with that entry, or
/// the complaint. `enclosed` says that the entry stays inside the directory.
pub open spec fn entry_check(total: u64, size: u64, enclosed: bool) -> Result<u64, Seq<char>> {
    if size > MAX_ARCHIVE_FILE_BYTES {
        Err("插件包中单个文件超过 128 MiB 上限。"@)
    } else if total + size > u64::MAX {
        Err("插件包解压大小溢出。"@)
    } else if total + size > MAX_ARCHIVE_TOTAL_BYTES {
        Err("插件包解压后超过 256 MiB 上限。"@)
    } else if !enclosed {
        Err("插件包包含非法路径。"@)
    } else {
        Ok((total + size) as u64)
    }
}

/// Checks an entry of a package.
pub fn check_entry(total: u64, size: u64, enclosed: bool) -> (r: Result<u64, String>)
    ensures
        (match r {
            Ok(sum) => Ok(sum),
            Err(message) => Err(message@),
        }) == entry_check(total, size, enclosed),
{
    if size > MAX_ARCHIVE_FILE_BYTES {
        return Err("插件包中单个文件超过 128 MiB 上限。".to_string());
    }
    match total.checked_add(size) {
        None => Err("插件包解压大小溢出。".to_string()),
        Some(sum) => {
            if sum > MAX_ARCHIVE_TOTAL_BYTES {
                return Err("插件包解压后超过 256 MiB 上限。".to_string());
            }
            if !enclosed {
                return Err("插件包包含非法路径。".to_string());
            }
            Ok(sum)
        },
    }
}

/// What is unpacked stays within the limit.
pub proof fn unpacked_size_is_bounded(total: u64, size: u64, enclosed: bool)
    ensures
        entry_check(total, size, enclosed) matches Ok(sum) ==> enclosed && sum == total + size
            && sum <= MAX_ARCHIVE_TOTAL_BYTES,
{
}

// ---------------------------------------------------------------------------
// Running plugins
// ---------------------------------------------------------------------------

/// The pipe over which a plugin can be asked to quit: one that speaks the second
/// protocol has one.
pub open spec fn quitting_pipe(manifest: Option<ManifestV>) -> Option<Seq<char>> {
    match manifest {
        Some(found) => if found.plugin_protocol >= 2 {
            Some(found.pipe_name)
        } else {
            None
        },
        None => None,
    }
}

/// The pipe over which a plugin is asked to end before it is stopped; plugins
/// of the first protocol are not asked.
pub fn graceful_pipe(manifest: Option<&PluginManifest>) -> (r: Option<String>)
    ensures
        opt_view(r) == quitting_pipe(
            match manifest {
                Some(found) => Some(found@),
                None => None,
            },
        ),
{
    match manifest {
        Some(found) => if found.plugin_protocol >= 2 {
            Some(found.pipe_name.clone())
        } else {
            None
        },
        None => None,
    }
}

/// How waiting for a plugin goes on.
pub enum ReadyStep {
    Ready(Json),
    Failed(String),
    /// Wait, and ask again; this is what was wrong.
    Again(String),
}

/// The model of a step.
pub enum ReadyV {
    Ready(JsonV),
    Failed(Seq<char>),
    Again(Seq<char>),
}

impl View for ReadyStep {
    type V = ReadyV;

    open spec fn view(&self) -> ReadyV {
        match self {
            ReadyStep::Ready(status) => ReadyV::Ready(status@),
            ReadyStep::Failed(message) => ReadyV::Failed(message@),
            ReadyStep::Again(message) => ReadyV::Again(message@),
        }
    }
}

/// How waiting for a plugin goes on, given what it answered and whether its
/// time is over.
pub open spec fn ready_step(status: Result<JsonV, Seq<char>>, overdue: bool) -> ReadyV {
    match status {
        Ok(value) => ReadyV::Ready(value),
        Err(message) => if overdue {
            ReadyV::Failed("插件在 8 秒内未就绪："@ + message)
        } else {
            ReadyV::Again(message)
        },
    }
}

/// Decides how waiting for a plugin goes on.
pub fn wait_until_ready(status: Result<Json, String>, overdue: bool) -> (r: ReadyStep)
    ensures
        r@ == ready_step(
            match status {
                Ok(value) => Ok(value@),
                Err(message) => Err(message@),
            },
            overdue,
        ),
{
    match status {
        Ok(value) => ReadyStep::Ready(value),
        Err(message) => if overdue {
            ReadyStep::Failed("插件在 8 秒内未就绪：".to_string().concat(message.as_str()))
        } else {
            ReadyStep::Again(message)
        },
    }
}

/// What is said of a plugin that ended while it was waited for. `last_error` is
/// what was wrong before, where something was.
pub fn ended_early(last_error: Option<&str>) -> (r: String)
    ensures
        r@ == "插件启动后意外退出："@ + (match last_error {
            Some(message) => message@,
            None => "插件尚未创建控制管道。"@,
        }),
{
    "插件启动后意外退出：".to_string().concat(
        match last_error {
            Some(message) => message,
            None => "插件尚未创建控制管道。",
        },
    )
}

/// The standalone programs that start with Windows, of those that are known.
pub fn standalone_names() -> (r: Vec<String>)
    ensures
        list_view(r@) == seq![
            "Codex Background Studio"@,
            "Notion Background Studio"@,
            "Multica Background Studio"@,
        ],
{
    let r: Vec<String> = vec![
        "Codex Background Studio".to_string(),
        "Notion Background Studio".to_string(),
        "Multica Background Studio".to_string(),
    ];
    assert(list_view(r@) =~= seq![
        "Codex Background Studio"@,
        "Notion Background Studio"@,
        "Multica Background Studio"@,
    ]);
    r
}

/// The warning about standalone programs that start with Windows.
pub open spec fn standalone_notice(hits: Seq<Seq<char>>) -> Option<Seq<char>> {
    if hits.len() == 0 {
        None
    } else {
        Some(
            "检测到独立版自启动："@ + joined(hits, "、"@)
                + "。建议改用壳插件模式，避免双托盘。"@,
        )
    }
}

/// The warning about standalone programs that start with Windows.
pub fn detect_standalone_warning(hits: &Vec<String>) -> (r: Option<String>)
    ensures
        opt_view(r) == standalone_notice(list_view(hits@)),
{
    if hits.len() == 0 {
        return None;
    }
    Some(
        "检测到独立版自启动：".to_string().concat(join(hits, "、").as_str()).concat(
            "。建议改用壳插件模式，避免双托盘。",
        ),
    )
}

// ---------------------------------------------------------------------------
// What is shown
// ---------------------------------------------------------------------------

/// What is shown of a plugin.
pub struct PluginCard {
    pub id: String,
    pub display_name: String,
    pub target_hint: String,
    pub enabled: bool,
    pub installed_version: Option<String>,
    pub latest_version: Option<String>,
    pub latest_asset_name: Option<String>,
    pub running: bool,
    pub status_message: String,
    pub phase: String,
    pub plugin_protocol: u32,
    pub update_available: bool,
    pub icon_path: Option<String>,
    pub icon_web: String,
    pub capabilities: Vec<String>,
}

/// The model of a card.
pub struct CardV {
    pub id: Seq<char>,
    pub display_name: Seq<char>,
    pub target_hint: Seq<char>,
    pub enabled: bool,
    pub installed_version: Option<Seq<char>>,
    pub latest_version: Option<Seq<char>>,
    pub latest_asset_name: Option<Seq<char>>,
    pub running: bool,
    pub status_message: Seq<char>,
    pub phase: Seq<char>,
    pub plugin_protocol: u32,
    pub update_available: bool,
    pub icon_path: Option<Seq<char>>,
    pub icon_web: Seq<char>,
    pub capabilities: Seq<Seq<char>>,
}

impl View for PluginCard {
    type V = CardV;

    open spec fn view(&self) -> CardV {
        CardV {
            id: self.id@,
            display_name: self.display_name@,
            target_hint: self.target_hint@,
            enabled: self.enabled,
            installed_version: opt_view(self.installed_version),
            latest_version: opt_view(self.latest_version),
            latest_asset_name: opt_view(self.latest_asset_name),
            running: self.running,
            status_message: self.status_message@,
            phase: self.phase@,
            plugin_protocol: self.plugin_protocol,
            update_available: self.update_available,
            icon_path: opt_view(self.icon_path),
            icon_web: self.icon_web@,
            capabilities: list_view(self.capabilities@),
        }
    }
}

impl PluginCard {
    pub fn copy(&self) -> (r: PluginCard)
        ensures
            r@ == self@,
    {
        PluginCard {
            id: self.id.clone(),
            display_name: self.display_name.clone(),
            target_hint: self.target_hint.clone(),
            enabled: self.enabled,
            installed_version: copy_opt(&self.installed_version),
            latest_version: copy_opt(&self.latest_version),
            latest_asset_name: copy_opt(&self.latest_asset_name),
            running: self.running,
            status_message: self.status_message.clone(),
            phase: self.phase.clone(),
            plugin_protocol: self.plugin_protocol,
            update_available: self.update_available,
            icon_path: copy_opt(&self.icon_path),
            icon_web: self.icon_web.clone(),
            capabilities: copy_list(&self.capabilities),
        }
    }
}

/// The models of cards.
pub open spec fn cards_view(cards: Seq<PluginCard>) -> Seq<CardV> {
    cards.map_values(|card: PluginCard| card@)
}

/// What was found out of a plugin: whether it runs, what it answered where it
/// does, where its icon lies, and its manifest.
pub struct PluginFacts {
    pub running: bool,
    pub status: Result<Json, String>,
    pub icon_path: Option<String>,
    pub manifest: Option<PluginManifest>,
}

/// The model of the facts.
pub struct FactsV {
    pub running: bool,
    pub status: Result<JsonV, Seq<char>>,
    pub icon_path: Option<Seq<char>>,
    pub manifest: Option<ManifestV>,
}

impl View for PluginFacts {
    type V = FactsV;

    open spec fn view(&self) -> FactsV {
        FactsV {
            running: self.running,
            status: match self.status {
                Ok(value) => Ok(value@),
                Err(message) => Err(message@),
            },
            icon_path: opt_view(self.icon_path),
            manifest: match self.manifest {
                Some(manifest) => Some(manifest@),
                None => None,
            },
        }
    }
}

/// The models of facts.
pub open spec fn facts_view(facts: Seq<PluginFacts>) -> Seq<FactsV> {
    facts.map_values(|f: PluginFacts| f@)
}

/// The record of a plugin, or that of one that is not installed.
pub open spec fn record_or_blank(records: Seq<RecordV>, id: Seq<char>) -> RecordV {
    match record_of(records, id) {
        Some(record) => record,
        None => blank_record(id),
    }
}

/// The phase of a plugin.
pub open spec fn phase_of(facts: FactsV) -> Seq<char> {
    if facts.running {
        match facts.status {
            Ok(status) => match status.get_str("phase"@) {
                Some(phase) => phase,
                None => "unknown"@,
            },
            Err(_) => "error"@,
        }
    } else {
        "idle"@
    }
}

/// What is said of a plugin before it was asked.
pub open spec fn standing_message(
    record: RecordV,
    error: Option<Seq<char>>,
    running: bool,
) -> Seq<char> {
    if record.installed_version is None {
        match error {
            Some(message) => "未安装 · "@ + message,
            None => "未安装"@,
        }
    } else if !record.enabled {
        "未启用"@
    } else if running {
        "运行中"@
    } else {
        "已启用"@
    }
}

/// What is said of a plugin: its own message comes first.
pub open spec fn status_text(
    record: RecordV,
    error: Option<Seq<char>>,
    facts: FactsV,
) -> Seq<char> {
    let standing = standing_message(record, error, facts.running);
    if facts.running {
        match facts.status {
            Ok(status) => match status.get_str("message"@) {
                Some(message) => message,
                None => standing,
            },
            Err(message) => "插件状态不可用："@ + message,
        }
    } else {
        standing
    }
}

/// The newest version of a plugin, where it is known.
pub open spec fn latest_of(manager: ManagerV, id: Seq<char>) -> Option<(Seq<char>, Seq<char>)> {
    if manager.latest.contains_key(id) {
        Some(manager.latest[id])
    } else {
        None
    }
}

/// What went wrong when the newest version of a plugin was asked for.
pub open spec fn latest_error_of(manager: ManagerV, id: Seq<char>) -> Option<Seq<char>> {
    if manager.latest_errors.contains_key(id) {
        Some(manager.latest_errors[id])
    } else {
        None
    }
}

/// Another version than the installed one is the newest.
pub open spec fn is_outdated(
    installed: Option<Seq<char>>,
    latest: Option<(Seq<char>, Seq<char>)>,
) -> bool {
    installed is Some && latest is Some && untagged(installed->0) != untagged((latest->0).0)
}

/// The capabilities that a manifest declares.
pub open spec fn declared_capabilities(manifest: Option<ManifestV>) -> Seq<Seq<char>> {
    match manifest {
        Some(found) => match found.capabilities {
            JsonV::Object(members) => enabled_names(members),
            _ => Seq::empty(),
        },
        None => Seq::empty(),
    }
}

/// What is shown of a plugin.
pub open spec fn card_of(manager: ManagerV, def: DefV, facts: FactsV) -> CardV {
    let record = record_or_blank(manager.state.plugins, def.id);
    let latest = latest_of(manager, def.id);
    CardV {
        id: def.id,
        display_name: def.display_name,
        target_hint: if def.target_hint.len() == 0 {
            "目标桌面应用"@
        } else {
            def.target_hint
        },
        enabled: record.enabled,
        installed_version: record.installed_version,
        latest_version: match latest {
            Some(pair) => Some(pair.0),
            None => None,
        },
        latest_asset_name: match latest {
            Some(pair) => Some(pair.1),
            None => None,
        },
        running: facts.running,
        status_message: status_text(record, latest_error_of(manager, def.id), facts),
        phase: phase_of(facts),
        plugin_protocol: match facts.manifest {
            Some(manifest) => manifest.plugin_protocol,
            None => 1,
        },
        update_available: is_outdated(record.installed_version, latest),
        icon_path: facts.icon_path,
        icon_web: "/plugins/"@ + def.id + ".png"@,
        capabilities: declared_capabilities(facts.manifest),
    }
}

/// What is shown of the host and its plugins.
pub struct HostSnapshot {
    pub plugins: Vec<PluginCard>,
    pub auto_start_with_windows: bool,
    pub start_minimized: bool,
    pub data_directory: String,
    pub warning: Option<String>,
    pub host_version: String,
    pub host_latest_version: Option<String>,
    pub host_update_available: bool,
    pub host_release_url: Option<String>,
    pub proxy_mode: ProxyMode,
    pub proxy_url: String,
}

/// The model of a snapshot.
pub struct SnapshotV {
    pub plugins: Seq<CardV>,
    pub auto_start_with_windows: bool,
    pub start_minimized: bool,
    pub data_directory: Seq<char>,
    pub warning: Option<Seq<char>>,
    pub host_version: Seq<char>,
    pub host_latest_version: Option<Seq<char>>,
    pub host_update_available: bool,
    pub host_release_url: Option<Seq<char>>,
    pub proxy_mode: ProxyMode,
    pub proxy_url: Seq<char>,
}

impl View for HostSnapshot {
    type V = SnapshotV;

    open spec fn view(&self) -> SnapshotV {
        SnapshotV {
            plugins: cards_view(self.plugins@),
            auto_start_with_windows: self.auto_start_with_windows,
            start_minimized: self.start_minimized,
            data_directory: self.data_directory@,
            warning: opt_view(self.warning),
            host_version: self.host_version@,
            host_latest_version: opt_view(self.host_latest_version),
            host_update_available: self.host_update_available,
            host_release_url: opt_view(self.host_release_url),
            proxy_mode: self.proxy_mode,
            proxy_url: self.proxy_url@,
        }
    }
}

/// What is shown of the listed plugins.
pub open spec fn cards_of(manager: ManagerV, facts: Seq<FactsV>) -> Seq<CardV> {
    Seq::new(
        manager.catalog.len(),
        |i: int| card_of(manager, manager.catalog[i], facts[i]),
    )
}

/// The plugins whose newest version could not be found, with the reason.
pub open spec fn plugin_failures(manager: ManagerV, defs: Seq<DefV>) -> Seq<Seq<char>>
    decreases defs.len(),
{
    if defs.len() == 0 {
        Seq::empty()
    } else {
        let rest = plugin_failures(manager, defs.drop_last());
        match latest_error_of(manager, defs.last().id) {
            Some(message) => if latest_of(manager, defs.last().id) is None {
                rest.push(defs.last().display_name + "："@ + message)
            } else {
                rest
            },
            None => rest,
        }
    }
}

/// All that could not be found out about newest versions.
pub open spec fn refresh_failures(manager: ManagerV) -> Seq<Seq<char>> {
    let failures = plugin_failures(manager, manager.catalog);
    match manager.host_release_error {
        Some(message) => failures.push("壳："@ + message),
        None => failures,
    }
}

/// The warning with what could not be found out about newest versions.
pub open spec fn full_warning(warning: Option<Seq<char>>, failures: Seq<Seq<char>>) -> Option<
    Seq<char>,
> {
    if failures.len() == 0 {
        warning
    } else {
        match warning {
            Some(text) => Some(text + " 检查更新失败："@ + joined(failures, "；"@)),
            None => Some("检查更新失败："@ + joined(failures, "；"@)),
        }
    }
}

/// What is shown of the host and its plugins.
pub open spec fn snapshot_of(
    manager: ManagerV,
    facts: Seq<FactsV>,
    data_directory: Seq<char>,
    warning: Option<Seq<char>>,
) -> SnapshotV {
    SnapshotV {
        plugins: cards_of(manager, facts),
        auto_start_with_windows: manager.state.auto_start_with_windows,
        start_minimized: manager.state.start_minimized,
        data_directory,
        warning: full_warning(warning, refresh_failures(manager)),
        host_version: "0.1.3"@,
        host_latest_version: manager.host_release.latest_version,
        host_update_available: match manager.host_release.latest_version {
            Some(latest) => version_order(untagged(latest), untagged("0.1.3"@)) == Some(true),
            None => false,
        },
        host_release_url: manager.host_release.release_url,
        proxy_mode: manager.state.proxy.mode,
        proxy_url: manager.state.proxy.url,
    }
}

fn say_standing(record: &PluginRecord, error: Option<&String>, running: bool) -> (r: String)
    ensures
        r@ == standing_message(
            record@,
            match error {
                Some(message) => Some(message@),
                None => None,
            },
            running,
        ),
{
    if record.installed_version.is_none() {
        match error {
            Some(message) => "未安装 · ".to_string().concat(message.as_str()),
            None => "未安装".to_string(),
        }
    } else if !record.enabled {
        "未启用".to_string()
    } else if running {
        "运行中".to_string()
    } else {
        "已启用".to_string()
    }
}

fn say_status(record: &PluginRecord, error: Option<&String>, facts: &PluginFacts) -> (r: String)
    ensures
        r@ == status_text(
            record@,
            match error {
                Some(message) => Some(message@),
                None => None,
            },
            facts@,
        ),
{
    let standing = say_standing(record, error, facts.running);
    if !facts.running {
        return standing;
    }
    match &facts.status {
        Ok(status) => match status.get_str("message") {
            Some(message) => message.clone(),
            None => standing,
        },
        Err(message) => "插件状态不可用：".to_string().concat(message.as_str()),
    }
}

fn say_phase(facts: &PluginFacts) -> (r: String)
    ensures
        r@ == phase_of(facts@),
{
    if !facts.running {
        return "idle".to_string();
    }
    match &facts.status {
        Ok(status) => match status.get_str("phase") {
            Some(phase) => phase.clone(),
            None => "unknown".to_string(),
        },
        Err(_) => "error".to_string(),
    }
}

impl PluginManager {
    fn latest_pair(&self, id: &str) -> (r: Option<&(String, String)>)
        ensures
            (match r {
                Some(pair) => Some((pair.0@, pair.1@)),
                None => None,
            }) == latest_of(self@, id@),
    {
        match self.latest.get(id) {
            Some(pair) => {
                assert(self@.latest[id@] == (pair.0@, pair.1@));
                Some(pair)
            },
            None => None,
        }
    }

    fn latest_error(&self, id: &str) -> (r: Option<&String>)
        ensures
            (match r {
                Some(message) => Some(message@),
                None => None,
            }) == latest_error_of(self@, id@),
    {
        match self.latest_errors.get(id) {
            Some(message) => {
                assert(self@.latest_errors[id@] == message@);
                Some(message)
            },
            None => None,
        }
    }

    /// What is shown of a plugin.
    pub fn card(&self, def: &PluginDef, facts: &PluginFacts) -> (r: PluginCard)
        ensures
            r@ == card_of(self@, def@, facts@),
    {
        let record = match find_record(&self.state.plugins, def.id.as_str()) {
            Some(i) => self.state.plugins[i].copy(),
            None => PluginRecord::blank(def.id.as_str()),
        };
        let (latest_version, latest_asset_name) = match self.latest_pair(def.id.as_str()) {
            Some(pair) => (Some(pair.0.clone()), Some(pair.1.clone())),
            None => (None, None),
        };
        let update_available = match &record.installed_version {
            Some(installed) => match &latest_version {
                Some(latest) => !same(
                    untag(installed.as_str()).as_str(),
                    untag(latest.as_str()).as_str(),
                ),
                None => false,
            },
            None => false,
        };
        let status_message = say_status(&record, self.latest_error(def.id.as_str()), facts);
        let phase = say_phase(facts);
        let plugin_protocol: u32 = match &facts.manifest {
            Some(manifest) => manifest.plugin_protocol,
            None => 1,
        };
        let capabilities = match &facts.manifest {
            Some(manifest) => capability_labels(&manifest.capabilities),
            None => {
                let none: Vec<String> = Vec::new();
                assert(list_view(none@) =~= Seq::empty());
                none
            },
        };
        PluginCard {
            id: def.id.clone(),
            display_name: def.display_name.clone(),
            target_hint: if def.target_hint.as_str().is_empty() {
                "目标桌面应用".to_string()
            } else {
                def.target_hint.clone()
            },
            enabled: record.enabled,
            installed_version: record.installed_version,
            latest_version,
            latest_asset_name,
            running: facts.running,
            status_message,
            phase,
            plugin_protocol,
            update_available,
            icon_path: copy_opt(&facts.icon_path),
            icon_web: "/plugins/".to_string().concat(def.id.as_str()).concat(".png"),
            capabilities,
        }
    }

    fn failures(&self) -> (r: Vec<String>)
        ensures
            list_view(r@) == refresh_failures(self@),
    {
        let ghost defs = self@.catalog;
        let mut out: Vec<String> = Vec::new();
        let mut i: usize = 0;
        assert(list_view(out@) =~= plugin_failures(self@, defs.take(0)));
        while i < self.catalog.len()
            invariant
                i <= self.catalog.len(),
                defs == self@.catalog,
                defs.len() == self.catalog.len(),
                list_view(out@) == plugin_failures(self@, defs.take(i as int)),
            decreases self.catalog.len() - i,
        {
            let def = &self.catalog[i];
            let ghost before = out@;
            proof {
                assert(defs.take(i + 1).drop_last() =~= defs.take(i as int));
                assert(defs.take(i + 1).last() == def@);
            }
            if self.latest_pair(def.id.as_str()).is_none() {
                if let Some(message) = self.latest_error(def.id.as_str()) {
                    let line = def.display_name.clone().concat("：").concat(message.as_str());
                    out.push(line);
                    assert(list_view(out@) =~= list_view(before).push(line@));
                }
            }
            i += 1;
        }
        assert(defs.take(i as int) =~= defs);
        if let Some(message) = &self.host_release_error {
            let ghost before = out@;
            let line = "壳：".to_string().concat(message.as_str());
            out.push(line);
            assert(list_view(out@) =~= list_view(before).push(line@));
        }
        out
    }

    /// What is shown of the host and its plugins, given what was found out of
    /// each listed plugin.
    pub fn snapshot(
        &self,
        facts: &Vec<PluginFacts>,
        data_directory: &str,
        warning: Option<String>,
    ) -> (r: HostSnapshot)
        requires
            facts@.len() == self@.catalog.len(),
        ensures
            r@ == snapshot_of(self@, facts_view(facts@), data_directory@, opt_view(warning)),
    {
        let ghost model = cards_of(self@, facts_view(facts@));
        let mut cards: Vec<PluginCard> = Vec::new();
        let mut i: usize = 0;
        while i < self.catalog.len()
            invariant
                i <= self.catalog.len(),
                facts@.len() == self.catalog.len(),
                self@.catalog.len() == self.catalog.len(),
                cards.len() == i,
                model == cards_of(self@, facts_view(facts@)),
                forall|k: int| 0 <= k < i ==> (#[trigger] cards@[k])@ == model[k],
            decreases self.catalog.len() - i,
        {
            assert(self@.catalog[i as int] == self.catalog@[i as int]@);
            assert(facts_view(facts@)[i as int] == facts@[i as int]@);
            cards.push(self.card(&self.catalog[i], &facts[i]));
            i += 1;
        }
        assert(cards_view(cards@) =~= model);
        let failures = self.failures();
        let full = if failures.len() == 0 {
            warning
        } else {
            let detail = join(&failures, "；");
            Some(
                match warning {
                    Some(text) => text.concat(" 检查更新失败：").concat(detail.as_str()),
                    None => "检查更新失败：".to_string().concat(detail.as_str()),
                },
            )
        };
        let host_version = current_version();
        let host_update_available = match &self.host_release.latest_version {
            Some(latest) => version_newer(latest.as_str(), host_version.as_str()),
            None => false,
        };
        HostSnapshot {
            plugins: cards,
            auto_start_with_windows: self.state.auto_start_with_windows,
            start_minimized: self.state.start_minimized,
            data_directory: data_directory.to_string(),
            warning: full,
            host_version,
            host_latest_version: copy_opt(&self.host_release.latest_version),
            host_update_available,
            host_release_url: copy_opt(&self.host_release.release_url),
            proxy_mode: self.state.proxy.mode,
            proxy_url: self.state.proxy.url.clone(),
        }
    }
}

/// A plugin that does not run is never shown as active: its phase is idle,
/// whatever it last said.
pub proof fn stopped_plugin_is_idle(manager: ManagerV, def: DefV, facts: FactsV)
    requires
        !facts.running,
    ensures
        card_of(manager, def, facts).phase == "idle"@,
        card_of(manager, def, facts).status_message == standing_message(
            record_or_blank(manager.state.plugins, def.id),
            latest_error_of(manager, def.id),
            false,
        ),
{
}

/// A snapshot shows every listed plugin, in the order of the list.
pub proof fn snapshot_shows_every_plugin(
    manager: ManagerV,
    facts: Seq<FactsV>,
    data_directory: Seq<char>,
    warning: Option<Seq<char>>,
)
    ensures
        snapshot_of(manager, facts, data_directory, warning).plugins.len()
            == manager.catalog.len(),
        forall|i: int|
            0 <= i < manager.catalog.len() ==> (#[trigger] snapshot_of(
                manager,
                facts,
                data_directory,
                warning,
            ).plugins[i]).id == manager.catalog[i].id,
{
}

} // verus!
