//! Taking over the media and settings of the standalone programs, once.
use vstd::prelude::*;

use crate::json::{json_parsed, parse_json, Json, JsonV};
use crate::media::{
    adopted, adoption, existing_plan, folder_at, item_with_digest, LibraryV, MediaLibrary,
};
use crate::models::{items_parsed, items_view, parse_items, ItemV, MediaItem, MediaOrigin};
use crate::profile::{normalize_profile, normalized, PluginProfile, ProfileV};
use crate::stamp::now_text;
use crate::table::Table;
use crate::text::{list_view, opt_view, outcome, same};

verus! {

/// The file that says that the migration is done, below the data directory.
pub const MIGRATION_MARKER: &'static str = "migration-standalone-v1.marker";

/// What a migration did.
pub struct MigrationReport {
    pub migrated: bool,
    pub sources: Vec<String>,
    pub media_added: u32,
    pub profiles_written: Vec<String>,
}

/// The model of a report.
pub struct ReportV {
    pub migrated: bool,
    pub sources: Seq<Seq<char>>,
    pub media_added: u32,
    pub profiles_written: Seq<Seq<char>>,
}

impl View for MigrationReport {
    type V = ReportV;

    open spec fn view(&self) -> ReportV {
        ReportV {
            migrated: self.migrated,
            sources: list_view(self.sources@),
            media_added: self.media_added,
            profiles_written: list_view(self.profiles_written@),
        }
    }
}

/// The directories of the standalone programs below the local data directory,
/// with the plugins that follow them.
pub fn default_standalone_sources() -> (r: Vec<(String, String)>)
    ensures
        r@.map_values(|pair: (String, String)| (pair.0@, pair.1@)) == seq![
            ("codex"@, "CodexBackgroundStudio"@),
            ("notion"@, "NotionBackgroundStudio"@),
            ("multica"@, "MulticaBackgroundStudio"@),
        ],
{
    let r: Vec<(String, String)> = vec![
        ("codex".to_string(), "CodexBackgroundStudio".to_string()),
        ("notion".to_string(), "NotionBackgroundStudio".to_string()),
        ("multica".to_string(), "MulticaBackgroundStudio".to_string()),
    ];
    assert(r@.map_values(|pair: (String, String)| (pair.0@, pair.1@)) =~= seq![
        ("codex"@, "CodexBackgroundStudio"@),
        ("notion"@, "NotionBackgroundStudio"@),
        ("multica"@, "MulticaBackgroundStudio"@),
    ]);
    r
}

// ---------------------------------------------------------------------------
// One item
// ---------------------------------------------------------------------------

/// What the file system says of an old item: whether its folder or its file is
/// there, and how its path is written.
pub struct LegacyFile {
    pub present: bool,
    pub path: String,
}

/// What is to be done with an old item.
pub enum LegacyStep {
    /// It cannot be taken over.
    Refused(String),
    /// It is there already, under this identifier.
    Known(String),
    /// It is to be taken over.
    Import,
}

/// The model of a step.
pub enum StepV {
    Refused(Seq<char>),
    Known(Seq<char>),
    Import,
}

impl View for LegacyStep {
    type V = StepV;

    open spec fn view(&self) -> StepV {
        match self {
            LegacyStep::Refused(message) => StepV::Refused(message@),
            LegacyStep::Known(id) => StepV::Known(id@),
            LegacyStep::Import => StepV::Import,
        }
    }
}

/// What is to be done with an old item.
pub open spec fn legacy_step(
    items: Seq<ItemV>,
    item: ItemV,
    present: bool,
    path: Seq<char>,
) -> StepV {
    if item.origin == MediaOrigin::Folder {
        match item.source_url {
            None => StepV::Refused("文件夹源缺少路径。"@),
            Some(folder) => if !present {
                StepV::Refused("文件夹源当前不可访问："@ + path)
            } else {
                match folder_at(items, folder) {
                    Some(existing) => StepV::Known(existing.id),
                    None => StepV::Import,
                }
            },
        }
    } else {
        match item_with_digest(items, item.sha256) {
            Some(existing) => StepV::Known(existing.id),
            None => if !present {
                StepV::Refused("旧媒体文件不存在："@ + path)
            } else {
                StepV::Import
            },
        }
    }
}

/// Decides what is to be done with an old item.
pub fn plan_legacy_item(library: &MediaLibrary, item: &MediaItem, file: &LegacyFile) -> (r:
    LegacyStep)
    ensures
        r@ == legacy_step(library@.items, item@, file.present, file.path@),
{
    if matches!(item.origin, MediaOrigin::Folder) {
        return match &item.source_url {
            None => LegacyStep::Refused("文件夹源缺少路径。".to_string()),
            Some(folder) => {
                if !file.present {
                    return LegacyStep::Refused(
                        "文件夹源当前不可访问：".to_string().concat(file.path.as_str()),
                    );
                }
                match library.folder_item_at(folder.as_str()) {
                    Some(existing) => LegacyStep::Known(existing.id),
                    None => LegacyStep::Import,
                }
            },
        };
    }
    match library.find_by_sha256(item.sha256.as_str()) {
        Some(existing) => LegacyStep::Known(existing.id),
        None => if !file.present {
            LegacyStep::Refused("旧媒体文件不存在：".to_string().concat(file.path.as_str()))
        } else {
            LegacyStep::Import
        },
    }
}

// ---------------------------------------------------------------------------
// A profile
// ---------------------------------------------------------------------------

/// The identifier that an old one was mapped to.
pub open spec fn mapped_id(ids: Map<Seq<char>, Seq<char>>, id: Seq<char>) -> Seq<char> {
    if ids.contains_key(id) {
        ids[id]
    } else {
        id
    }
}

/// A profile whose identifiers are those of this library.
pub open spec fn remapped(profile: ProfileV, ids: Map<Seq<char>, Seq<char>>) -> ProfileV {
    ProfileV {
        active_media_id: match profile.active_media_id {
            Some(id) => Some(mapped_id(ids, id)),
            None => None,
        },
        playlist_ids: profile.playlist_ids.map_values(|id: Seq<char>| mapped_id(ids, id)),
        ..profile
    }
}

/// The model of a map of identifiers.
pub open spec fn ids_view(ids: Map<Seq<char>, String>) -> Map<Seq<char>, Seq<char>> {
    ids.map_values(|id: String| id@)
}

fn map_id(ids: &Table<String>, id: &str) -> (r: String)
    ensures
        r@ == mapped_id(ids_view(ids@), id@),
{
    match ids.get(id) {
        Some(mapped) => {
            assert(ids_view(ids@)[id@] == mapped@);
            mapped.clone()
        },
        None => id.to_string(),
    }
}

/// Gives a profile the identifiers of this library.
pub fn remap_profile_ids(profile: &mut PluginProfile, ids: &Table<String>)
    ensures
        final(profile)@ == remapped(old(profile)@, ids_view(ids@)),
{
    let active = match &profile.active_media_id {
        Some(id) => Some(map_id(ids, id.as_str())),
        None => None,
    };
    let ghost model = list_view(profile.playlist_ids@);
    let mut out: Vec<String> = Vec::new();
    let mut i: usize = 0;
    while i < profile.playlist_ids.len()
        invariant
            i <= profile.playlist_ids.len(),
            out.len() == i,
            model == list_view(profile.playlist_ids@),
            forall|k: int| 0 <= k < i ==> (#[trigger] out@[k])@ == mapped_id(
                ids_view(ids@),
                model[k],
            ),
        decreases profile.playlist_ids.len() - i,
    {
        out.push(map_id(ids, profile.playlist_ids[i].as_str()));
        i += 1;
    }
    assert(list_view(out@) =~= model.map_values(|id: Seq<char>| mapped_id(ids_view(ids@), id)));
    profile.active_media_id = active;
    profile.playlist_ids = out;
}

/// The profile that old settings stand for.
pub fn profile_from_legacy_settings(value: &Json) -> (r: PluginProfile)
    ensures
        r@ == normalized(value@, None),
{
    normalize_profile(value)
}

/// The profile that the text of old settings stands for, with the identifiers
/// of this library.
pub open spec fn legacy_profile(
    raw: Result<Seq<char>, Seq<char>>,
    ids: Map<Seq<char>, Seq<char>>,
) -> Result<ProfileV, Seq<char>> {
    match raw {
        Err(message) => Err(message),
        Ok(text) => match json_parsed(text) {
            Err(message) => Err(message),
            Ok(value) => Ok(remapped(normalized(value, None), ids)),
        },
    }
}

// ---------------------------------------------------------------------------
// The whole migration
// ---------------------------------------------------------------------------

/// A migration under way.
pub struct Migration {
    report: MigrationReport,
    complete: bool,
    source: Option<String>,
    source_complete: bool,
    ids: Table<String>,
}

/// The model of a migration.
pub struct MigrationV {
    pub report: ReportV,
    pub complete: bool,
    pub source: Option<Seq<char>>,
    pub source_complete: bool,
    pub ids: Map<Seq<char>, Seq<char>>,
}

impl View for Migration {
    type V = MigrationV;

    closed spec fn view(&self) -> MigrationV {
        MigrationV {
            report: self.report@,
            complete: self.complete,
            source: opt_view(self.source),
            source_complete: self.source_complete,
            ids: ids_view(self.ids@),
        }
    }
}

/// A migration that has done nothing yet.
pub open spec fn fresh_migration(migrated: bool) -> MigrationV {
    MigrationV {
        report: ReportV {
            migrated,
            sources: Seq::empty(),
            media_added: 0,
            profiles_written: Seq::empty(),
        },
        complete: true,
        source: None,
        source_complete: true,
        ids: Map::empty(),
    }
}

/// The migration after it came to a source, which may not be there.
pub open spec fn entered(state: MigrationV, plugin_id: Seq<char>, is_dir: bool) -> MigrationV {
    if is_dir {
        MigrationV {
            report: ReportV { sources: state.report.sources.push(plugin_id), ..state.report },
            complete: state.complete && state.source_complete,
            source: Some(plugin_id),
            source_complete: true,
            ids: Map::empty(),
        }
    } else {
        MigrationV {
            complete: state.complete && state.source_complete,
            source: None,
            source_complete: true,
            ids: Map::empty(),
            ..state
        }
    }
}

/// The migration after one old item. A refusal leaves the source unfinished.
pub open spec fn after_item(
    state: MigrationV,
    old_id: Seq<char>,
    step: StepV,
    imported: Result<Seq<char>, Seq<char>>,
) -> MigrationV {
    match step {
        StepV::Refused(_) => MigrationV { source_complete: false, ..state },
        StepV::Known(id) => MigrationV { ids: state.ids.insert(old_id, id), ..state },
        StepV::Import => match imported {
            Err(_) => MigrationV { source_complete: false, ..state },
            Ok(id) => MigrationV {
                report: ReportV {
                    media_added: (state.report.media_added + 1) as u32,
                    ..state.report
                },
                ids: if id != old_id {
                    state.ids.insert(old_id, id)
                } else {
                    state.ids
                },
                ..state
            },
        },
    }
}

/// The migration after a profile was written for the source.
pub open spec fn with_written(state: MigrationV, plugin_id: Seq<char>) -> MigrationV {
    MigrationV {
        report: ReportV {
            profiles_written: state.report.profiles_written.push(plugin_id),
            ..state.report
        },
        ..state
    }
}

/// A migration that has finished: its report, and whether it is to be marked
/// as done.
pub struct Finished {
    pub report: MigrationReport,
    pub mark: bool,
}

impl Migration {
    /// Starts a migration. It does nothing where it was marked as done.
    pub fn begin(marked: bool) -> (r: Migration)
        ensures
            r@ == fresh_migration(!marked),
    {
        let r = Migration {
            report: MigrationReport {
                migrated: !marked,
                sources: Vec::new(),
                media_added: 0,
                profiles_written: Vec::new(),
            },
            complete: true,
            source: None,
            source_complete: true,
            ids: Table::new(),
        };
        assert(r@.report.sources =~= Seq::empty());
        assert(r@.report.profiles_written =~= Seq::empty());
        assert(r@.ids =~= Map::empty());
        r
    }

    /// Whether there is anything to be done.
    pub fn is_due(&self) -> (r: bool)
        ensures
            r == self@.report.migrated,
    {
        self.report.migrated
    }

    /// Goes on to the next source; says whether it is there.
    pub fn enter_source(&mut self, plugin_id: &str, is_dir: bool) -> (r: bool)
        ensures
            r == is_dir,
            final(self)@ == entered(old(self)@, plugin_id@, is_dir),
    {
        let ghost sources = self.report.sources@;
        self.complete = self.complete && self.source_complete;
        self.source_complete = true;
        self.ids = Table::new();
        assert(ids_view(self.ids@) =~= Map::empty());
        if is_dir {
            self.report.sources.push(plugin_id.to_string());
            assert(list_view(self.report.sources@) =~= list_view(sources).push(plugin_id@));
            self.source = Some(plugin_id.to_string());
        } else {
            self.source = None;
        }
        is_dir
    }

    /// The items of an old library, given the text of its catalogue. Where it
    /// cannot be read the source stays unfinished.
    pub fn legacy_items(&mut self, raw: Result<String, String>) -> (r: Option<Vec<MediaItem>>)
        ensures
            match old_items(raw) {
                Some(items) => (r matches Some(read) && items_view(read@) == items)
                    && final(self)@ == old(self)@,
                None => r is None && final(self)@ == (MigrationV {
                    source_complete: false,
                    ..old(self)@
                }),
            },
    {
        let read = match raw {
            Err(_) => None,
            Ok(text) => parse_items(text.as_str()),
        };
        if read.is_none() {
            self.source_complete = false;
        }
        read
    }

    /// How many items were taken over so far.
    pub fn media_added(&self) -> (r: u32)
        ensures
            r == self@.report.media_added,
    {
        self.report.media_added
    }

    /// Notes what became of an old item. `imported` is the identifier that it
    /// has here where it was taken over, or why it could not be.
    pub fn record_item(
        &mut self,
        old_id: &str,
        step: LegacyStep,
        imported: Result<String, String>,
    ) -> (r: Result<bool, String>)
        requires
            old(self)@.report.media_added < u32::MAX,
        ensures
            final(self)@ == after_item(old(self)@, old_id@, step@, id_result(imported)),
            outcome(r) == (match step@ {
                StepV::Refused(message) => Err(message),
                StepV::Known(_) => Ok(false),
                StepV::Import => match imported {
                    Ok(_) => Ok(true),
                    Err(message) => Err(message@),
                },
            }),
    {
        let ghost ids = self.ids@;
        match step {
            LegacyStep::Refused(message) => {
                self.source_complete = false;
                Err(message)
            },
            LegacyStep::Known(id) => {
                self.ids.insert(old_id.to_string(), id);
                assert(ids_view(self.ids@) =~= ids_view(ids).insert(old_id@, id@));
                Ok(false)
            },
            LegacyStep::Import => match imported {
                Err(message) => {
                    self.source_complete = false;
                    Err(message)
                },
                Ok(id) => {
                    self.report.media_added = self.report.media_added + 1;
                    if !same(id.as_str(), old_id) {
                        self.ids.insert(old_id.to_string(), id);
                        assert(ids_view(self.ids@) =~= ids_view(ids).insert(old_id@, id@));
                    }
                    Ok(true)
                },
            },
        }
    }

    /// Whether the settings of the source are to be taken over: all its items
    /// were, it has settings, and the plugin has no profile yet.
    pub fn wants_profile(&self, has_settings: bool, has_profile: bool) -> (r: bool)
        ensures
            r == (self@.source_complete && has_settings && !has_profile),
    {
        self.source_complete && has_settings && !has_profile
    }

    /// The profile that old settings stand for. Where they cannot be read the
    /// source stays unfinished.
    pub fn legacy_profile(&mut self, raw: Result<String, String>) -> (r: Result<
        PluginProfile,
        String,
    >)
        ensures
            match legacy_profile(id_result(raw), old(self)@.ids) {
                Ok(profile) => (r matches Ok(made) && made@ == profile) && final(self)@
                    == old(self)@,
                Err(message) => (r matches Err(text) && text@ == message) && final(self)@ == (
                MigrationV { source_complete: false, ..old(self)@ }),
            },
    {
        match raw {
            Err(message) => {
                self.source_complete = false;
                Err(message)
            },
            Ok(text) => match parse_json(text.as_str()) {
                Err(message) => {
                    self.source_complete = false;
                    Err(message)
                },
                Ok(value) => {
                    let mut profile = profile_from_legacy_settings(&value);
                    remap_profile_ids(&mut profile, &self.ids);
                    Ok(profile)
                },
            },
        }
    }

    /// Notes that a profile was written for the source.
    pub fn record_profile(&mut self, plugin_id: &str)
        ensures
            final(self)@ == with_written(old(self)@, plugin_id@),
    {
        let ghost written = self.report.profiles_written@;
        self.report.profiles_written.push(plugin_id.to_string());
        assert(list_view(self.report.profiles_written@) =~= list_view(written).push(plugin_id@));
    }

    /// Ends a migration. It is to be marked as done where every source was
    /// taken over completely.
    pub fn finish(self) -> (r: Finished)
        ensures
            r.report@ == self@.report,
            r.mark == (self@.report.migrated && self@.complete && self@.source_complete),
    {
        let mark = self.report.migrated && self.complete && self.source_complete;
        Finished { report: self.report, mark }
    }
}

/// The identifier or text that was given, or the complaint.
pub open spec fn id_result(r: Result<String, String>) -> Result<Seq<char>, Seq<char>> {
    match r {
        Ok(text) => Ok(text@),
        Err(message) => Err(message@),
    }
}

/// The items of an old catalogue.
pub open spec fn old_items(raw: Result<String, String>) -> Option<Seq<ItemV>> {
    match raw {
        Err(_) => None,
        Ok(text) => items_parsed(text@),
    }
}

/// The JSON value of the mark that a migration leaves.
pub fn marker_value(completed_at: &str, sources: &Vec<String>) -> (r: Json)
    ensures
        r@ == marker_json(completed_at@, list_view(sources@)),
{
    let pairs: Vec<(&str, Json)> = vec![
        ("completedAt", crate::json::text_json(completed_at)),
        ("sources", Json::Array(crate::profile::text_list(sources))),
    ];
    assert(crate::json::pairs_view(pairs@) =~= seq![
        ("completedAt"@, JsonV::Text(completed_at@)),
        ("sources"@, JsonV::Array(crate::profile::text_values(list_view(sources@)))),
    ]);
    crate::json::object_of(pairs)
}

pub open spec fn marker_json(completed_at: Seq<char>, sources: Seq<Seq<char>>) -> JsonV {
    JsonV::Object(
        crate::json::collected(
            seq![
                ("completedAt"@, JsonV::Text(completed_at)),
                ("sources"@, JsonV::Array(crate::profile::text_values(sources))),
            ],
        ),
    )
}

/// The mark that a migration leaves, with the present time.
pub fn migration_marker(sources: &Vec<String>) -> (r: Json)
    ensures
        exists|completed_at: Seq<char>| r@ == #[trigger] marker_json(
            completed_at,
            list_view(sources@),
        ),
{
    let now = now_text();
    let r = marker_value(now.as_str(), sources);
    assert(r@ == marker_json(now@, list_view(sources@)));
    r
}

// ---------------------------------------------------------------------------
// Two runs
// ---------------------------------------------------------------------------

/// An old item, with what was found of its file and what became of the copy and
/// of the catalogue where it is taken over.
pub struct OldItemV {
    pub item: ItemV,
    pub present: bool,
    pub path: Seq<char>,
    pub name_taken: bool,
    pub copied: Result<(), Seq<char>>,
    pub saved: Result<(), Seq<char>>,
}

/// An old program's directory: whether it is there, the items of its catalogue,
/// which may be missing or unreadable, and the text of its settings, if any.
pub struct OldSourceV {
    pub plugin_id: Seq<char>,
    pub is_dir: bool,
    pub items: Option<Option<Seq<OldItemV>>>,
    pub settings: Option<Result<Seq<char>, Seq<char>>>,
}

/// What the host keeps: its library, its profiles, and whether a migration is
/// marked as done.
pub struct HostDataV {
    pub library: LibraryV,
    pub profiles: Map<Seq<char>, ProfileV>,
    pub marked: bool,
}

/// What one old item does to the host and to the migration.
pub open spec fn item_taken(at: (HostDataV, MigrationV), old: OldItemV) -> (HostDataV, MigrationV) {
    let (data, state) = at;
    let step = legacy_step(data.library.items, old.item, old.present, old.path);
    let plan = existing_plan(data.library.items, old.item, old.name_taken);
    let imported = match adoption(data.library, plan, old.copied, old.saved) {
        Ok(item) => Ok(item.id),
        Err(message) => Err(message),
    };
    let library = if step is Import {
        adopted(data.library, plan, old.copied)
    } else {
        data.library
    };
    (HostDataV { library, ..data }, after_item(state, old.item.id, step, imported))
}

/// What the items of an old catalogue do, one after the other.
pub open spec fn items_taken(at: (HostDataV, MigrationV), items: Seq<OldItemV>) -> (
    HostDataV,
    MigrationV,
)
    decreases items.len(),
{
    if items.len() == 0 {
        at
    } else {
        item_taken(items_taken(at, items.drop_last()), items.last())
    }
}

/// What old settings do: they become the profile of a plugin that has none.
pub open spec fn settings_taken(at: (HostDataV, MigrationV), source: OldSourceV) -> (
    HostDataV,
    MigrationV,
) {
    let (data, state) = at;
    if state.source_complete && source.settings is Some && !data.profiles.contains_key(
        source.plugin_id,
    ) {
        match legacy_profile(source.settings->0, state.ids) {
            Ok(profile) => (
                HostDataV { profiles: data.profiles.insert(source.plugin_id, profile), ..data },
                with_written(state, source.plugin_id),
            ),
            Err(_) => (data, MigrationV { source_complete: false, ..state }),
        }
    } else {
        at
    }
}

/// What one old program's directory does.
pub open spec fn source_taken(at: (HostDataV, MigrationV), source: OldSourceV) -> (
    HostDataV,
    MigrationV,
) {
    let (data, before) = at;
    let state = entered(before, source.plugin_id, source.is_dir);
    if !source.is_dir {
        (data, state)
    } else {
        settings_taken(
            match source.items {
                None => (data, state),
                Some(None) => (data, MigrationV { source_complete: false, ..state }),
                Some(Some(items)) => items_taken((data, state), items),
            },
            source,
        )
    }
}

/// What all directories do, one after the other.
pub open spec fn sources_taken(at: (HostDataV, MigrationV), sources: Seq<OldSourceV>) -> (
    HostDataV,
    MigrationV,
)
    decreases sources.len(),
{
    if sources.len() == 0 {
        at
    } else {
        source_taken(sources_taken(at, sources.drop_last()), sources.last())
    }
}

/// A whole migration: what it makes of the host's data, and its report.
pub open spec fn migrated(data: HostDataV, sources: Seq<OldSourceV>) -> (HostDataV, ReportV) {
    let start = fresh_migration(!data.marked);
    if !start.report.migrated {
        (data, start.report)
    } else {
        let (after, state) = sources_taken((data, start), sources);
        (
            HostDataV { marked: state.complete && state.source_complete, ..after },
            state.report,
        )
    }
}

/// A migration that read every source completely is the last one: the next run
/// takes nothing over, says so, and leaves the library and the profiles as they
/// are, whatever the old programs hold by then.
pub proof fn migration_runs_once(
    data: HostDataV,
    sources: Seq<OldSourceV>,
    later: Seq<OldSourceV>,
)
    requires
        migrated(data, sources).0.marked,
    ensures
        migrated(migrated(data, sources).0, later) == (
            migrated(data, sources).0,
            ReportV {
                migrated: false,
                sources: Seq::empty(),
                media_added: 0,
                profiles_written: Seq::empty(),
            },
        ),
{
}

proof fn lemma_items_keep_profiles(at: (HostDataV, MigrationV), items: Seq<OldItemV>)
    ensures
        items_taken(at, items).0.profiles == at.0.profiles,
    decreases items.len(),
{
    if items.len() > 0 {
        lemma_items_keep_profiles(at, items.drop_last());
    }
}

proof fn lemma_sources_keep_profiles(
    at: (HostDataV, MigrationV),
    sources: Seq<OldSourceV>,
    id: Seq<char>,
)
    requires
        at.0.profiles.contains_key(id),
    ensures
        sources_taken(at, sources).0.profiles.contains_key(id),
        sources_taken(at, sources).0.profiles[id] == at.0.profiles[id],
    decreases sources.len(),
{
    if sources.len() > 0 {
        lemma_sources_keep_profiles(at, sources.drop_last(), id);
        let (data, before) = sources_taken(at, sources.drop_last());
        let source = sources.last();
        let state = entered(before, source.plugin_id, source.is_dir);
        if let Some(Some(items)) = source.items {
            lemma_items_keep_profiles((data, state), items);
        }
    }
}

/// A migration never changes a profile that is there.
pub proof fn migration_keeps_profiles(data: HostDataV, sources: Seq<OldSourceV>, id: Seq<char>)
    requires
        data.profiles.contains_key(id),
    ensures
        migrated(data, sources).0.profiles.contains_key(id),
        migrated(data, sources).0.profiles[id] == data.profiles[id],
{
    lemma_sources_keep_profiles((data, fresh_migration(true)), sources, id);
}

/// An item that could not be taken over keeps the migration from being marked
/// as done, whatever follows in the source or after it.
pub proof fn refused_item_keeps_migration_open(
    state: MigrationV,
    old_id: Seq<char>,
    message: Seq<char>,
    imported: Result<Seq<char>, Seq<char>>,
    next: Seq<char>,
    is_dir: bool,
)
    ensures
        !after_item(state, old_id, StepV::Refused(message), imported).source_complete,
        !entered(
            after_item(state, old_id, StepV::Refused(message), imported),
            next,
            is_dir,
        ).complete,
{
}

/// An old item whose file is in the library is not taken over again; its
/// identifier leads to the one that is there.
pub proof fn known_media_is_remapped(
    items: Seq<ItemV>,
    item: ItemV,
    present: bool,
    path: Seq<char>,
    state: MigrationV,
    imported: Result<Seq<char>, Seq<char>>,
)
    requires
        item.origin != MediaOrigin::Folder,
        item_with_digest(items, item.sha256) is Some,
    ensures
        ({
            let step = legacy_step(items, item, present, path);
            let after = after_item(state, item.id, step, imported);
            &&& step == StepV::Known(item_with_digest(items, item.sha256)->0.id)
            &&& after.report == state.report
            &&& mapped_id(after.ids, item.id) == item_with_digest(items, item.sha256)->0.id
        }),
{
}

} // verus!
