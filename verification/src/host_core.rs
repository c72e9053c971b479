//! The host: its plugins, the media library, the server of media, and the
//! profile under which each plugin shows its media.
use vstd::prelude::*;

use crate::records::value_outcome;
use crate::address::url_parsed;
use crate::digest::sha256_of;
use crate::json::{equal_json, same_json, Json, JsonV};
use crate::manifest::{ManifestV, PluginManifest};
use crate::media::{item_with_id, LibraryV, MediaLibrary, ResolvedMedia, ResolvedV};
use crate::media_server::{media_url, MediaServer, ServerV};
use crate::models::{
    items_view, kind_name, kind_text, ItemV, MediaItem, MediaOrigin, SlideshowOrder,
};
use crate::plugins::{
    cards_view, enabled_in, switched, CardV, HostSnapshot, ManagerV, PluginCard, PluginManager,
    SnapshotV,
};
use crate::profile::{
    apply_patch, bounds_ordered, default_schema, default_settings_schema, patched, sanitized,
    try_sanitize_display, PatchV, PluginProfile, ProfilePatch, ProfileV,
};
use crate::protocol::{
    build_configure_params, capability_labels, configure_params, enabled_names, hello_of,
    parse_hello, revision_bytes, revision_digest, ConfigureMedia, ConfigureMediaV, HelloResult,
    HelloV, HOST_PROTOCOL, MAX_MEDIA_BYTES,
};
use crate::table::Table;
use crate::text::{
    contains_item, decimal, decimal_text, find_text, lemma_position_of, list_view, opt_view,
    outcome, position_of, remove_text, same, without_text,
};
use crate::thumbnails::{ThumbnailSource, ThumbnailV};

verus! {

/// How large a file a plugin takes that does not say so.
pub const DEFAULT_WORKER_MAX_MEDIA_BYTES: u64 = 67108864;

/// The host.
pub struct HostCore {
    pub plugins: PluginManager,
    pub library: MediaLibrary,
    pub media_server: MediaServer,
    pub profiles: Table<PluginProfile>,
    pub hello: Table<HelloResult>,
    pub slideshow_ticks: Table<u64>,
    pub last_phase: Table<String>,
}

/// The model of the host.
pub struct CoreV {
    pub plugins: ManagerV,
    pub library: LibraryV,
    pub media_server: ServerV,
    pub profiles: Map<Seq<char>, ProfileV>,
    pub hello: Map<Seq<char>, HelloV>,
    pub slideshow_ticks: Map<Seq<char>, u64>,
    pub last_phase: Map<Seq<char>, Seq<char>>,
}

impl View for HostCore {
    type V = CoreV;

    open spec fn view(&self) -> CoreV {
        CoreV {
            plugins: self.plugins@,
            library: self.library@,
            media_server: self.media_server@,
            profiles: self.profiles@.map_values(|p: PluginProfile| p@),
            hello: self.hello@.map_values(|h: HelloResult| h@),
            slideshow_ticks: self.slideshow_ticks@,
            last_phase: self.last_phase@.map_values(|s: String| s@),
        }
    }
}

/// A host that has read nothing of its plugins yet.
pub open spec fn fresh_core(plugins: ManagerV, library: LibraryV, media_server: ServerV) -> CoreV {
    CoreV {
        plugins,
        library,
        media_server,
        profiles: Map::empty(),
        hello: Map::empty(),
        slideshow_ticks: Map::empty(),
        last_phase: Map::empty(),
    }
}

/// What is said of a plugin without a profile.
pub open spec fn no_profile(id: Seq<char>) -> Seq<char> {
    "插件 "@ + id + " 没有 Profile。"@
}

fn say_no_profile(id: &str) -> (r: String)
    ensures
        r@ == no_profile(id@),
{
    "插件 ".to_string().concat(id).concat(" 没有 Profile。")
}

/// The model of a manifest that may be missing.
pub open spec fn opt_manifest(manifest: Option<&PluginManifest>) -> Option<ManifestV> {
    match manifest {
        Some(found) => Some(found@),
        None => None,
    }
}

/// The settings schema of a plugin: the one it declares, or the default.
pub open spec fn schema_of(manifest: Option<ManifestV>) -> JsonV {
    match manifest {
        Some(found) => if found.settings_schema is Object {
            found.settings_schema
        } else {
            default_schema()
        },
        None => default_schema(),
    }
}

/// The settings schema of a plugin: the one it declares, or the default.
pub fn settings_schema(manifest: Option<&PluginManifest>) -> (r: Json)
    ensures
        r@ == schema_of(opt_manifest(manifest)),
{
    if let Some(found) = manifest {
        if found.settings_schema.as_object().is_some() {
            return found.settings_schema.copy();
        }
    }
    default_settings_schema()
}

/// The protocol that a plugin speaks: as it said, or as its manifest says, or
/// the first.
pub open spec fn protocol_of(core: CoreV, id: Seq<char>, manifest: Option<ManifestV>) -> u32 {
    if core.hello.contains_key(id) {
        core.hello[id].plugin_protocol
    } else {
        match manifest {
            Some(found) => found.plugin_protocol,
            None => 1,
        }
    }
}

/// The capabilities that a plugin has: as it said, or as its manifest says.
pub open spec fn capabilities_of(
    core: CoreV,
    id: Seq<char>,
    manifest: Option<ManifestV>,
) -> Seq<Seq<char>> {
    let declared = if core.hello.contains_key(id) {
        Some(core.hello[id].capabilities)
    } else {
        match manifest {
            Some(found) => Some(found.capabilities),
            None => None,
        }
    };
    match declared {
        Some(JsonV::Object(members)) => enabled_names(members),
        _ => Seq::empty(),
    }
}

/// How large a file a value allows.
pub open spec fn declared_limit(capabilities: JsonV) -> Option<u64> {
    match capabilities.get("maxMediaBytes"@) {
        Some(value) => value.as_u64(),
        None => None,
    }
}

/// How large a file a plugin takes.
pub open spec fn media_limit(core: CoreV, id: Seq<char>, manifest: Option<ManifestV>) -> u64 {
    let said = if core.hello.contains_key(id) {
        declared_limit(core.hello[id].capabilities)
    } else {
        None
    };
    let declared = match said {
        Some(limit) => Some(limit),
        None => match manifest {
            Some(found) => declared_limit(found.capabilities),
            None => None,
        },
    };
    match declared {
        Some(limit) => if 0 < limit <= MAX_MEDIA_BYTES {
            limit
        } else {
            DEFAULT_WORKER_MAX_MEDIA_BYTES
        },
        None => DEFAULT_WORKER_MAX_MEDIA_BYTES,
    }
}

fn read_limit(capabilities: &Json) -> (r: Option<u64>)
    ensures
        r == declared_limit(capabilities@),
{
    match capabilities.get("maxMediaBytes") {
        Some(value) => value.as_u64(),
        None => None,
    }
}

/// The plugin takes media from the host.
pub open spec fn takes_media(core: CoreV, id: Seq<char>, manifest: Option<ManifestV>) -> bool {
    protocol_of(core, id, manifest) >= HOST_PROTOCOL
}

impl HostCore {
    /// A host that has read nothing of its plugins yet.
    pub fn new(plugins: PluginManager, library: MediaLibrary, media_server: MediaServer) -> (r:
        HostCore)
        ensures
            r@ == fresh_core(plugins@, library@, media_server@),
    {
        let r = HostCore {
            plugins,
            library,
            media_server,
            profiles: Table::new(),
            hello: Table::new(),
            slideshow_ticks: Table::new(),
            last_phase: Table::new(),
        };
        assert(r@.profiles =~= Map::empty());
        assert(r@.hello =~= Map::empty());
        assert(r@.last_phase =~= Map::empty());
        r
    }

    /// Goes on with another library and another server: what was read of the
    /// profiles is forgotten.
    pub fn relocate(&mut self, library: MediaLibrary, media_server: MediaServer)
        ensures
            final(self)@ == (CoreV {
                library: library@,
                media_server: media_server@,
                profiles: Map::empty(),
                ..old(self)@
            }),
    {
        self.library = library;
        self.media_server = media_server;
        self.profiles = Table::new();
        assert(self@.profiles =~= Map::empty());
    }

    /// Notes the profile of a plugin.
    pub fn put_profile(&mut self, id: &str, profile: PluginProfile)
        ensures
            final(self)@ == (CoreV {
                profiles: old(self)@.profiles.insert(id@, profile@),
                ..old(self)@
            }),
    {
        let ghost start = self.profiles@;
        self.profiles.insert(id.to_string(), profile);
        assert(start.insert(id@, profile).map_values(|p: PluginProfile| p@) =~= start.map_values(
            |p: PluginProfile| p@,
        ).insert(id@, profile@));
    }

    /// The profile of a plugin.
    pub fn profile(&self, id: &str) -> (r: Option<&PluginProfile>)
        ensures
            match r {
                Some(profile) => self@.profiles.contains_key(id@) && self@.profiles[id@]
                    == profile@,
                None => !self@.profiles.contains_key(id@),
            },
    {
        self.profiles.get(id)
    }

    fn put_hello(&mut self, id: &str, hello: HelloResult)
        ensures
            final(self)@ == (CoreV {
                hello: old(self)@.hello.insert(id@, hello@),
                ..old(self)@
            }),
    {
        let ghost start = self.hello@;
        self.hello.insert(id.to_string(), hello);
        assert(start.insert(id@, hello).map_values(|h: HelloResult| h@) =~= start.map_values(
            |h: HelloResult| h@,
        ).insert(id@, hello@));
    }

    fn drop_hello(&mut self, id: &str)
        ensures
            final(self)@ == (CoreV { hello: old(self)@.hello.remove(id@), ..old(self)@ }),
    {
        let ghost start = self.hello@;
        self.hello.remove(id);
        assert(start.remove(id@).map_values(|h: HelloResult| h@) =~= start.map_values(
            |h: HelloResult| h@,
        ).remove(id@));
    }

    fn put_phase(&mut self, id: &str, phase: &str)
        ensures
            final(self)@ == (CoreV {
                last_phase: old(self)@.last_phase.insert(id@, phase@),
                ..old(self)@
            }),
    {
        let ghost start = self.last_phase@;
        let kept = phase.to_string();
        self.last_phase.insert(id.to_string(), kept);
        assert(start.insert(id@, kept).map_values(|s: String| s@) =~= start.map_values(
            |s: String| s@,
        ).insert(id@, phase@));
    }

    /// The protocol that a plugin speaks.
    pub fn runtime_protocol(&self, id: &str, manifest: Option<&PluginManifest>) -> (r: u32)
        ensures
            r == protocol_of(self@, id@, opt_manifest(manifest)),
    {
        if let Some(hello) = self.hello.get(id) {
            assert(self@.hello[id@] == hello@);
            return hello.plugin_protocol;
        }
        match manifest {
            Some(found) => found.plugin_protocol,
            None => 1,
        }
    }

    /// The capabilities that a plugin has.
    pub fn capabilities(&self, id: &str, manifest: Option<&PluginManifest>) -> (r: Vec<String>)
        ensures
            list_view(r@) == capabilities_of(self@, id@, opt_manifest(manifest)),
    {
        if let Some(hello) = self.hello.get(id) {
            assert(self@.hello[id@] == hello@);
            return capability_labels(&hello.capabilities);
        }
        match manifest {
            Some(found) => capability_labels(&found.capabilities),
            None => {
                let r: Vec<String> = Vec::new();
                assert(list_view(r@) =~= Seq::<Seq<char>>::empty());
                r
            },
        }
    }

    /// How large a file a plugin takes.
    pub fn max_media_bytes(&self, id: &str, manifest: Option<&PluginManifest>) -> (r: u64)
        ensures
            r == media_limit(self@, id@, opt_manifest(manifest)),
    {
        let said: Option<u64> = match self.hello.get(id) {
            Some(hello) => {
                assert(self@.hello[id@] == hello@);
                read_limit(&hello.capabilities)
            },
            None => None,
        };
        let declared: Option<u64> = match said {
            Some(limit) => Some(limit),
            None => match manifest {
                Some(found) => read_limit(&found.capabilities),
                None => None,
            },
        };
        match declared {
            Some(limit) => if limit > 0 && limit <= MAX_MEDIA_BYTES {
                limit
            } else {
                DEFAULT_WORKER_MAX_MEDIA_BYTES
            },
            None => DEFAULT_WORKER_MAX_MEDIA_BYTES,
        }
    }
}

// ---------------------------------------------------------------------------
// Profiles
// ---------------------------------------------------------------------------

/// The host with the display settings of a plugin as its schema allows them.
pub open spec fn normalized_core(core: CoreV, id: Seq<char>, schema: JsonV) -> CoreV {
    let profile = core.profiles[id];
    let display = sanitized(profile.display, Some(schema));
    if same_json(display, profile.display) {
        core
    } else {
        CoreV { profiles: core.profiles.insert(id, ProfileV { display, ..profile }), ..core }
    }
}

/// The profile shows a media item.
pub open spec fn uses_media(profile: ProfileV, media_id: Seq<char>) -> bool {
    profile.active_media_id == Some(media_id) || profile.playlist_ids.contains(media_id)
}

fn check_use(profile: &PluginProfile, media_id: &str) -> (r: bool)
    ensures
        r == uses_media(profile@, media_id@),
{
    let active = match &profile.active_media_id {
        Some(id) => same(id.as_str(), media_id),
        None => false,
    };
    active || contains_item(&profile.playlist_ids, media_id)
}

/// The first of some texts that is another one.
pub open spec fn first_other(ids: Seq<Seq<char>>, id: Seq<char>) -> Option<Seq<char>>
    decreases ids.len(),
{
    if ids.len() == 0 {
        None
    } else if ids[0] != id {
        Some(ids[0])
    } else {
        first_other(ids.drop_first(), id)
    }
}

fn find_other(ids: &Vec<String>, id: &str) -> (r: Option<String>)
    ensures
        opt_view(r) == first_other(list_view(ids@), id@),
{
    let ghost texts = list_view(ids@);
    let mut i: usize = 0;
    assert(texts.skip(0) =~= texts);
    while i < ids.len()
        invariant
            i <= ids.len(),
            texts == list_view(ids@),
            first_other(texts, id@) == first_other(texts.skip(i as int), id@),
        decreases ids.len() - i,
    {
        assert(texts.skip(i as int)[0] == ids@[i as int]@);
        assert(texts.skip(i as int).drop_first() =~= texts.skip(i + 1));
        if !same(ids[i].as_str(), id) {
            return Some(ids[i].clone());
        }
        i += 1;
    }
    None
}

/// The profile once a media item is gone: what it showed of it is replaced by
/// the next of its playlist.
pub open spec fn without_media(profile: ProfileV, media_id: Seq<char>) -> ProfileV {
    ProfileV {
        active_media_id: if profile.active_media_id == Some(media_id) {
            first_other(profile.playlist_ids, media_id)
        } else {
            profile.active_media_id
        },
        playlist_ids: without_text(profile.playlist_ids, media_id),
        ..profile
    }
}

/// What comes of choosing the media item that a plugin shows.
pub open spec fn activated(core: CoreV, id: Seq<char>, media_id: Option<Seq<char>>) -> (
    Result<(), Seq<char>>,
    CoreV,
) {
    if media_id matches Some(wanted) && item_with_id(core.library.items, wanted) is None {
        (Err("媒体不存在。"@), core)
    } else if !core.profiles.contains_key(id) {
        (Err(no_profile(id)), core)
    } else {
        (
            Ok(()),
            CoreV {
                profiles: core.profiles.insert(
                    id,
                    ProfileV { active_media_id: media_id, ..core.profiles[id] },
                ),
                ..core
            },
        )
    }
}

/// The host once a media item is out of the profile of a plugin.
pub open spec fn dropped(core: CoreV, id: Seq<char>, media_id: Seq<char>) -> CoreV {
    if core.profiles.contains_key(id) {
        CoreV {
            profiles: core.profiles.insert(id, without_media(core.profiles[id], media_id)),
            ..core
        }
    } else {
        core
    }
}

/// Every one of the media items is in the library.
pub open spec fn all_known(items: Seq<ItemV>, ids: Seq<Seq<char>>) -> bool {
    forall|i: int| 0 <= i < ids.len() ==> item_with_id(items, #[trigger] ids[i]) is Some
}

/// What is wrong with a change of a profile.
pub open spec fn patch_check(items: Seq<ItemV>, patch: PatchV) -> Result<(), Seq<char>> {
    if patch.active_media_id matches Some(Some(id)) && item_with_id(items, id) is None {
        Err("当前媒体不存在。"@)
    } else if patch.playlist_ids matches Some(ids) && !all_known(items, ids) {
        Err("轮播列表包含不存在的媒体。"@)
    } else {
        Ok(())
    }
}

/// A profile after a change, as the schema of its plugin allows it.
pub open spec fn updated_profile(profile: ProfileV, patch: PatchV, schema: JsonV) -> ProfileV {
    let changed = patched(profile, patch);
    ProfileV { display: sanitized(changed.display, Some(schema)), ..changed }
}

/// The model of a result that may be missing.
pub open spec fn opt_outcome(r: Option<Result<(), String>>) -> Option<Result<(), Seq<char>>> {
    match r {
        Some(done) => Some(outcome(done)),
        None => None,
    }
}

/// What comes of a change of the profile of a plugin with this schema. `None` is a
/// schema with a number field whose bounds exclude each other.
pub open spec fn updated(core: CoreV, id: Seq<char>, patch: PatchV, schema: JsonV) -> (
    Option<Result<(), Seq<char>>>,
    CoreV,
) {
    match patch_check(core.library.items, patch) {
        Err(message) => (Some(Err(message)), core),
        Ok(_) => if !core.profiles.contains_key(id) {
            (Some(Err(no_profile(id))), core)
        } else if !bounds_ordered(Some(schema)) {
            (None, core)
        } else {
            (
                Some(Ok(())),
                CoreV {
                    profiles: core.profiles.insert(
                        id,
                        updated_profile(core.profiles[id], patch, schema),
                    ),
                    ..core
                },
            )
        },
    }
}

impl HostCore {
    /// Brings the display settings of a plugin in line with its schema, and
    /// says whether the profile has changed. `None` is a schema with a number
    /// field whose bounds exclude each other.
    pub fn normalize_profile_for_plugin(
        &mut self,
        id: &str,
        manifest: Option<&PluginManifest>,
    ) -> (r: Option<Result<bool, String>>)
        ensures
            !old(self)@.profiles.contains_key(id@) ==> (r matches Some(Err(message)) && message@
                == no_profile(id@)) && final(self)@ == old(self)@,
            old(self)@.profiles.contains_key(id@) ==> {
                let schema = schema_of(opt_manifest(manifest));
                let profile = old(self)@.profiles[id@];
                match r {
                    None => !bounds_ordered(Some(schema)) && final(self)@ == old(self)@,
                    Some(Ok(changed)) => {
                        &&& bounds_ordered(Some(schema))
                        &&& changed == !same_json(
                            sanitized(profile.display, Some(schema)),
                            profile.display,
                        )
                        &&& final(self)@ == normalized_core(old(self)@, id@, schema)
                    },
                    Some(Err(_)) => false,
                }
            },
    {
        let mut profile = match self.profiles.get(id) {
            None => {
                return Some(Err(say_no_profile(id)));
            },
            Some(found) => {
                assert(self@.profiles[id@] == found@);
                found.copy()
            },
        };
        let schema = settings_schema(manifest);
        let display = try_sanitize_display(&profile.display, Some(&schema))?;
        if equal_json(&display, &profile.display) {
            return Some(Ok(false));
        }
        profile.display = display;
        self.put_profile(id, profile);
        Some(Ok(true))
    }

    /// Chooses the media item that a plugin shows.
    pub fn set_active_media(&mut self, id: &str, media_id: Option<String>) -> (r: Result<
        (),
        String,
    >)
        ensures
            outcome(r) == activated(old(self)@, id@, opt_view(media_id)).0,
            final(self)@ == activated(old(self)@, id@, opt_view(media_id)).1,
    {
        if let Some(wanted) = &media_id {
            if self.library.get_by_id(wanted.as_str()).is_none() {
                return Err("媒体不存在。".to_string());
            }
        }
        match self.profiles.get(id) {
            None => Err(say_no_profile(id)),
            Some(found) => {
                assert(self@.profiles[id@] == found@);
                let mut profile = found.copy();
                profile.active_media_id = media_id;
                self.put_profile(id, profile);
                Ok(())
            },
        }
    }

    fn knows_all(&self, ids: &Vec<String>) -> (r: bool)
        ensures
            r == all_known(self@.library.items, list_view(ids@)),
    {
        let mut i: usize = 0;
        while i < ids.len()
            invariant
                i <= ids.len(),
                forall|k: int|
                    0 <= k < i ==> item_with_id(
                        self@.library.items,
                        #[trigger] list_view(ids@)[k],
                    ) is Some,
            decreases ids.len() - i,
        {
            assert(list_view(ids@)[i as int] == ids@[i as int]@);
            if self.library.get_by_id(ids[i].as_str()).is_none() {
                return false;
            }
            i += 1;
        }
        true
    }

    /// Changes the profile of a plugin. `None` is a schema with a number field
    /// whose bounds exclude each other.
    pub fn update_profile(
        &mut self,
        id: &str,
        patch: ProfilePatch,
        manifest: Option<&PluginManifest>,
    ) -> (r: Option<Result<(), String>>)
        ensures
            opt_outcome(r) == updated(old(self)@, id@, patch@, schema_of(opt_manifest(manifest))).0,
            final(self)@ == updated(old(self)@, id@, patch@, schema_of(opt_manifest(manifest))).1,
    {
        if let Some(Some(media_id)) = &patch.active_media_id {
            if self.library.get_by_id(media_id.as_str()).is_none() {
                return Some(Err("当前媒体不存在。".to_string()));
            }
        }
        if let Some(ids) = &patch.playlist_ids {
            if !self.knows_all(ids) {
                return Some(Err("轮播列表包含不存在的媒体。".to_string()));
            }
        }
        let mut profile = match self.profiles.get(id) {
            None => {
                return Some(Err(say_no_profile(id)));
            },
            Some(found) => {
                assert(self@.profiles[id@] == found@);
                found.copy()
            },
        };
        let schema = settings_schema(manifest);
        apply_patch(&mut profile, patch);
        profile.display = try_sanitize_display(&profile.display, Some(&schema))?;
        self.put_profile(id, profile);
        Some(Ok(()))
    }

    /// The plugins that show a media item, each once.
    pub fn affected_by(&self, media_id: &str) -> (r: Vec<String>)
        ensures
            list_view(r@).no_duplicates(),
            forall|id: Seq<char>| #[trigger]
                list_view(r@).contains(id) <==> self@.profiles.contains_key(id) && uses_media(
                    self@.profiles[id],
                    media_id@,
                ),
    {
        let keys = self.profiles.keys();
        let ghost names = list_view(keys@);
        let mut out: Vec<String> = Vec::new();
        let mut i: usize = 0;
        while i < keys.len()
            invariant
                i <= keys.len(),
                names == list_view(keys@),
                names.no_duplicates(),
                forall|k: Seq<char>| #[trigger]
                    names.contains(k) <==> self.profiles@.contains_key(k),
                list_view(out@).no_duplicates(),
                forall|id: Seq<char>| #[trigger]
                    list_view(out@).contains(id) <==> names.take(i as int).contains(id)
                        && uses_media(self@.profiles[id], media_id@),
            decreases keys.len() - i,
        {
            let ghost key = names[i as int];
            assert(names.contains(key));
            assert(names.take(i + 1) =~= names.take(i as int).push(key));
            assert(!names.take(i as int).contains(key)) by {
                if names.take(i as int).contains(key) {
                    let k = choose|k: int|
                        0 <= k < i && #[trigger] names.take(i as int)[k] == key;
                    assert(names[k] == names[i as int]);
                }
            }
            if let Some(profile) = self.profiles.get(keys[i].as_str()) {
                assert(self@.profiles[key] == profile@);
                if check_use(profile, media_id) {
                    let ghost before = list_view(out@);
                    out.push(keys[i].clone());
                    assert(list_view(out@) =~= before.push(key));
                    assert forall|id: Seq<char>| #[trigger] list_view(out@).contains(
                        id,
                    ) <==> names.take(i + 1).contains(id) && uses_media(
                        self@.profiles[id],
                        media_id@,
                    ) by {
                        lemma_push_contains(before, key, id);
                        lemma_push_contains(names.take(i as int), key, id);
                    }
                    assert(!before.contains(key));
                    assert(list_view(out@).no_duplicates()) by {
                        assert forall|a: int, b: int|
                            0 <= a < list_view(out@).len() && 0 <= b < list_view(out@).len() && a
                                != b implies list_view(out@)[a] != list_view(out@)[b] by {
                            if a == before.len() {
                                assert(before.contains(before[b]));
                            } else if b == before.len() {
                                assert(before.contains(before[a]));
                            }
                        }
                    }
                } else {
                    assert forall|id: Seq<char>| #[trigger] list_view(out@).contains(
                        id,
                    ) <==> names.take(i + 1).contains(id) && uses_media(
                        self@.profiles[id],
                        media_id@,
                    ) by {
                        lemma_push_contains(names.take(i as int), key, id);
                    }
                }
            }
            i += 1;
        }
        assert(names.take(i as int) =~= names);
        out
    }

    /// Takes a media item out of the profile of a plugin, and says whether
    /// there is one.
    pub fn drop_media(&mut self, id: &str, media_id: &str) -> (r: bool)
        ensures
            r == old(self)@.profiles.contains_key(id@),
            final(self)@ == dropped(old(self)@, id@, media_id@),
    {
        let mut profile = match self.profiles.get(id) {
            None => {
                return false;
            },
            Some(found) => {
                assert(self@.profiles[id@] == found@);
                found.copy()
            },
        };
        let active = match &profile.active_media_id {
            Some(shown) => same(shown.as_str(), media_id),
            None => false,
        };
        if active {
            profile.active_media_id = find_other(&profile.playlist_ids, media_id);
        }
        profile.playlist_ids = remove_text(&profile.playlist_ids, media_id);
        self.put_profile(id, profile);
        true
    }

    /// Whether a plugin is new to the host, which then has no profile of it.
    pub fn lacks_profile(&self, id: &str) -> (r: bool)
        ensures
            r == !self@.profiles.contains_key(id@),
    {
        !self.profiles.contains(id)
    }
}

proof fn lemma_push_contains(list: Seq<Seq<char>>, last: Seq<char>, id: Seq<char>)
    ensures
        list.push(last).contains(id) <==> list.contains(id) || id == last,
{
    let pushed = list.push(last);
    if list.contains(id) {
        let k = choose|k: int| 0 <= k < list.len() && list[k] == id;
        assert(pushed[k] == id);
    }
    if id == last {
        assert(pushed[list.len() as int] == id);
    }
    if pushed.contains(id) {
        let k = choose|k: int| 0 <= k < pushed.len() && pushed[k] == id;
        if k < list.len() {
            assert(list[k] == id);
        }
    }
}

proof fn lemma_without_text(list: Seq<Seq<char>>, text: Seq<char>)
    ensures
        !without_text(list, text).contains(text),
    decreases list.len(),
{
    if list.len() > 0 {
        lemma_without_text(list.drop_last(), text);
        if list.last() != text {
            lemma_push_contains(without_text(list.drop_last(), text), list.last(), text);
        }
    }
}

proof fn lemma_first_other(ids: Seq<Seq<char>>, id: Seq<char>)
    ensures
        first_other(ids, id) != Some(id),
    decreases ids.len(),
{
    if ids.len() > 0 {
        lemma_first_other(ids.drop_first(), id);
    }
}

/// A profile out of which a media item was taken does not show it any more.
pub proof fn dropped_media_is_not_shown(profile: ProfileV, media_id: Seq<char>)
    ensures
        !uses_media(without_media(profile, media_id), media_id),
{
    lemma_without_text(profile.playlist_ids, media_id);
    lemma_first_other(profile.playlist_ids, media_id);
}

// ---------------------------------------------------------------------------
// Talking to plugins
// ---------------------------------------------------------------------------

/// What the answer of a plugin to the greeting gives.
pub open spec fn hello_verdict(id: Seq<char>, reply: Result<JsonV, Seq<char>>) -> Result<
    HelloV,
    Seq<char>,
> {
    match reply {
        Err(message) => Err("插件 "@ + id + " hello 失败："@ + message),
        Ok(value) => match hello_of(value) {
            Err(message) => Err(message),
            Ok(hello) => if hello.plugin_id != id {
                Err(
                    "hello.pluginId="@ + hello.plugin_id + " 与宿主插件 "@ + id + " 不一致。"@,
                )
            } else {
                Ok(hello)
            },
        },
    }
}

/// What comes of the answer of a plugin to the greeting.
pub open spec fn greeted(core: CoreV, id: Seq<char>, reply: Result<JsonV, Seq<char>>) -> (
    Result<(), Seq<char>>,
    CoreV,
) {
    match hello_verdict(id, reply) {
        Ok(hello) => (Ok(()), CoreV { hello: core.hello.insert(id, hello), ..core }),
        Err(message) => (Err(message), core),
    }
}

/// The host once a plugin is switched on or off: what one that is switched off has
/// said is forgotten.
pub open spec fn switched_core(core: CoreV, id: Seq<char>, enabled: bool) -> CoreV {
    CoreV {
        plugins: switched(core.plugins, id, enabled).1,
        hello: if enabled {
            core.hello
        } else {
            core.hello.remove(id)
        },
        ..core
    }
}

/// The host once it has forgotten what a plugin said.
pub open spec fn forgotten(core: CoreV, id: Seq<char>) -> CoreV {
    CoreV {
        hello: core.hello.remove(id),
        slideshow_ticks: core.slideshow_ticks.remove(id),
        last_phase: core.last_phase.remove(id),
        ..core
    }
}

/// The host once a plugin has applied its media.
pub open spec fn applied(core: CoreV, id: Seq<char>, result: JsonV) -> CoreV {
    match result.get_str("phase"@) {
        Some(phase) => CoreV { last_phase: core.last_phase.insert(id, phase), ..core },
        None => core,
    }
}

/// How a command of the user is carried out.
#[derive(Clone, Copy, Debug, PartialEq, Eq, Structural)]
pub enum CommandRoute {
    /// The media is sent first, then the command.
    Apply,
    /// The command is sent as it is.
    Forward,
}

/// How a command of the user is carried out.
pub open spec fn command_route(cmd: Seq<char>) -> Result<CommandRoute, Seq<char>> {
    if cmd == "apply"@ {
        Ok(CommandRoute::Apply)
    } else if cmd == "open-ui"@ {
        Err("请在壳内打开插件详情，不再调用 open-ui。"@)
    } else if cmd == "shutdown"@ || cmd == "quit-keep-target"@ || cmd == "pause"@ || cmd
        == "restore"@ || cmd == "status"@ || cmd == "hello"@ {
        Ok(CommandRoute::Forward)
    } else {
        Err("未知命令："@ + cmd)
    }
}

/// Decides how a command of the user is carried out.
pub fn plugin_command(cmd: &str) -> (r: Result<CommandRoute, String>)
    ensures
        (match r {
            Ok(route) => Ok(route),
            Err(message) => Err(message@),
        }) == command_route(cmd@),
{
    if same(cmd, "apply") {
        Ok(CommandRoute::Apply)
    } else if same(cmd, "open-ui") {
        Err("请在壳内打开插件详情，不再调用 open-ui。".to_string())
    } else if same(cmd, "shutdown") || same(cmd, "quit-keep-target") || same(cmd, "pause") || same(
        cmd,
        "restore",
    ) || same(cmd, "status") || same(cmd, "hello") {
        Ok(CommandRoute::Forward)
    } else {
        Err("未知命令：".to_string().concat(cmd))
    }
}

/// The parameters that are sent to a plugin, of which there are none where no
/// media is chosen.
pub fn needed_params(params: Option<Json>) -> (r: Result<Json, String>)
    ensures
        value_outcome(r) == (match params {
            Some(value) => Ok(value@),
            None => Err("请先选择要应用的媒体。"@),
        }),
{
    match params {
        Some(value) => Ok(value),
        None => Err("请先选择要应用的媒体。".to_string()),
    }
}

/// How large a file is in whole units of 1024 times 1024 bytes, the last one
/// counted in full.
pub open spec fn whole_mebibytes(bytes: u64) -> nat {
    ((bytes as nat + 1048575) / 1048576) as nat
}

/// What is said of a file that a plugin does not take.
pub open spec fn too_large(limit: u64, size: u64) -> Seq<char> {
    "当前插件最多接收 "@ + decimal((limit / 1048576) as nat) + " MiB 的单个媒体，所选文件为 "@
        + decimal(whole_mebibytes(size)) + " MiB。"@
}

/// The media that a plugin is sent.
pub open spec fn sent_media(url: Seq<char>, media: ResolvedV) -> ConfigureMediaV {
    ConfigureMediaV {
        url,
        kind: kind_name(media.kind),
        mime_type: media.mime_type,
        sha256: media.sha256,
        byte_size: media.byte_size,
    }
}

/// The parameters that show a media item in a plugin, given what its URL
/// parses to.
pub open spec fn sent_params(
    profile: ProfileV,
    schema: JsonV,
    url: Seq<char>,
    media: ResolvedV,
    parsed: Option<crate::address::UrlV>,
) -> Result<JsonV, Seq<char>> {
    let display = sanitized(profile.display, Some(schema));
    configure_params(
        sha256_of(revision_bytes(media.sha256, display)),
        sent_media(url, media),
        display,
        parsed,
    )
}

/// The media item that a plugin shows, and in what order its folder is gone
/// through.
pub open spec fn shown_media(core: CoreV, id: Seq<char>) -> Result<
    Option<(ItemV, SlideshowOrder)>,
    Seq<char>,
> {
    if !core.profiles.contains_key(id) {
        Err(no_profile(id))
    } else {
        match core.profiles[id].active_media_id {
            None => Ok(None),
            Some(media_id) => match item_with_id(core.library.items, media_id) {
                None => Err("当前激活的媒体不存在。"@),
                Some(item) => Ok(Some((item, core.profiles[id].slideshow.order))),
            },
        }
    }
}

/// The plugin takes a file of this size, or why not.
pub open spec fn size_verdict(
    core: CoreV,
    id: Seq<char>,
    manifest: Option<ManifestV>,
    size: u64,
) -> Result<(), Seq<char>> {
    if size > media_limit(core, id, manifest) {
        Err(too_large(media_limit(core, id, manifest), size))
    } else {
        Ok(())
    }
}

/// What a plugin is sent to show a media item. `None` is a schema with a number
/// field whose bounds exclude each other.
pub open spec fn configured(
    core: CoreV,
    id: Seq<char>,
    media_id: Seq<char>,
    media: ResolvedV,
    manifest: Option<ManifestV>,
) -> Option<Result<JsonV, Seq<char>>> {
    if !core.profiles.contains_key(id) {
        Some(Err(no_profile(id)))
    } else if let Err(message) = size_verdict(core, id, manifest, media.byte_size) {
        Some(Err(message))
    } else {
        match media_url(core.media_server, media_id) {
            None => Some(Err("媒体服务未能为当前媒体生成回环 URL。"@)),
            Some(url) => if !bounds_ordered(Some(schema_of(manifest))) {
                None
            } else {
                Some(
                    sent_params(
                        core.profiles[id],
                        schema_of(manifest),
                        url,
                        media,
                        url_parsed(url),
                    ),
                )
            },
        }
    }
}

/// What a plugin is asked for once its profile has changed.
pub enum PluginCall {
    Configure(Json),
    Restore,
}

/// What a plugin is asked for once its profile has changed, given the
/// parameters that its media needs.
pub fn reconfigure(params: Option<Json>) -> (r: PluginCall)
    ensures
        match params {
            Some(value) => r matches PluginCall::Configure(sent) && sent@ == value@,
            None => r is Restore,
        },
{
    match params {
        Some(value) => PluginCall::Configure(value),
        None => PluginCall::Restore,
    }
}

impl HostCore {
    /// Whether a plugin takes media from the host, and so is greeted.
    pub fn speaks_configure(&self, id: &str, manifest: Option<&PluginManifest>) -> (r: bool)
        ensures
            r == takes_media(self@, id@, opt_manifest(manifest)),
    {
        self.runtime_protocol(id, manifest) >= HOST_PROTOCOL
    }

    /// Takes the answer of a plugin to the greeting.
    pub fn accept_hello(&mut self, id: &str, reply: Result<Json, String>) -> (r: Result<(), String>)
        ensures
            outcome(r) == greeted(old(self)@, id@, value_outcome(reply)).0,
            final(self)@ == greeted(old(self)@, id@, value_outcome(reply)).1,
    {
        let value = match reply {
            Err(message) => {
                return Err(
                    "插件 ".to_string().concat(id).concat(" hello 失败：").concat(
                        message.as_str(),
                    ),
                );
            },
            Ok(value) => value,
        };
        match parse_hello(&value) {
            Err(message) => Err(message),
            Ok(hello) => {
                if !same(hello.plugin_id.as_str(), id) {
                    return Err(
                        "hello.pluginId=".to_string().concat(hello.plugin_id.as_str()).concat(
                            " 与宿主插件 ",
                        ).concat(id).concat(" 不一致。"),
                    );
                }
                self.put_hello(id, hello);
                Ok(())
            },
        }
    }

    /// Forgets what a plugin said, before it is taken off.
    pub fn forget_plugin(&mut self, id: &str)
        ensures
            final(self)@ == forgotten(old(self)@, id@),
    {
        self.drop_hello(id);
        self.slideshow_ticks.remove(id);
        let ghost start = self.last_phase@;
        self.last_phase.remove(id);
        assert(start.remove(id@).map_values(|s: String| s@) =~= start.map_values(
            |s: String| s@,
        ).remove(id@));
    }

    /// Switches a plugin on or off. What one that is switched off has said is
    /// forgotten, whether or not it can be switched.
    pub fn set_enabled(&mut self, id: &str, enabled: bool) -> (r: Result<(), String>)
        ensures
            outcome(r) == switched(old(self)@.plugins, id@, enabled).0,
            final(self)@ == switched_core(old(self)@, id@, enabled),
    {
        if !enabled {
            self.drop_hello(id);
        }
        self.plugins.set_enabled(id, enabled)
    }

    /// Notes the state that a plugin is in after it applied its media.
    pub fn note_apply(&mut self, id: &str, result: &Json)
        ensures
            final(self)@ == applied(old(self)@, id@, result@),
    {
        if let Some(phase) = result.get_str("phase") {
            self.put_phase(id, phase.as_str());
        }
    }

    /// The media item that a plugin shows, and in what order its folder is
    /// gone through.
    pub fn active_media(&self, id: &str) -> (r: Result<Option<(MediaItem, SlideshowOrder)>, String>)
        ensures
            (match r {
                Ok(Some((item, order))) => Ok(Some((item@, order))),
                Ok(None) => Ok(None),
                Err(message) => Err(message@),
            }) == shown_media(self@, id@),
    {
        match self.profiles.get(id) {
            None => Err(say_no_profile(id)),
            Some(profile) => {
                assert(self@.profiles[id@] == profile@);
                match &profile.active_media_id {
                    None => Ok(None),
                    Some(media_id) => match self.library.get_by_id(media_id.as_str()) {
                        None => Err("当前激活的媒体不存在。".to_string()),
                        Some(item) => Ok(Some((item, profile.slideshow.order))),
                    },
                }
            },
        }
    }

    /// Whether a plugin takes a file of this size.
    pub fn check_size(&self, id: &str, manifest: Option<&PluginManifest>, size: u64) -> (r: Result<
        (),
        String,
    >)
        ensures
            outcome(r) == size_verdict(self@, id@, opt_manifest(manifest), size),
    {
        let limit = self.max_media_bytes(id, manifest);
        if size <= limit {
            return Ok(());
        }
        let mut units: u64 = size / 1048576;
        if size % 1048576 != 0 {
            units += 1;
        }
        assert(units as nat == whole_mebibytes(size));
        Err(
            "当前插件最多接收 ".to_string().concat(
                decimal_text(limit / 1048576).as_str(),
            ).concat(" MiB 的单个媒体，所选文件为 ").concat(
                decimal_text(units).as_str(),
            ).concat(" MiB。"),
        )
    }

    /// The parameters that show a media item in a plugin. `None` is a schema
    /// with a number field whose bounds exclude each other.
    pub fn build_configure(
        &self,
        id: &str,
        media_id: &str,
        media: ResolvedMedia,
        manifest: Option<&PluginManifest>,
    ) -> (r: Option<Result<Json, String>>)
        ensures
            (match r {
                Some(params) => Some(value_outcome(params)),
                None => None,
            }) == configured(self@, id@, media_id@, media@, opt_manifest(manifest)),
    {
        let profile = match self.profiles.get(id) {
            None => {
                return Some(Err(say_no_profile(id)));
            },
            Some(found) => found,
        };
        assert(self@.profiles[id@] == profile@);
        if let Err(message) = self.check_size(id, manifest, media.byte_size) {
            return Some(Err(message));
        }
        let url = match self.media_server.url_for(media_id) {
            None => {
                return Some(Err("媒体服务未能为当前媒体生成回环 URL。".to_string()));
            },
            Some(url) => url,
        };
        let schema = settings_schema(manifest);
        let display = try_sanitize_display(&profile.display, Some(&schema))?;
        let ghost model = media@;
        let sent = ConfigureMedia {
            url,
            kind: kind_text(media.kind).to_string(),
            mime_type: media.mime_type,
            sha256: media.sha256,
            byte_size: media.byte_size,
        };
        assert(sent@ == sent_media(url@, model));
        let revision = revision_digest(sent.sha256.as_str(), &display);
        Some(build_configure_params(revision, sent, display))
    }

    /// Whether a plugin is told of a change of its profile.
    pub fn needs_reconfigure(
        &self,
        id: &str,
        manifest: Option<&PluginManifest>,
        running: bool,
    ) -> (r: bool)
        ensures
            r == (takes_media(self@, id@, opt_manifest(manifest)) && running),
    {
        self.speaks_configure(id, manifest) && running
    }
}

/// A plugin of the first protocol, which has not said otherwise, is neither
/// greeted nor sent any media.
pub proof fn first_protocol_gets_no_media(core: CoreV, id: Seq<char>, manifest: Option<ManifestV>)
    requires
        !core.hello.contains_key(id),
        manifest matches Some(found) ==> found.plugin_protocol < HOST_PROTOCOL,
    ensures
        !takes_media(core, id, manifest),
{
}

/// A plugin is taken at its word: once it was greeted, what it said counts for
/// its protocol, whatever its manifest says.
pub proof fn greeting_settles_protocol(
    core: CoreV,
    id: Seq<char>,
    hello: HelloV,
    manifest: Option<ManifestV>,
)
    ensures
        protocol_of(
            CoreV { hello: core.hello.insert(id, hello), ..core },
            id,
            manifest,
        ) == hello.plugin_protocol,
{
}

// ---------------------------------------------------------------------------
// What is shown
// ---------------------------------------------------------------------------

/// An item with the URL at which it can be looked at.
pub open spec fn with_preview(server: ServerV, item: ItemV) -> ItemV {
    ItemV { preview_url: media_url(server, item.id), ..item }
}

/// Cards with the protocols that the plugins speak.
pub open spec fn noted_cards(
    core: CoreV,
    cards: Seq<CardV>,
    manifests: Seq<Option<ManifestV>>,
) -> Seq<CardV> {
    Seq::new(
        cards.len(),
        |i: int|
            CardV { plugin_protocol: protocol_of(core, cards[i].id, manifests[i]), ..cards[i] },
    )
}

/// The states that plugins are in, as their cards say.
pub open spec fn noted_phases(phases: Map<Seq<char>, Seq<char>>, cards: Seq<CardV>) -> Map<
    Seq<char>,
    Seq<char>,
>
    decreases cards.len(),
{
    if cards.len() == 0 {
        phases
    } else {
        noted_phases(phases, cards.drop_last()).insert(cards.last().id, cards.last().phase)
    }
}

/// The models of manifests that may be missing.
pub open spec fn manifests_view(manifests: Seq<Option<PluginManifest>>) -> Seq<
    Option<ManifestV>,
> {
    manifests.map_values(
        |m: Option<PluginManifest>|
            match m {
                Some(found) => Some(found@),
                None => None,
            },
    )
}

/// The card of a plugin.
pub open spec fn card_with_id(cards: Seq<CardV>, id: Seq<char>) -> Option<CardV>
    decreases cards.len(),
{
    if cards.len() == 0 {
        None
    } else if cards[0].id == id {
        Some(cards[0])
    } else {
        card_with_id(cards.drop_first(), id)
    }
}

fn find_card(cards: &Vec<PluginCard>, id: &str) -> (r: Option<PluginCard>)
    ensures
        (match r {
            Some(card) => Some(card@),
            None => None,
        }) == card_with_id(cards_view(cards@), id@),
{
    let ghost model = cards_view(cards@);
    let mut i: usize = 0;
    assert(model.skip(0) =~= model);
    while i < cards.len()
        invariant
            i <= cards.len(),
            model == cards_view(cards@),
            card_with_id(model, id@) == card_with_id(model.skip(i as int), id@),
        decreases cards.len() - i,
    {
        assert(model.skip(i as int)[0] == cards@[i as int]@);
        assert(model.skip(i as int).drop_first() =~= model.skip(i + 1));
        if same(cards[i].id.as_str(), id) {
            return Some(cards[i].copy());
        }
        i += 1;
    }
    None
}

/// All that is shown of one plugin.
pub struct PluginDetail {
    pub plugin: PluginCard,
    pub profile: PluginProfile,
    pub library: Vec<MediaItem>,
    pub thumbnail_sources: Vec<ThumbnailSource>,
    pub settings_schema: Json,
    pub preview_url: Option<String>,
    pub capabilities: Vec<String>,
    pub plugin_protocol: u32,
}

/// The model of all that is shown of one plugin.
pub struct DetailV {
    pub plugin: CardV,
    pub profile: ProfileV,
    pub library: Seq<ItemV>,
    pub thumbnail_sources: Seq<ThumbnailV>,
    pub settings_schema: JsonV,
    pub preview_url: Option<Seq<char>>,
    pub capabilities: Seq<Seq<char>>,
    pub plugin_protocol: u32,
}

/// The models of what thumbnails are made from.
pub open spec fn sources_view(sources: Seq<ThumbnailSource>) -> Seq<ThumbnailV> {
    sources.map_values(|source: ThumbnailSource| source@)
}

impl View for PluginDetail {
    type V = DetailV;

    open spec fn view(&self) -> DetailV {
        DetailV {
            plugin: self.plugin@,
            profile: self.profile@,
            library: items_view(self.library@),
            thumbnail_sources: sources_view(self.thumbnail_sources@),
            settings_schema: self.settings_schema@,
            preview_url: opt_view(self.preview_url),
            capabilities: list_view(self.capabilities@),
            plugin_protocol: self.plugin_protocol,
        }
    }
}

/// All that is shown of a plugin with this card.
pub open spec fn detail_of(
    core: CoreV,
    card: CardV,
    id: Seq<char>,
    manifest: Option<ManifestV>,
    sources: Seq<ThumbnailV>,
) -> DetailV {
    let schema = schema_of(manifest);
    let profile = core.profiles[id];
    DetailV {
        plugin: card,
        profile: ProfileV { display: sanitized(profile.display, Some(schema)), ..profile },
        library: core.library.items.map_values(
            |item: ItemV| with_preview(core.media_server, item),
        ),
        thumbnail_sources: sources,
        settings_schema: schema,
        preview_url: match profile.active_media_id {
            Some(media_id) => media_url(core.media_server, media_id),
            None => None,
        },
        capabilities: capabilities_of(core, id, manifest),
        plugin_protocol: protocol_of(core, id, manifest),
    }
}

/// A profile that shows a media item goes through folders in this order.
pub open spec fn is_order_for(
    profiles: Map<Seq<char>, ProfileV>,
    media_id: Seq<char>,
    order: SlideshowOrder,
    id: Seq<char>,
) -> bool {
    profiles.contains_key(id) && uses_media(profiles[id], media_id) && profiles[id].slideshow.order
        == order
}

impl HostCore {
    /// The order in which a folder of the library is gone through: that of a
    /// profile which shows it, or the default where none does.
    pub fn order_for(&self, media_id: &str) -> (r: SlideshowOrder)
        ensures
            (exists|id: Seq<char>| is_order_for(self@.profiles, media_id@, r, id)) || (r
                == SlideshowOrder::Sequential && forall|id: Seq<char>| #[trigger]
                self@.profiles.contains_key(id) ==> !uses_media(self@.profiles[id], media_id@)),
    {
        let users = self.affected_by(media_id);
        if users.len() == 0 {
            assert forall|id: Seq<char>| #[trigger] self@.profiles.contains_key(
                id,
            ) implies !uses_media(self@.profiles[id], media_id@) by {
                assert(!list_view(users@).contains(id));
            }
            return SlideshowOrder::Sequential;
        }
        let ghost id = users@[0]@;
        assert(list_view(users@)[0] == id);
        assert(list_view(users@).contains(id));
        match self.profiles.get(users[0].as_str()) {
            Some(profile) => {
                assert(self@.profiles[id] == profile@);
                assert(is_order_for(self@.profiles, media_id@, profile.slideshow.order, id));
                profile.slideshow.order
            },
            None => SlideshowOrder::Sequential,
        }
    }

    /// The items of the library, each with the URL at which it can be looked
    /// at.
    pub fn decorate_library(&self) -> (r: Vec<MediaItem>)
        ensures
            items_view(r@) == self@.library.items.map_values(
                |item: ItemV| with_preview(self@.media_server, item),
            ),
    {
        let items = self.library.items();
        let ghost model = items_view(items@);
        let mut out: Vec<MediaItem> = Vec::new();
        let mut i: usize = 0;
        while i < items.len()
            invariant
                i <= items.len(),
                out.len() == i,
                model == items_view(items@),
                forall|k: int|
                    0 <= k < i ==> (#[trigger] out@[k])@ == with_preview(
                        self@.media_server,
                        model[k],
                    ),
            decreases items.len() - i,
        {
            let mut item = items[i].copy();
            item.preview_url = self.media_server.url_for(item.id.as_str());
            assert(item@ == with_preview(self@.media_server, model[i as int]));
            out.push(item);
            i += 1;
        }
        assert(items_view(out@) =~= self@.library.items.map_values(
            |item: ItemV| with_preview(self@.media_server, item),
        ));
        out
    }

    /// Completes what is shown of the plugins, and notes the states they are
    /// in. `manifests` holds those of the plugins in the order of the cards.
    pub fn note_snapshot(
        &mut self,
        snapshot: &mut HostSnapshot,
        manifests: &Vec<Option<PluginManifest>>,
    )
        requires
            manifests.len() == old(snapshot)@.plugins.len(),
        ensures
            final(snapshot)@ == (SnapshotV {
                plugins: noted_cards(
                    old(self)@,
                    old(snapshot)@.plugins,
                    manifests_view(manifests@),
                ),
                ..old(snapshot)@
            }),
            final(self)@ == (CoreV {
                last_phase: noted_phases(old(self)@.last_phase, old(snapshot)@.plugins),
                ..old(self)@
            }),
    {
        let ghost cards = snapshot@.plugins;
        let ghost start = self@;
        let ghost models = manifests_view(manifests@);
        let mut i: usize = 0;
        assert(cards.take(0).len() == 0);
        while i < snapshot.plugins.len()
            invariant
                i <= snapshot.plugins.len(),
                snapshot.plugins.len() == cards.len(),
                manifests.len() == cards.len(),
                models == manifests_view(manifests@),
                cards == old(snapshot)@.plugins,
                snapshot@ == (SnapshotV { plugins: snapshot@.plugins, ..old(snapshot)@ }),
                self@ == (CoreV {
                    last_phase: noted_phases(start.last_phase, cards.take(i as int)),
                    ..start
                }),
                forall|k: int|
                    0 <= k < i ==> (#[trigger] snapshot.plugins@[k])@ == noted_cards(
                        start,
                        cards,
                        models,
                    )[k],
                forall|k: int|
                    i <= k < cards.len() ==> (#[trigger] snapshot.plugins@[k])@ == cards[k],
            decreases cards.len() - i,
        {
            let ghost at = i as int;
            let mut card = snapshot.plugins[i].copy();
            assert(snapshot.plugins@[at]@ == cards[at]);
            let manifest = match &manifests[i] {
                Some(found) => Some(found),
                None => None,
            };
            assert(opt_manifest(manifest) == models[at]);
            card.plugin_protocol = self.runtime_protocol(card.id.as_str(), manifest);
            assert(cards.take(at + 1).drop_last() =~= cards.take(at));
            assert(cards.take(at + 1).last() == cards[at]);
            self.put_phase(card.id.as_str(), card.phase.as_str());
            assert(card@ == noted_cards(start, cards, models)[at]);
            snapshot.plugins.set(i, card);
            i += 1;
        }
        assert(cards.take(i as int) =~= cards);
        assert(snapshot@.plugins =~= noted_cards(start, cards, models));
    }

    /// All that is shown of a plugin. `None` is a schema with a number field
    /// whose bounds exclude each other.
    pub fn plugin_detail(
        &self,
        id: &str,
        cards: &Vec<PluginCard>,
        manifest: Option<&PluginManifest>,
        sources: Vec<ThumbnailSource>,
    ) -> (r: Option<Result<PluginDetail, String>>)
        ensures
            match card_with_id(cards_view(cards@), id@) {
                None => r matches Some(Err(message)) && message@ == "未知插件："@ + id@,
                Some(card) => if !self@.profiles.contains_key(id@) {
                    r matches Some(Err(message)) && message@ == no_profile(id@)
                } else if !bounds_ordered(Some(schema_of(opt_manifest(manifest)))) {
                    r is None
                } else {
                    r matches Some(Ok(detail)) && detail@ == detail_of(
                        self@,
                        card,
                        id@,
                        opt_manifest(manifest),
                        sources_view(sources@),
                    )
                },
            },
    {
        let plugin = match find_card(cards, id) {
            None => {
                return Some(Err("未知插件：".to_string().concat(id)));
            },
            Some(card) => card,
        };
        let mut profile = match self.profiles.get(id) {
            None => {
                return Some(Err(say_no_profile(id)));
            },
            Some(found) => {
                assert(self@.profiles[id@] == found@);
                found.copy()
            },
        };
        let settings_schema = settings_schema(manifest);
        profile.display = try_sanitize_display(&profile.display, Some(&settings_schema))?;
        let preview_url = match &profile.active_media_id {
            Some(media_id) => self.media_server.url_for(media_id.as_str()),
            None => None,
        };
        Some(
            Ok(
                PluginDetail {
                    plugin,
                    profile,
                    library: self.decorate_library(),
                    thumbnail_sources: sources,
                    settings_schema,
                    preview_url,
                    capabilities: self.capabilities(id, manifest),
                    plugin_protocol: self.runtime_protocol(id, manifest),
                },
            ),
        )
    }
}

/// The state that a plugin is in is the one that its card shows.
pub proof fn noted_phase_is_shown(
    phases: Map<Seq<char>, Seq<char>>,
    cards: Seq<CardV>,
    i: int,
)
    requires
        0 <= i < cards.len(),
        forall|a: int, b: int|
            0 <= a < b < cards.len() ==> (#[trigger] cards[a]).id != (#[trigger] cards[b]).id,
    ensures
        noted_phases(phases, cards).contains_key(cards[i].id),
        noted_phases(phases, cards)[cards[i].id] == cards[i].phase,
    decreases cards.len(),
{
    if i < cards.len() - 1 {
        let rest = cards.drop_last();
        assert forall|a: int, b: int| 0 <= a < b < rest.len() implies (#[trigger] rest[a]).id != (
        #[trigger] rest[b]).id by {
            assert(cards[a].id != cards[b].id);
        }
        noted_phase_is_shown(phases, rest, i);
        assert(cards[i].id != cards[cards.len() - 1].id);
    }
}

// ---------------------------------------------------------------------------
// Refreshing, and the slideshow
// ---------------------------------------------------------------------------

/// How a media item is refreshed.
pub enum RefreshRoute {
    /// It is downloaded again from this URL.
    Download(String),
    /// Its folder goes on to another file, in this order.
    Advance(MediaItem, SlideshowOrder),
}

/// The model of how a media item is refreshed.
pub enum RouteV {
    Download(Seq<char>),
    Advance(ItemV, SlideshowOrder),
}

impl View for RefreshRoute {
    type V = RouteV;

    open spec fn view(&self) -> RouteV {
        match self {
            RefreshRoute::Download(url) => RouteV::Download(url@),
            RefreshRoute::Advance(item, order) => RouteV::Advance(item@, *order),
        }
    }
}

/// How a media item is refreshed for a plugin, or why it cannot be.
pub open spec fn refresh_route(core: CoreV, id: Seq<char>, media_id: Seq<char>) -> Result<
    RouteV,
    Seq<char>,
> {
    match item_with_id(core.library.items, media_id) {
        None => Err("媒体项目不存在。"@),
        Some(item) => match item.origin {
            MediaOrigin::Api => match item.source_url {
                Some(url) => Ok(RouteV::Download(url)),
                None => Err("该媒体不是随机 API 来源。"@),
            },
            MediaOrigin::Folder => Ok(
                RouteV::Advance(
                    item,
                    if core.profiles.contains_key(id) {
                        core.profiles[id].slideshow.order
                    } else {
                        SlideshowOrder::Sequential
                    },
                ),
            ),
            _ => Err("只有文件夹源或随机 API 可以刷新。"@),
        },
    }
}

/// The slideshow of a plugin is to be driven.
pub open spec fn runs_slideshow_of(
    core: CoreV,
    id: Seq<char>,
    manifest: Option<ManifestV>,
) -> bool {
    core.profiles.contains_key(id) && core.profiles[id].slideshow.enabled && enabled_in(
        core.plugins,
        id,
    ) && takes_media(core, id, manifest)
}

/// How many seconds a plugin shows each media item.
pub open spec fn interval_for(core: CoreV, id: Seq<char>) -> u64 {
    if core.profiles.contains_key(id) {
        core.profiles[id].slideshow.interval_seconds
    } else {
        300
    }
}

/// When a plugin last went on, in milliseconds: now, where it never did.
pub open spec fn tick_of(core: CoreV, id: Seq<char>, now: u64) -> u64 {
    if core.slideshow_ticks.contains_key(id) {
        core.slideshow_ticks[id]
    } else {
        now
    }
}

/// How many whole seconds have gone by.
pub open spec fn seconds_since(tick: u64, now: u64) -> int {
    if now < tick {
        0
    } else {
        (now - tick) / 1000
    }
}

/// A plugin goes on to its next media item.
pub open spec fn is_due(core: CoreV, id: Seq<char>, now: u64, running: bool) -> bool {
    running && seconds_since(tick_of(core, id, now), now) >= interval_for(core, id)
}

/// The host once the clock of a plugin whose slideshow is on was started, where it
/// was not running yet.
pub open spec fn clock_started(core: CoreV, id: Seq<char>, now: u64) -> CoreV {
    if core.profiles.contains_key(id) && core.profiles[id].slideshow.enabled {
        CoreV {
            slideshow_ticks: core.slideshow_ticks.insert(id, tick_of(core, id, now)),
            ..core
        }
    } else {
        core
    }
}

/// The host once it was seen whether a plugin goes on: its clock starts anew where
/// it does.
pub open spec fn clock_read(core: CoreV, id: Seq<char>, now: u64, running: bool) -> CoreV {
    CoreV {
        slideshow_ticks: core.slideshow_ticks.insert(
            id,
            if is_due(core, id, now, running) {
                now
            } else {
                tick_of(core, id, now)
            },
        ),
        ..core
    }
}

/// The media items that a profile goes through.
pub open spec fn played_ids(profile: ProfileV) -> Seq<Seq<char>> {
    if profile.playlist_ids.len() == 0 {
        match profile.active_media_id {
            Some(id) => seq![id],
            None => Seq::empty(),
        }
    } else {
        profile.playlist_ids
    }
}

/// The place of the media item that is shown; the first, where it is not in
/// the list.
pub open spec fn place_in(ids: Seq<Seq<char>>, shown: Option<Seq<char>>) -> int {
    match shown {
        Some(id) => match position_of(ids, id) {
            Some(i) => i,
            None => 0,
        },
        None => 0,
    }
}

/// The place that a slideshow goes on to.
pub open spec fn next_place(place: int, count: nat, order: SlideshowOrder, seed: usize) -> int {
    match order {
        SlideshowOrder::Sequential => (place + 1) % count as int,
        SlideshowOrder::Random => {
            let candidate = seed as int % count as int;
            if candidate == place {
                (candidate + 1) % count as int
            } else {
                candidate
            }
        },
    }
}

/// What the slideshow of a plugin does.
pub enum SlideshowStep {
    /// There is nothing to go on to.
    Stay,
    /// The folder that is shown goes on to another file, in this order.
    Advance(MediaItem, SlideshowOrder),
    /// Another media item is shown.
    Moved,
}

/// The media item that a profile shows is a folder of the library.
pub open spec fn shows_folder(core: CoreV, profile: ProfileV) -> bool {
    profile.active_media_id matches Some(id) && item_with_id(core.library.items, id) matches Some(
        item,
    ) && item.origin == MediaOrigin::Folder
}

/// The media item that a slideshow goes on to.
pub open spec fn next_media(profile: ProfileV, seed: usize) -> Seq<char> {
    let ids = played_ids(profile);
    ids[next_place(
        place_in(ids, profile.active_media_id),
        ids.len(),
        profile.slideshow.order,
        seed,
    )]
}

/// The model of what a slideshow does.
pub enum MoveV {
    Stay,
    Advance(ItemV, SlideshowOrder),
    Moved,
}

impl View for SlideshowStep {
    type V = MoveV;

    open spec fn view(&self) -> MoveV {
        match self {
            SlideshowStep::Stay => MoveV::Stay,
            SlideshowStep::Advance(item, order) => MoveV::Advance(item@, *order),
            SlideshowStep::Moved => MoveV::Moved,
        }
    }
}

/// What comes of moving the slideshow of a plugin on.
pub open spec fn advanced(core: CoreV, id: Seq<char>, seed: usize) -> (
    Result<MoveV, Seq<char>>,
    CoreV,
) {
    if !core.profiles.contains_key(id) {
        (Err(no_profile(id)), core)
    } else {
        let profile = core.profiles[id];
        if shows_folder(core, profile) {
            (
                Ok(
                    MoveV::Advance(
                        item_with_id(core.library.items, profile.active_media_id->0)->0,
                        profile.slideshow.order,
                    ),
                ),
                core,
            )
        } else if played_ids(profile).len() < 2 {
            (Ok(MoveV::Stay), core)
        } else {
            (
                Ok(MoveV::Moved),
                CoreV {
                    profiles: core.profiles.insert(
                        id,
                        ProfileV { active_media_id: Some(next_media(profile, seed)), ..profile },
                    ),
                    ..core
                },
            )
        }
    }
}

/// The plugin was active when it was last seen.
pub open spec fn was_active(core: CoreV, id: Seq<char>) -> bool {
    core.last_phase.contains_key(id) && core.last_phase[id] == "active"@
}

impl HostCore {
    /// Decides how a media item is refreshed for a plugin.
    pub fn refresh_media(&self, id: &str, media_id: &str) -> (r: Result<RefreshRoute, String>)
        ensures
            (match r {
                Ok(route) => Ok(route@),
                Err(message) => Err(message@),
            }) == refresh_route(self@, id@, media_id@),
    {
        let item = match self.library.get_by_id(media_id) {
            None => {
                return Err("媒体项目不存在。".to_string());
            },
            Some(item) => item,
        };
        match item.origin {
            MediaOrigin::Api => match item.source_url {
                Some(url) => Ok(RefreshRoute::Download(url)),
                None => Err("该媒体不是随机 API 来源。".to_string()),
            },
            MediaOrigin::Folder => {
                let order = match self.profiles.get(id) {
                    Some(profile) => {
                        assert(self@.profiles[id@] == profile@);
                        profile.slideshow.order
                    },
                    None => SlideshowOrder::Sequential,
                };
                Ok(RefreshRoute::Advance(item, order))
            },
            _ => Err("只有文件夹源或随机 API 可以刷新。".to_string()),
        }
    }

    /// Starts the clock of a plugin whose slideshow is on, where it is not
    /// running yet.
    pub fn note_slideshow(&mut self, id: &str, now: u64)
        ensures
            final(self)@ == clock_started(old(self)@, id@, now),
    {
        let enabled = match self.profiles.get(id) {
            Some(profile) => {
                assert(self@.profiles[id@] == profile@);
                profile.slideshow.enabled
            },
            None => false,
        };
        if enabled {
            self.start_clock(id, now);
        }
    }

    fn start_clock(&mut self, id: &str, now: u64) -> (r: u64)
        ensures
            r == tick_of(old(self)@, id@, now),
            final(self)@ == (CoreV {
                slideshow_ticks: old(self)@.slideshow_ticks.insert(id@, r),
                ..old(self)@
            }),
    {
        let tick: u64 = match self.slideshow_ticks.get(id) {
            Some(tick) => *tick,
            None => now,
        };
        self.slideshow_ticks.insert(id.to_string(), tick);
        tick
    }

    /// Whether the slideshow of a plugin is to be driven.
    pub fn runs_slideshow(&self, id: &str, manifest: Option<&PluginManifest>) -> (r: bool)
        ensures
            r == runs_slideshow_of(self@, id@, opt_manifest(manifest)),
    {
        match self.profiles.get(id) {
            None => false,
            Some(profile) => {
                assert(self@.profiles[id@] == profile@);
                profile.slideshow.enabled && self.plugins.is_enabled(id) && self.speaks_configure(
                    id,
                    manifest,
                )
            },
        }
    }

    /// Whether a plugin goes on to its next media item. Its clock starts anew
    /// where it does.
    pub fn slideshow_due(&mut self, id: &str, now: u64, running: bool) -> (r: bool)
        ensures
            r == is_due(old(self)@, id@, now, running),
            final(self)@ == clock_read(old(self)@, id@, now, running),
    {
        let interval: u64 = match self.profiles.get(id) {
            Some(profile) => {
                assert(self@.profiles[id@] == profile@);
                profile.slideshow.interval_seconds
            },
            None => 300,
        };
        let tick = self.start_clock(id, now);
        let elapsed: u64 = if now < tick {
            0
        } else {
            (now - tick) / 1000
        };
        if elapsed < interval || !running {
            return false;
        }
        self.slideshow_ticks.insert(id.to_string(), now);
        assert(self.slideshow_ticks@ =~= old(self)@.slideshow_ticks.insert(id@, now));
        true
    }

    /// Moves the slideshow of a plugin on.
    pub fn advance_slideshow(&mut self, id: &str, seed: usize) -> (r: Result<
        SlideshowStep,
        String,
    >)
        ensures
            (match r {
                Ok(step) => Ok(step@),
                Err(message) => Err(message@),
            }) == advanced(old(self)@, id@, seed).0,
            final(self)@ == advanced(old(self)@, id@, seed).1,
    {
        let mut profile = match self.profiles.get(id) {
            None => {
                return Err(say_no_profile(id));
            },
            Some(found) => {
                assert(self@.profiles[id@] == found@);
                found.copy()
            },
        };
        if let Some(shown) = &profile.active_media_id {
            if let Some(item) = self.library.get_by_id(shown.as_str()) {
                if matches!(item.origin, MediaOrigin::Folder) {
                    return Ok(SlideshowStep::Advance(item, profile.slideshow.order));
                }
            }
        }
        let count = profile.playlist_ids.len();
        if count < 2 {
            return Ok(SlideshowStep::Stay);
        }
        let ghost model = profile@;
        assert(played_ids(model) == model.playlist_ids);
        let place: usize = match &profile.active_media_id {
            Some(shown) => match find_text(&profile.playlist_ids, shown.as_str()) {
                Some(i) => i,
                None => 0,
            },
            None => 0,
        };
        assert(place == place_in(model.playlist_ids, model.active_media_id));
        let next: usize = match profile.slideshow.order {
            SlideshowOrder::Sequential => (place + 1) % count,
            SlideshowOrder::Random => {
                let candidate: usize = seed % count;
                if candidate == place {
                    (candidate + 1) % count
                } else {
                    candidate
                }
            },
        };
        profile.active_media_id = Some(profile.playlist_ids[next].clone());
        assert(profile@ == (ProfileV {
            active_media_id: Some(next_media(model, seed)),
            ..model
        }));
        self.put_profile(id, profile);
        Ok(SlideshowStep::Moved)
    }

    /// Whether a plugin applies its media again once its slideshow went on.
    pub fn applies_again(&self, id: &str) -> (r: bool)
        ensures
            r == was_active(self@, id@),
    {
        match self.last_phase.get(id) {
            Some(phase) => {
                assert(self@.last_phase[id@] == phase@);
                same(phase.as_str(), "active")
            },
            None => false,
        }
    }
}

/// A slideshow over distinct media items goes on to another one than it shows,
/// in whatever order it goes.
pub proof fn slideshow_changes_the_media(profile: ProfileV, seed: usize)
    requires
        profile.playlist_ids.len() >= 2,
        profile.playlist_ids.no_duplicates(),
    ensures
        Some(next_media(profile, seed)) != profile.active_media_id,
        profile.playlist_ids.contains(next_media(profile, seed)),
{
    let ids = profile.playlist_ids;
    let place = place_in(ids, profile.active_media_id);
    if let Some(shown) = profile.active_media_id {
        lemma_position_of(ids, shown);
    }
    assert(0 <= place < ids.len());
    let next = next_place(place, ids.len(), profile.slideshow.order, seed);
    lemma_next_place(place, ids.len(), profile.slideshow.order, seed);
    assert(0 <= next < ids.len() && next != place);
    assert(ids.contains(ids[next]));
    if let Some(shown) = profile.active_media_id {
        if ids[next] == shown {
            assert(position_of(ids, shown) is Some);
            assert(ids[place] == shown);
        }
    }
}

proof fn lemma_next_place(place: int, count: nat, order: SlideshowOrder, seed: usize)
    requires
        count >= 2,
        0 <= place < count,
    ensures
        0 <= next_place(place, count, order, seed) < count,
        next_place(place, count, order, seed) != place,
{
    if place + 1 < count {
        assert((place + 1) % count as int == place + 1) by (nonlinear_arith)
            requires
                0 <= place,
                place + 1 < count,
        ;
    } else {
        assert((place + 1) % count as int == 0) by (nonlinear_arith)
            requires
                place + 1 == count,
                count >= 2,
        ;
    }
}

/// A slideshow in order goes on to the next place, and from the last one back
/// to the first.
pub proof fn sequential_slideshow_goes_round(place: int, count: nat, seed: usize)
    requires
        count >= 2,
        0 <= place < count,
    ensures
        next_place(place, count, SlideshowOrder::Sequential, seed) == (if place + 1 < count {
            place + 1
        } else {
            0
        }),
{
    lemma_next_place(place, count, SlideshowOrder::Sequential, seed);
    if place + 1 < count {
        assert((place + 1) % count as int == place + 1) by (nonlinear_arith)
            requires
                0 <= place,
                place + 1 < count,
        ;
    } else {
        assert((place + 1) % count as int == 0) by (nonlinear_arith)
            requires
                place + 1 == count,
                count >= 2,
        ;
    }
}

/// A slideshow that just went on does not go on again before its time is over.
pub proof fn slideshow_waits_its_interval(core: CoreV, id: Seq<char>, now: u64, later: u64)
    requires
        core.slideshow_ticks.contains_key(id),
        core.slideshow_ticks[id] == now,
        now <= later,
        later - now < 1000 * interval_for(core, id),
    ensures
        !is_due(core, id, later, true),
{
}

} // verus!
