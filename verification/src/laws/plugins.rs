//! Laws of the plugins: which are listed, how they are installed, switched and
//! taken off, and what is shown of them.
use vstd::prelude::*;

use crate::catalog::{
    catalog_from, catalog_parsed, def_from, defs_from, first_with_id, icon_file, in_name_order,
    is_merge, last_with_id, listed_plugins, DefV,
};
use crate::host_update::{version_order, ReleaseV};
use crate::json::{lemma_collected_member, lemma_pair_found, names_differ, precedes, JsonV, Num};
use crate::manifest::ManifestV;
use crate::plugins::{
    card_of, changed_record_reads_back, definition_of, enabled_ids_of, enabled_in, entry_check,
    first_package, first_prerelease, fresh_state, full_warning, install_plan, installed,
    installed_version_of, is_outdated, is_package_name, lemma_record_index, package_check,
    plugin_asset, plugin_failures, quitting_pipe, ready_step, record_index, record_json, record_of,
    release_asset, release_path, restored, snapshot_of, standalone_notice, state_json, stored_state,
    switched, uninstalled, with_autostart, with_catalog, with_host_release, with_latest, with_proxy,
    with_record, with_records, FactsV, ManagerV, ReadyV, RecordV, StateV, MAX_ARCHIVE_ENTRIES,
};
use crate::protocol::{enabled_names, is_enabled_capability};
use crate::proxy::{proxy_json, ProxyMode, ProxyV};
use crate::text::{has_prefix, joined, trimmed, untagged, without_front};

verus! {

// ---------------------------------------------------------------------------
// Releases
// ---------------------------------------------------------------------------

/// A version with the letter that a tag has in front is the version itself.
pub proof fn tag_without_its_letter(n: Seq<char>)
    requires
        n.len() > 0 ==> n[0] != 'v',
    ensures
        untagged(n) == n,
        untagged("v"@ + n) == n,
{
    reveal_strlit("v");
    let p = |c: char| c == 'v';
    let tag = "v"@ + n;
    assert(tag[0] == 'v');
    assert(tag.drop_first() =~= n);
    assert(without_front(n, p) == n);
    assert(without_front(tag, p) == without_front(tag.drop_first(), p));
}

/// What the file name of a package looks like.
pub proof fn package_has_prefix_and_suffix(name: Seq<char>, prefix: Seq<char>)
    ensures
        is_package_name(name, prefix) <==> {
            &&& prefix.len() <= name.len() && name.take(prefix.len() as int) == prefix
            &&& 11 <= name.len() && name.skip(name.len() - 11) == "-plugin.zip"@
        },
{
    reveal_strlit("-plugin.zip");
    assert("-plugin.zip"@.len() == 11);
    if prefix.len() <= name.len() {
        assert(name.subrange(0, prefix.len() as int) =~= name.take(prefix.len() as int));
    }
    if 11 <= name.len() {
        assert(name.subrange(name.len() - 11, name.len() as int) =~= name.skip(name.len() - 11));
    }
}

/// The first package for the plugin among the files of a release is found, and
/// nothing where there is none.
pub proof fn first_package_is_found(assets: Seq<JsonV>, prefix: Seq<char>, i: int)
    requires
        0 <= i <= assets.len(),
        i < assets.len() ==> (assets[i].get_str("name"@) matches Some(name) && is_package_name(
            name,
            prefix,
        )),
        forall|k: int|
            0 <= k < i ==> ((#[trigger] assets[k]).get_str("name"@) matches Some(name)
                ==> !is_package_name(name, prefix)),
    ensures
        first_package(assets, prefix) == (if i < assets.len() {
            assets[i].get_str("name"@)
        } else {
            None
        }),
    decreases assets.len(),
{
    if i > 0 {
        let rest = assets.drop_first();
        assert(assets[0].get_str("name"@) matches Some(name) ==> !is_package_name(name, prefix));
        assert forall|k: int| 0 <= k < i - 1 implies ((#[trigger] rest[k]).get_str("name"@) matches Some(
            name,
        ) ==> !is_package_name(name, prefix)) by {
            assert(rest[k] == assets[k + 1]);
        }
        if i < assets.len() {
            assert(rest[i - 1] == assets[i]);
        }
        first_package_is_found(rest, prefix, i - 1);
    }
}

/// A release that is tagged with `v` and a version and has a package for the plugin
/// gives that version and that package.
pub proof fn release_gives_version_and_package(
    release: JsonV,
    prefix: Seq<char>,
    n: Seq<char>,
    assets: Seq<JsonV>,
    i: int,
)
    requires
        n.len() > 0 ==> n[0] != 'v',
        release.get_str("tag_name"@) == Some("v"@ + n) || release.get_str("tag_name"@) == Some(n),
        release.get("assets"@) == Some(JsonV::Array(assets)),
        0 <= i < assets.len(),
        assets[i].get_str("name"@) matches Some(name) && is_package_name(name, prefix),
        forall|k: int|
            0 <= k < i ==> ((#[trigger] assets[k]).get_str("name"@) matches Some(name)
                ==> !is_package_name(name, prefix)),
    ensures
        release_asset(release, prefix) == Ok::<(Seq<char>, Seq<char>), Seq<char>>(
            (n, assets[i].get_str("name"@)->0),
        ),
        plugin_asset(prefix, release, false) == release_asset(release, prefix),
{
    tag_without_its_letter(n);
    first_package_is_found(assets, prefix, i);
}

/// A release without a tag, without files, or without a package for the plugin
/// gives nothing.
pub proof fn release_without_package_gives_nothing(release: JsonV, prefix: Seq<char>)
    ensures
        release.get_str("tag_name"@) is None ==> release_asset(release, prefix) is Err,
        !(release.get("assets"@) matches Some(JsonV::Array(_))) ==> release_asset(release, prefix)
            is Err,
        release.get("assets"@) matches Some(JsonV::Array(assets)) ==> (forall|k: int|
            0 <= k < assets.len() ==> ((#[trigger] assets[k]).get_str("name"@) matches Some(name)
                ==> !is_package_name(name, prefix))) ==> release_asset(release, prefix) is Err,
{
    if let Some(JsonV::Array(assets)) = release.get("assets"@) {
        if forall|k: int|
            0 <= k < assets.len() ==> ((#[trigger] assets[k]).get_str("name"@) matches Some(name)
                ==> !is_package_name(name, prefix)) {
            first_package_is_found(assets, prefix, assets.len() as int);
        }
    }
}

/// A release counts as a prerelease where it is one and is no draft, and the first
/// of them is taken.
pub proof fn first_open_prerelease_is_taken(releases: Seq<JsonV>, i: int, prefix: Seq<char>)
    requires
        0 <= i < releases.len(),
        releases[i].get("prerelease"@) == Some(JsonV::Bool(true)),
        releases[i].get("draft"@) != Some(JsonV::Bool(true)),
        forall|k: int|
            0 <= k < i ==> (#[trigger] releases[k]).get("prerelease"@) != Some(JsonV::Bool(true))
                || releases[k].get("draft"@) == Some(JsonV::Bool(true)),
    ensures
        first_prerelease(releases) == Some(releases[i]),
        plugin_asset(prefix, JsonV::Array(releases), true) == release_asset(releases[i], prefix),
    decreases i,
{
    if i > 0 {
        let rest = releases.drop_first();
        assert(releases[0].get("prerelease"@) != Some(JsonV::Bool(true)) || releases[0].get(
            "draft"@,
        ) == Some(JsonV::Bool(true)));
        assert(rest[i - 1] == releases[i]);
        assert forall|k: int| 0 <= k < i - 1 implies (#[trigger] rest[k]).get("prerelease"@)
            != Some(JsonV::Bool(true)) || rest[k].get("draft"@) == Some(JsonV::Bool(true)) by {
            assert(rest[k] == releases[k + 1]);
        }
        first_open_prerelease_is_taken(rest, i - 1, prefix);
    }
}

/// The newest release of a plugin is asked for at its repository.
pub proof fn release_is_asked_for_at_the_repository(owner: Seq<char>, repo: Seq<char>)
    ensures
        release_path(owner, repo, false) == "repos/"@ + owner + "/"@ + repo + "/releases/latest"@,
        release_path(owner, repo, true) == "repos/"@ + owner + "/"@ + repo
            + "/releases?per_page=20"@,
{
}

// ---------------------------------------------------------------------------
// Installing
// ---------------------------------------------------------------------------

/// The plugin of an identifier is the first that is listed under it.
pub proof fn listed_plugin_is_found(manager: ManagerV, id: Seq<char>, i: int)
    requires
        0 <= i < manager.catalog.len(),
        manager.catalog[i].id == id,
        forall|k: int| 0 <= k < i ==> (#[trigger] manager.catalog[k]).id != id,
    ensures
        definition_of(manager, id) == Ok::<DefV, Seq<char>>(manager.catalog[i]),
{
    lemma_first_listed(manager.catalog, id, i);
}

proof fn lemma_first_listed(defs: Seq<DefV>, id: Seq<char>, i: int)
    requires
        0 <= i < defs.len(),
        defs[i].id == id,
        forall|k: int| 0 <= k < i ==> (#[trigger] defs[k]).id != id,
    ensures
        first_with_id(defs, id) == Some(defs[i]),
    decreases i,
{
    if i > 0 {
        assert(defs[0].id != id);
        assert(defs.drop_first()[i - 1] == defs[i]);
        assert forall|k: int| 0 <= k < i - 1 implies (#[trigger] defs.drop_first()[k]).id != id by {
            assert(defs.drop_first()[k] == defs[k + 1]);
        }
        lemma_first_listed(defs.drop_first(), id, i - 1);
    }
}

/// A plugin that is not listed is not known.
pub proof fn unlisted_plugin_is_unknown(manager: ManagerV, id: Seq<char>)
    requires
        forall|k: int| 0 <= k < manager.catalog.len() ==> (#[trigger] manager.catalog[k]).id != id,
    ensures
        definition_of(manager, id) is Err,
        install_plan(manager, id) is Err,
{
    lemma_unlisted(manager.catalog, id);
}

proof fn lemma_unlisted(defs: Seq<DefV>, id: Seq<char>)
    requires
        forall|k: int| 0 <= k < defs.len() ==> (#[trigger] defs[k]).id != id,
    ensures
        first_with_id(defs, id) is None,
    decreases defs.len(),
{
    if defs.len() > 0 {
        assert(defs[0].id != id);
        assert forall|k: int| 0 <= k < defs.drop_first().len() implies (
        #[trigger] defs.drop_first()[k]).id != id by {
            assert(defs.drop_first()[k] == defs[k + 1]);
        }
        lemma_unlisted(defs.drop_first(), id);
    }
}

/// A plugin is downloaded from the release of its repository that is tagged with
/// `v` and the version, under the name of the package; what is downloaded is kept
/// under the plugin's name and the version.
pub proof fn package_is_downloaded_from_its_release(
    manager: ManagerV,
    id: Seq<char>,
    i: int,
    n: Seq<char>,
    a: Seq<char>,
)
    requires
        0 <= i < manager.catalog.len(),
        manager.catalog[i].id == id,
        forall|k: int| 0 <= k < i ==> (#[trigger] manager.catalog[k]).id != id,
        manager.latest.contains_key(id),
        manager.latest[id] == (n, a) || manager.latest[id] == ("v"@ + n, a),
        n.len() > 0 ==> n[0] != 'v',
    ensures
        install_plan(manager, id) matches Ok(plan) && {
            &&& plan.version == n
            &&& plan.download_url == "https://github.com/"@ + manager.catalog[i].owner + "/"@
                + manager.catalog[i].repo + "/releases/download/v"@ + n + "/"@ + a
            &&& plan.zip_name == id + "-"@ + n + "-plugin.zip"@
            &&& plan.exe_name == manager.catalog[i].exe_name
        },
{
    tag_without_its_letter(n);
    listed_plugin_is_found(manager, id, i);
    reveal_strlit("v");
    reveal_strlit("/releases/download/");
    reveal_strlit("/releases/download/v");
    assert("/releases/download/"@ + "v"@ =~= "/releases/download/v"@);
    let front = "https://github.com/"@ + manager.catalog[i].owner + "/"@ + manager.catalog[i].repo;
    assert(front + "/releases/download/"@ + ("v"@ + n) =~= front + ("/releases/download/"@ + "v"@)
        + n);
}

/// A release as GitHub describes it, once it is noted, is installed from there:
/// its version is the tag without `v`, and its address has the tag with it.
pub proof fn noted_release_is_installed(
    manager: ManagerV,
    id: Seq<char>,
    i: int,
    release: JsonV,
    n: Seq<char>,
    assets: Seq<JsonV>,
    k: int,
)
    requires
        0 <= i < manager.catalog.len(),
        manager.catalog[i].id == id,
        forall|j: int| 0 <= j < i ==> (#[trigger] manager.catalog[j]).id != id,
        n.len() > 0 ==> n[0] != 'v',
        release.get_str("tag_name"@) == Some("v"@ + n),
        release.get("assets"@) == Some(JsonV::Array(assets)),
        0 <= k < assets.len(),
        assets[k].get_str("name"@) matches Some(name) && is_package_name(
            name,
            manager.catalog[i].asset_prefix,
        ),
        forall|j: int|
            0 <= j < k ==> ((#[trigger] assets[j]).get_str("name"@) matches Some(name)
                ==> !is_package_name(name, manager.catalog[i].asset_prefix)),
    ensures
        plugin_asset(manager.catalog[i].asset_prefix, release, false) matches Ok(found)
            && install_plan(
            with_latest(manager, id, Ok(found)),
            id,
        ) matches Ok(plan) && plan.download_url == "https://github.com/"@
            + manager.catalog[i].owner + "/"@ + manager.catalog[i].repo + "/releases/download/v"@
            + n + "/"@ + assets[k].get_str("name"@)->0,
{
    release_gives_version_and_package(release, manager.catalog[i].asset_prefix, n, assets, k);
    let found = plugin_asset(manager.catalog[i].asset_prefix, release, false)->Ok_0;
    package_is_downloaded_from_its_release(
        with_latest(manager, id, Ok(found)),
        id,
        i,
        n,
        assets[k].get_str("name"@)->0,
    );
}

/// Nothing is installed before a release is known.
pub proof fn unknown_release_is_not_installed(manager: ManagerV, id: Seq<char>)
    requires
        !manager.latest.contains_key(id),
    ensures
        install_plan(manager, id) is Err,
{
}

/// A package is accepted exactly where its manifest can be read and is that of the
/// plugin, if it has one, and the executable is there.
pub proof fn package_is_of_the_plugin(
    id: Seq<char>,
    exe_name: Seq<char>,
    manifest: Result<Option<ManifestV>, Seq<char>>,
    exe_present: bool,
)
    ensures
        package_check(id, exe_name, manifest, exe_present) is Ok <==> {
            &&& manifest is Ok
            &&& manifest->Ok_0 matches Some(found) ==> found.id == id
            &&& exe_present
        },
{
}

/// A package has up to 128 entries, of up to 134217728 bytes each and 268435456 in
/// all, none of which leaves its directory; and their sizes are added up.
pub proof fn package_entries_are_limited(total: u64, size: u64, enclosed: bool)
    ensures
        MAX_ARCHIVE_ENTRIES == 128,
        entry_check(total, size, enclosed) is Ok <==> enclosed && size <= 128 * 1024 * 1024 && total
            + size <= 256 * 1024 * 1024,
        entry_check(total, size, enclosed) matches Ok(sum) ==> sum == total + size,
{
}

// ---------------------------------------------------------------------------
// Switching and taking off
// ---------------------------------------------------------------------------

/// The record of a plugin is the first under its identifier.
pub proof fn first_record_counts(records: Seq<RecordV>, id: Seq<char>)
    ensures
        record_of(records, id) is None <==> forall|k: int|
            0 <= k < records.len() ==> (#[trigger] records[k]).id != id,
        record_of(records, id) matches Some(record) ==> record.id == id && exists|k: int|
            0 <= k < records.len() && #[trigger] records[k] == record && forall|j: int|
                0 <= j < k ==> (#[trigger] records[j]).id != id,
{
    lemma_record_index(records, id);
}

/// A plugin that was installed is on, in that version; the other plugins, the
/// settings and what is known of releases stay.
pub proof fn installation_is_noted(
    manager: ManagerV,
    id: Seq<char>,
    version: Seq<char>,
    other: Seq<char>,
)
    ensures
        record_of(installed(manager, id, version).state.plugins, id) == Some(
            RecordV { id, enabled: true, installed_version: Some(version) },
        ),
        other != id ==> record_of(installed(manager, id, version).state.plugins, other)
            == record_of(manager.state.plugins, other),
        installed(manager, id, version).catalog == manager.catalog,
        installed(manager, id, version).latest == manager.latest,
        installed(manager, id, version).state.proxy == manager.state.proxy,
        installed(manager, id, version).state.auto_start_with_windows
            == manager.state.auto_start_with_windows,
        installed(manager, id, version).state.start_minimized == manager.state.start_minimized,
{
    changed_record_reads_back(
        manager.state.plugins,
        id,
        RecordV { id, enabled: true, installed_version: Some(version) },
        other,
    );
}

/// A plugin that was taken off is off and has no version; the others stay.
pub proof fn uninstallation_is_noted(manager: ManagerV, id: Seq<char>, other: Seq<char>)
    ensures
        record_of(uninstalled(manager, id).state.plugins, id) == Some(
            RecordV { id, enabled: false, installed_version: None },
        ),
        other != id ==> record_of(uninstalled(manager, id).state.plugins, other) == record_of(
            manager.state.plugins,
            other,
        ),
        uninstalled(manager, id).catalog == manager.catalog,
        uninstalled(manager, id).latest == manager.latest,
        uninstalled(manager, id).state.proxy == manager.state.proxy,
{
    changed_record_reads_back(
        manager.state.plugins,
        id,
        RecordV { id, enabled: false, installed_version: None },
        other,
    );
}

/// A plugin is switched on only where it is installed, and off in any case; its
/// version stays, and so do the other plugins.
pub proof fn switch_is_noted(manager: ManagerV, id: Seq<char>, on: bool, other: Seq<char>)
    ensures
        switched(manager, id, on).0 is Ok <==> !on || (record_of(
            manager.state.plugins,
            id,
        ) matches Some(record) && record.installed_version is Some),
        switched(manager, id, on).0 is Ok ==> (record_of(
            switched(manager, id, on).1.state.plugins,
            id,
        ) matches Some(record) && record.enabled == on && record.installed_version
            == installed_version_of(manager, id)),
        other != id ==> record_of(switched(manager, id, on).1.state.plugins, other) == record_of(
            manager.state.plugins,
            other,
        ),
        switched(manager, id, on).0 is Err ==> installed_version_of(
            switched(manager, id, on).1,
            id,
        ) is None,
        switched(manager, id, on).1.catalog == manager.catalog,
        switched(manager, id, on).1.latest == manager.latest,
        switched(manager, id, on).1.state.proxy == manager.state.proxy,
{
    let version = installed_version_of(manager, id);
    let record = RecordV { id, enabled: on, installed_version: version };
    changed_record_reads_back(manager.state.plugins, id, record, other);
    let records = manager.state.plugins;
    lemma_record_index(records, id);
    lemma_record_index(records, other);
    lemma_record_index(with_record(records, id), other);
    lemma_record_index(with_record(records, id), id);
    if record_index(records, id) is None {
        let more = with_record(records, id);
        assert(more == records.push(RecordV { id, enabled: false, installed_version: None }));
        assert forall|k: int| 0 <= k < records.len() implies more[k] == records[k] by {}
        assert(more[records.len() as int].id == id);
        if other != id {
            if let Some(i) = record_index(more, other) {
                assert(i < records.len());
                assert(records[i].id == other);
            }
            if let Some(i) = record_index(records, other) {
                assert(more[i].id == other);
            }
        }
    }
}

/// A plugin counts as on exactly where a record of it is on and has a version.
pub proof fn enabled_plugin_is_installed(manager: ManagerV, id: Seq<char>)
    ensures
        enabled_in(manager, id) <==> exists|k: int|
            0 <= k < manager.state.plugins.len() && (#[trigger] manager.state.plugins[k]).id == id
                && manager.state.plugins[k].enabled
                && manager.state.plugins[k].installed_version is Some,
        enabled_ids_of(manager.state.plugins).contains(id) <==> enabled_in(manager, id),
{
    lemma_enabled_ids(manager.state.plugins, id);
    if enabled_in(manager, id) {
        let k = choose|k: int|
            0 <= k < manager.state.plugins.len() && crate::plugins::is_active_record(
                #[trigger] manager.state.plugins[k],
                id,
            );
        assert(manager.state.plugins[k].id == id);
    }
    if exists|k: int|
        0 <= k < manager.state.plugins.len() && (#[trigger] manager.state.plugins[k]).id == id
            && manager.state.plugins[k].enabled
            && manager.state.plugins[k].installed_version is Some {
        let k = choose|k: int|
            0 <= k < manager.state.plugins.len() && (#[trigger] manager.state.plugins[k]).id == id
                && manager.state.plugins[k].enabled
                && manager.state.plugins[k].installed_version is Some;
        assert(crate::plugins::is_active_record(manager.state.plugins[k], id));
    }
}

proof fn lemma_enabled_ids(records: Seq<RecordV>, id: Seq<char>)
    ensures
        enabled_ids_of(records).contains(id) <==> exists|k: int|
            0 <= k < records.len() && (#[trigger] records[k]).id == id && records[k].enabled
                && records[k].installed_version is Some,
    decreases records.len(),
{
    if records.len() > 0 {
        let front = records.drop_last();
        lemma_enabled_ids(front, id);
        let before = enabled_ids_of(front);
        let after = enabled_ids_of(records);
        if after.contains(id) {
            let k = choose|k: int| 0 <= k < after.len() && after[k] == id;
            if k < before.len() {
                assert(before[k] == id);
                assert(before.contains(id));
                let j = choose|j: int|
                    0 <= j < front.len() && (#[trigger] front[j]).id == id && front[j].enabled
                        && front[j].installed_version is Some;
                assert(records[j].id == id);
            } else {
                assert(records[records.len() - 1].id == id);
            }
        }
        if exists|k: int|
            0 <= k < records.len() && (#[trigger] records[k]).id == id && records[k].enabled
                && records[k].installed_version is Some {
            let k = choose|k: int|
                0 <= k < records.len() && (#[trigger] records[k]).id == id && records[k].enabled
                    && records[k].installed_version is Some;
            if k < front.len() {
                assert(front[k].id == id);
                assert(before.contains(id));
                let j = choose|j: int| 0 <= j < before.len() && before[j] == id;
                assert(after[j] == id);
            } else {
                assert(after[before.len() as int] == id);
            }
        }
    }
}

/// Every listed plugin has a record, which is blank where none was kept; the
/// records that were kept stay in front as they were.
pub proof fn listed_plugins_have_records(records: Seq<RecordV>, defs: Seq<DefV>, i: int)
    ensures
        with_records(records, defs).len() >= records.len(),
        with_records(records, defs).take(records.len() as int) == records,
        0 <= i < defs.len() ==> record_of(with_records(records, defs), defs[i].id) is Some,
        forall|k: int|
            records.len() <= k < with_records(records, defs).len() ==> {
                let made = #[trigger] with_records(records, defs)[k];
                !made.enabled && made.installed_version is None
            },
    decreases defs.len(),
{
    if defs.len() > 0 {
        let before = with_records(records, defs.drop_last());
        let after = with_records(records, defs);
        listed_plugins_have_records(records, defs.drop_last(), i);
        let id = defs.last().id;
        lemma_record_index(before, id);
        lemma_record_index(after, id);
        assert(after.take(records.len() as int) =~= before.take(records.len() as int));
        if record_index(before, id) is None {
            assert(after == before.push(RecordV { id, enabled: false, installed_version: None }));
            assert(after[before.len() as int].id == id);
            if 0 <= i < defs.len() - 1 {
                assert(defs.drop_last()[i] == defs[i]);
                lemma_record_index(before, defs[i].id);
                lemma_record_index(after, defs[i].id);
                let at = record_index(before, defs[i].id)->0;
                assert(after[at] == before[at]);
            }
        } else if 0 <= i < defs.len() - 1 {
            assert(defs.drop_last()[i] == defs[i]);
        }
    } else {
        assert(records.take(records.len() as int) =~= records);
    }
}

/// A host that starts anew has no records, does not start with Windows, starts
/// minimized, and uses no proxy.
pub proof fn new_state_is_plain()
    ensures
        fresh_state().plugins.len() == 0,
        !fresh_state().auto_start_with_windows,
        fresh_state().start_minimized,
        fresh_state().proxy.mode == ProxyMode::Off,
        fresh_state().proxy.url.len() == 0,
{
}

// ---------------------------------------------------------------------------
// What is shown
// ---------------------------------------------------------------------------

/// A plugin has an update exactly where it is installed in another version than
/// the newest, with or without the letter of a tag.
pub proof fn other_version_is_an_update(
    installed: Option<Seq<char>>,
    latest: Option<(Seq<char>, Seq<char>)>,
    n: Seq<char>,
    m: Seq<char>,
)
    requires
        n.len() > 0 ==> n[0] != 'v',
        m.len() > 0 ==> m[0] != 'v',
    ensures
        installed is None || latest is None ==> !is_outdated(installed, latest),
        (installed == Some(n) || installed == Some("v"@ + n)) && (latest matches Some((tag, _)) && (
        tag == m || tag == "v"@ + m)) ==> (is_outdated(installed, latest) <==> n != m),
{
    tag_without_its_letter(n);
    tag_without_its_letter(m);
}

/// The card of a plugin shows what is listed, recorded and found of it.
pub proof fn card_shows_the_plugin(manager: ManagerV, def: DefV, facts: FactsV)
    ensures
        ({
            let card = card_of(manager, def, facts);
            &&& card.id == def.id
            &&& card.display_name == def.display_name
            &&& def.target_hint.len() > 0 ==> card.target_hint == def.target_hint
            &&& def.target_hint.len() == 0 ==> card.target_hint == "目标桌面应用"@
            &&& record_of(manager.state.plugins, def.id) matches Some(record) ==> {
                &&& card.enabled == record.enabled
                &&& card.installed_version == record.installed_version
            }
            &&& record_of(manager.state.plugins, def.id) is None ==> !card.enabled
                && card.installed_version is None
            &&& manager.latest.contains_key(def.id) ==> card.latest_version == Some(
                manager.latest[def.id].0,
            ) && card.latest_asset_name == Some(manager.latest[def.id].1)
            &&& !manager.latest.contains_key(def.id) ==> card.latest_version is None
                && card.latest_asset_name is None && !card.update_available
            &&& card.update_available <==> is_outdated(
                card.installed_version,
                if manager.latest.contains_key(def.id) {
                    Some(manager.latest[def.id])
                } else {
                    None
                },
            )
            &&& card.running == facts.running
            &&& card.icon_path == facts.icon_path
            &&& card.icon_web == "/plugins/"@ + def.id + ".png"@
            &&& facts.manifest matches Some(manifest) ==> card.plugin_protocol
                == manifest.plugin_protocol
            &&& facts.manifest is None ==> card.plugin_protocol == 1 && card.capabilities.len() == 0
        }),
{
}

/// A running plugin is shown in the phase and with the message that it gives; one
/// that does not answer is shown in error, and one that does not run is idle.
pub proof fn card_shows_the_state(manager: ManagerV, def: DefV, facts: FactsV, said: Seq<char>)
    ensures
        ({
            let card = card_of(manager, def, facts);
            &&& !facts.running ==> card.phase == "idle"@
            &&& facts.running && facts.status is Err ==> card.phase == "error"@
                && card.status_message == "插件状态不可用："@ + facts.status->Err_0
            &&& facts.running && (facts.status matches Ok(status) && status.get_str("phase"@)
                == Some(said)) ==> card.phase == said
            &&& facts.running && (facts.status matches Ok(status) && status.get_str("phase"@)
                is None) ==> card.phase == "unknown"@
            &&& facts.running && (facts.status matches Ok(status) && status.get_str("message"@)
                == Some(said)) ==> card.status_message == said
            &&& !facts.running && card.installed_version is Some ==> card.status_message == (
            if card.enabled {
                "已启用"@
            } else {
                "未启用"@
            })
            &&& !facts.running && card.installed_version is None
                && !manager.latest_errors.contains_key(def.id) ==> card.status_message == "未安装"@
            &&& !facts.running && card.installed_version is None
                && manager.latest_errors.contains_key(def.id) ==> card.status_message
                == "未安装 · "@ + manager.latest_errors[def.id]
        }),
{
}

/// A capability is shown exactly where it is on: a flag that is set, a number above
/// zero, or a text or a list that is not empty.
pub proof fn shown_capability_is_on(members: Seq<(Seq<char>, JsonV)>, name: Seq<char>)
    ensures
        enabled_names(members).contains(name) <==> exists|k: int|
            0 <= k < members.len() && (#[trigger] members[k]).0 == name && (match members[k].1 {
                JsonV::Bool(flag) => flag,
                JsonV::Num(Num::PosInt(n)) => n > 0,
                JsonV::Text(text) => text.len() > 0,
                JsonV::Array(items) => items.len() > 0,
                _ => false,
            }),
    decreases members.len(),
{
    if members.len() > 0 {
        let front = members.drop_last();
        shown_capability_is_on(front, name);
        let before = enabled_names(front);
        let after = enabled_names(members);
        if before.contains(name) {
            let k = choose|k: int|
                0 <= k < front.len() && (#[trigger] front[k]).0 == name && is_enabled_capability(
                    front[k].1,
                );
            assert(members[k].0 == name && is_enabled_capability(members[k].1));
            let j = choose|j: int| 0 <= j < before.len() && before[j] == name;
            assert(after[j] == name);
        }
        if after.contains(name) {
            let k = choose|k: int| 0 <= k < after.len() && after[k] == name;
            if k < before.len() {
                assert(before[k] == name);
            } else {
                assert(members[members.len() - 1].0 == name);
            }
        }
        if exists|k: int|
            0 <= k < members.len() && (#[trigger] members[k]).0 == name && is_enabled_capability(
                members[k].1,
            ) {
            let k = choose|k: int|
                0 <= k < members.len() && (#[trigger] members[k]).0 == name
                    && is_enabled_capability(members[k].1);
            if k < front.len() {
                assert(front[k].0 == name && is_enabled_capability(front[k].1));
            } else {
                assert(after[before.len() as int] == name);
            }
        }
    }
}

/// The overview shows the settings as they are kept, and an update of the host
/// exactly where the newest version comes after its own.
pub proof fn overview_shows_the_settings(
    manager: ManagerV,
    facts: Seq<FactsV>,
    data_directory: Seq<char>,
    warning: Option<Seq<char>>,
)
    ensures
        ({
            let shown = snapshot_of(manager, facts, data_directory, warning);
            &&& shown.auto_start_with_windows == manager.state.auto_start_with_windows
            &&& shown.start_minimized == manager.state.start_minimized
            &&& shown.data_directory == data_directory
            &&& shown.host_latest_version == manager.host_release.latest_version
            &&& shown.host_release_url == manager.host_release.release_url
            &&& shown.proxy_mode == manager.state.proxy.mode
            &&& shown.proxy_url == manager.state.proxy.url
            &&& manager.host_release.latest_version is None ==> !shown.host_update_available
            &&& manager.host_release.latest_version matches Some(latest) ==> (
            shown.host_update_available <==> version_order(
                untagged(latest),
                untagged(shown.host_version),
            ) == Some(true))
            &&& shown.plugins.len() == manager.catalog.len()
            &&& forall|i: int|
                0 <= i < manager.catalog.len() ==> #[trigger] shown.plugins[i] == card_of(
                    manager,
                    manager.catalog[i],
                    facts[i],
                )
            &&& (manager.host_release_error is None && forall|i: int|
                0 <= i < manager.catalog.len() ==> !manager.latest_errors.contains_key(
                    (#[trigger] manager.catalog[i]).id,
                )) ==> shown.warning == warning
        }),
{
    if forall|i: int|
        0 <= i < manager.catalog.len() ==> !manager.latest_errors.contains_key(
            (#[trigger] manager.catalog[i]).id,
        ) {
        lemma_no_failures(manager, manager.catalog);
    }
}

proof fn lemma_no_failures(manager: ManagerV, defs: Seq<DefV>)
    requires
        forall|i: int|
            0 <= i < defs.len() ==> !manager.latest_errors.contains_key((#[trigger] defs[i]).id),
    ensures
        plugin_failures(manager, defs).len() == 0,
    decreases defs.len(),
{
    if defs.len() > 0 {
        assert forall|i: int| 0 <= i < defs.drop_last().len() implies
            !manager.latest_errors.contains_key((#[trigger] defs.drop_last()[i]).id) by {
            assert(defs.drop_last()[i] == defs[i]);
        }
        lemma_no_failures(manager, defs.drop_last());
        assert(!manager.latest_errors.contains_key(defs[defs.len() - 1].id));
    }
}

/// A warning about failed checks names each of them behind what was said before.
pub proof fn failures_are_named(failure: Seq<char>, warning: Seq<char>)
    ensures
        full_warning(None, seq![failure]) == Some("检查更新失败："@ + failure),
        full_warning(Some(warning), seq![failure]) == Some(
            warning + " 检查更新失败："@ + failure,
        ),
        full_warning(Some(warning), Seq::empty()) == Some(warning),
        full_warning(None, Seq::empty()) is None,
{
}

/// A plugin that answers is ready; one that does not is asked again until its time
/// is over.
pub proof fn answering_plugin_is_ready(status: Result<JsonV, Seq<char>>, overdue: bool)
    ensures
        status matches Ok(value) ==> ready_step(status, overdue) == ReadyV::Ready(value),
        status matches Err(message) ==> {
            &&& !overdue ==> ready_step(status, overdue) == ReadyV::Again(message)
            &&& overdue ==> ready_step(status, overdue) is Failed
        },
{
}

// ---------------------------------------------------------------------------
// Stored forms
// ---------------------------------------------------------------------------

/// The state of the plugins is stored with each of its parts under its name.
pub proof fn state_is_stored_by_name(state: StateV)
    ensures
        ({
            let value = state_json(state);
            &&& value.get("autoStartWithWindows"@) == Some(
                JsonV::Bool(state.auto_start_with_windows),
            )
            &&& value.get("startMinimized"@) == Some(JsonV::Bool(state.start_minimized))
            &&& value.get("plugins"@) matches Some(JsonV::Array(values)) && values.len()
                == state.plugins.len() && forall|i: int|
                0 <= i < values.len() ==> {
                    let stored = #[trigger] values[i];
                    &&& stored.get_str("id"@) == Some(state.plugins[i].id)
                    &&& stored.get("enabled"@) == Some(JsonV::Bool(state.plugins[i].enabled))
                    &&& state.plugins[i].installed_version matches Some(version)
                        ==> stored.get_str("installedVersion"@) == Some(version)
                    &&& state.plugins[i].installed_version is None ==> stored.get(
                        "installedVersion"@,
                    ) == Some(JsonV::Null)
                }
            &&& value.get("proxy"@) == Some(proxy_json(state.proxy))
        }),
{
    reveal_strlit("plugins");
    reveal_strlit("autoStartWithWindows");
    reveal_strlit("startMinimized");
    reveal_strlit("proxy");
    let records = state.plugins.map_values(|r: RecordV| record_json(r));
    let pairs = seq![
        ("plugins"@, JsonV::Array(records)),
        ("autoStartWithWindows"@, JsonV::Bool(state.auto_start_with_windows)),
        ("startMinimized"@, JsonV::Bool(state.start_minimized)),
        ("proxy"@, proxy_json(state.proxy)),
    ];
    assert("plugins"@.len() == 7 && "autoStartWithWindows"@.len() == 20);
    assert("startMinimized"@.len() == 14 && "proxy"@.len() == 5);
    assert(names_differ(pairs));
    lemma_pair_found(pairs, 0);
    lemma_pair_found(pairs, 1);
    lemma_pair_found(pairs, 2);
    lemma_pair_found(pairs, 3);
    lemma_collected_member(pairs, "plugins"@);
    lemma_collected_member(pairs, "autoStartWithWindows"@);
    lemma_collected_member(pairs, "startMinimized"@);
    lemma_collected_member(pairs, "proxy"@);
    assert forall|i: int| 0 <= i < records.len() implies {
        let stored = #[trigger] records[i];
        &&& stored.get_str("id"@) == Some(state.plugins[i].id)
        &&& stored.get("enabled"@) == Some(JsonV::Bool(state.plugins[i].enabled))
        &&& state.plugins[i].installed_version matches Some(version) ==> stored.get_str(
            "installedVersion"@,
        ) == Some(version)
        &&& state.plugins[i].installed_version is None ==> stored.get("installedVersion"@) == Some(
            JsonV::Null,
        )
    } by {
        lemma_record_members(state.plugins[i]);
    }
}

proof fn lemma_record_members(record: RecordV)
    ensures
        record_json(record).get_str("id"@) == Some(record.id),
        record_json(record).get("enabled"@) == Some(JsonV::Bool(record.enabled)),
        record_json(record).get("installedVersion"@) == Some(
            crate::json::opt_text(record.installed_version),
        ),
{
    reveal_strlit("id");
    reveal_strlit("enabled");
    reveal_strlit("installedVersion");
    let pairs = seq![
        ("id"@, JsonV::Text(record.id)),
        ("enabled"@, JsonV::Bool(record.enabled)),
        ("installedVersion"@, crate::json::opt_text(record.installed_version)),
    ];
    assert("id"@.len() == 2 && "enabled"@.len() == 7 && "installedVersion"@.len() == 16);
    assert(names_differ(pairs));
    lemma_pair_found(pairs, 0);
    lemma_pair_found(pairs, 1);
    lemma_pair_found(pairs, 2);
    lemma_collected_member(pairs, "id"@);
    lemma_collected_member(pairs, "enabled"@);
    lemma_collected_member(pairs, "installedVersion"@);
}

/// A plugin is listed with each of its parts under its name.
pub proof fn plugin_is_listed_by_name(value: JsonV)
    requires
        value is Object,
    ensures
        def_from(value) matches Some(def) ==> {
            &&& value.get_str("id"@) == Some(def.id)
            &&& value.get_str("displayName"@) == Some(def.display_name)
            &&& value.get_str("owner"@) == Some(def.owner)
            &&& value.get_str("repo"@) == Some(def.repo)
            &&& value.get_str("assetPrefix"@) == Some(def.asset_prefix)
            &&& value.get_str("exeName"@) == Some(def.exe_name)
            &&& value.get_str("pipeName"@) == Some(def.pipe_name)
            &&& value.get("targetHint"@) is Some ==> value.get_str("targetHint"@) == Some(
                def.target_hint,
            )
            &&& value.get("targetHint"@) is None ==> def.target_hint.len() == 0
            &&& value.get_str("icon"@) == def.icon
        },
        value.get_str("id"@) is Some && value.get_str("displayName"@) is Some && value.get_str(
            "owner"@,
        ) is Some && value.get_str("repo"@) is Some && value.get_str("assetPrefix"@) is Some
            && value.get_str("exeName"@) is Some && value.get_str("pipeName"@) is Some && value.get(
            "targetHint"@,
        ) is None && value.get("icon"@) is None ==> def_from(value) is Some,
{
}

/// A catalogue lists the plugins that stand in it, in their order.
pub proof fn catalogue_lists_its_plugins(value: JsonV, values: Seq<JsonV>, i: int)
    requires
        value is Object,
        value.get("plugins"@) == Some(JsonV::Array(values)),
        catalog_from(value) is Some,
    ensures
        catalog_from(value)->0.len() == values.len(),
        0 <= i < values.len() ==> def_from(values[i]) == Some(catalog_from(value)->0[i]),
{
    lemma_defs_from(values, i);
}

proof fn lemma_defs_from(values: Seq<JsonV>, i: int)
    requires
        defs_from(values) is Some,
    ensures
        defs_from(values)->0.len() == values.len(),
        0 <= i < values.len() ==> def_from(values[i]) == Some(defs_from(values)->0[i]),
    decreases values.len(),
{
    if values.len() > 0 {
        lemma_defs_from(values.drop_last(), i);
    }
}

/// The icon of a plugin is its own file, or the one that the catalogue names where
/// that is no address on the web and is there.
pub proof fn icon_is_a_file(plugin: DefV, has_own: bool, has_named: bool)
    ensures
        has_own ==> icon_file(plugin, has_own, has_named) == Some(plugin.id + ".png"@),
        !has_own && !has_named ==> icon_file(plugin, has_own, has_named) is None,
        !has_own ==> (plugin.icon matches Some(icon) ==> (has_prefix(icon, "http://"@)
            || has_prefix(icon, "https://"@)) ==> icon_file(plugin, has_own, has_named) is None),
        !has_own && has_named ==> (plugin.icon matches Some(icon) ==> !has_prefix(icon, "http://"@)
            ==> !has_prefix(icon, "https://"@) ==> icon_file(plugin, has_own, has_named) == Some(
            icon,
        )),
{
}

// ---------------------------------------------------------------------------
// The catalog
// ---------------------------------------------------------------------------

proof fn lemma_last_listed(defs: Seq<DefV>, id: Seq<char>)
    ensures
        last_with_id(defs, id) is Some <==> exists|k: int|
            0 <= k < defs.len() && (#[trigger] defs[k]).id == id,
        last_with_id(defs, id) matches Some(def) ==> exists|k: int|
            0 <= k < defs.len() && #[trigger] defs[k] == def && def.id == id && forall|m: int|
                k < m < defs.len() ==> (#[trigger] defs[m]).id != id,
    decreases defs.len(),
{
    if defs.len() > 0 {
        let rest = defs.drop_last();
        lemma_last_listed(rest, id);
        if defs.last().id == id {
            assert(defs[defs.len() - 1].id == id);
        } else {
            assert forall|k: int| 0 <= k < defs.len() && (#[trigger] defs[k]).id == id implies k
                < rest.len() && rest[k].id == id by {}
            if let Some(def) = last_with_id(rest, id) {
                let k = choose|k: int|
                    0 <= k < rest.len() && #[trigger] rest[k] == def && def.id == id && forall|
                        m: int,
                    |
                        k < m < rest.len() ==> (#[trigger] rest[m]).id != id;
                assert(defs[k] == def);
                assert forall|m: int| k < m < defs.len() implies (#[trigger] defs[m]).id != id by {
                    if m < rest.len() {
                        assert(rest[m] == defs[m]);
                    }
                }
            }
        }
    }
}

/// The catalog lists each plugin once, as it is described last, in the order of the
/// names, and leaves none out.
pub proof fn catalog_lists_each_plugin_once(defs: Seq<DefV>, all: Seq<DefV>)
    requires
        is_merge(defs, all),
        in_name_order(defs),
    ensures
        forall|i: int, j: int|
            0 <= i < j < defs.len() ==> (#[trigger] defs[i]).id != (#[trigger] defs[j]).id,
        forall|i: int|
            0 <= i < defs.len() ==> exists|k: int|
                0 <= k < all.len() && #[trigger] all[k] == #[trigger] defs[i] && forall|m: int|
                    k < m < all.len() ==> (#[trigger] all[m]).id != defs[i].id,
        forall|k: int|
            0 <= k < all.len() ==> exists|i: int|
                0 <= i < defs.len() && (#[trigger] defs[i]).id == (#[trigger] all[k]).id,
        forall|i: int, j: int|
            0 <= i < j < defs.len() ==> !precedes(
                (#[trigger] defs[j]).display_name,
                (#[trigger] defs[i]).display_name,
            ),
{
    assert forall|i: int| 0 <= i < defs.len() implies exists|k: int|
        0 <= k < all.len() && #[trigger] all[k] == #[trigger] defs[i] && forall|m: int|
            k < m < all.len() ==> (#[trigger] all[m]).id != defs[i].id by {
        lemma_last_listed(all, defs[i].id);
    }
    assert forall|k: int| 0 <= k < all.len() implies exists|i: int|
        0 <= i < defs.len() && (#[trigger] defs[i]).id == (#[trigger] all[k]).id by {
        lemma_last_listed(all, all[k].id);
        assert(last_with_id(all, all[k].id) is Some);
    }
}

/// A catalog of one's own is listed behind the one that comes along; one that cannot
/// be read is refused.
pub proof fn own_catalog_comes_behind(
    builtin: Seq<char>,
    own: Seq<char>,
    first: Seq<DefV>,
    second: Seq<DefV>,
    message: Seq<char>,
)
    requires
        catalog_parsed(builtin) == Ok::<Seq<DefV>, Seq<char>>(first),
    ensures
        listed_plugins(builtin, None) == Ok::<Seq<DefV>, Seq<char>>(first),
        catalog_parsed(own) == Ok::<Seq<DefV>, Seq<char>>(second) ==> listed_plugins(
            builtin,
            Some(Ok(own)),
        ) == Ok::<Seq<DefV>, Seq<char>>(first + second),
        catalog_parsed(own) == Err::<Seq<DefV>, Seq<char>>(message) ==> listed_plugins(
            builtin,
            Some(Ok(own)),
        ) == Err::<Seq<DefV>, Seq<char>>("本地 catalog.json 无效："@ + message),
        listed_plugins(builtin, Some(Err(message))) == Err::<Seq<DefV>, Seq<char>>(message),
{
}

/// Where no state was stored, the host starts anew; one that cannot be read is not
/// passed over.
pub proof fn missing_state_is_plain(message: Seq<char>)
    ensures
        stored_state(None) == Ok::<StateV, Seq<char>>(
            StateV {
                plugins: Seq::empty(),
                auto_start_with_windows: false,
                start_minimized: true,
                proxy: ProxyV { mode: ProxyMode::Off, url: Seq::empty() },
            },
        ),
        stored_state(Some(Err(message))) == Err::<StateV, Seq<char>>(message),
{
    new_state_is_plain();
}

/// The programs that start on their own are named, and nothing is said where there
/// are none.
pub proof fn standalone_programs_are_named(hits: Seq<Seq<char>>)
    ensures
        standalone_notice(hits) is None <==> hits.len() == 0,
        hits.len() == 1 ==> standalone_notice(hits) == Some(
            "检测到独立版自启动："@ + hits[0]
                + "。建议改用壳插件模式，避免双托盘。"@,
        ),
        hits.len() == 2 ==> standalone_notice(hits) == Some(
            "检测到独立版自启动："@ + (hits[0] + "、"@ + hits[1])
                + "。建议改用壳插件模式，避免双托盘。"@,
        ),
{
    reveal_with_fuel(joined, 3);
    if hits.len() == 2 {
        assert(hits.drop_last()[0] == hits[0]);
    }
}

// ---------------------------------------------------------------------------
// What is noted
// ---------------------------------------------------------------------------

/// What was found of a release is noted under its plugin, and the failure before it
/// is forgotten; a failure is noted beside the release that was known.
pub proof fn found_release_is_noted(
    manager: ManagerV,
    id: Seq<char>,
    version: Seq<char>,
    asset: Seq<char>,
    message: Seq<char>,
    other: Seq<char>,
)
    ensures
        ({
            let found = with_latest(manager, id, Ok((version, asset)));
            &&& found.latest.contains_key(id)
            &&& found.latest[id] == (version, asset)
            &&& !found.latest_errors.contains_key(id)
            &&& other != id && manager.latest.contains_key(other) ==> found.latest.contains_key(
                other,
            ) && found.latest[other] == manager.latest[other]
            &&& other != id && manager.latest_errors.contains_key(other)
                ==> found.latest_errors.contains_key(other) && found.latest_errors[other]
                == manager.latest_errors[other]
            &&& found.state == manager.state
            &&& found.catalog == manager.catalog
            &&& found.host_release == manager.host_release
            &&& found.host_release_error == manager.host_release_error
        }),
        ({
            let failed = with_latest(manager, id, Err(message));
            &&& failed.latest == manager.latest
            &&& failed.latest_errors.contains_key(id)
            &&& failed.latest_errors[id] == message
            &&& failed.state == manager.state
            &&& failed.catalog == manager.catalog
        }),
{
}

/// What was found of the host is noted, and the failure before it is forgotten; a
/// failure is noted beside what was known.
pub proof fn found_host_release_is_noted(
    manager: ManagerV,
    release: ReleaseV,
    message: Seq<char>,
)
    ensures
        with_host_release(manager, Ok(release)) == (ManagerV {
            host_release: release,
            host_release_error: None,
            ..manager
        }),
        with_host_release(manager, Err(message)) == (ManagerV {
            host_release_error: Some(message),
            ..manager
        }),
{
}

/// Another catalog is listed from now on, every plugin of it has a record, and the
/// records that were kept stay.
pub proof fn new_catalog_is_listed(manager: ManagerV, catalog: Seq<DefV>, i: int)
    requires
        0 <= i < catalog.len(),
    ensures
        ({
            let after = with_catalog(manager, catalog);
            &&& after.catalog == catalog
            &&& exists|k: int|
                0 <= k < after.state.plugins.len() && (#[trigger] after.state.plugins[k]).id
                    == catalog[i].id
            &&& after.state.plugins.len() >= manager.state.plugins.len()
            &&& after.state.plugins.take(manager.state.plugins.len() as int)
                == manager.state.plugins
            &&& after.latest == manager.latest
            &&& after.latest_errors == manager.latest_errors
        }),
{
    listed_plugins_have_records(manager.state.plugins, catalog, i);
    let records = with_records(manager.state.plugins, catalog);
    lemma_record_index(records, catalog[i].id);
    let k = record_index(records, catalog[i].id)->0;
    assert(with_catalog(manager, catalog).state.plugins[k].id == catalog[i].id);
}

/// A state that was stored elsewhere replaces the one that is kept; where none was
/// stored or it cannot be read, the one that is kept stays.
pub proof fn stored_state_is_taken_over(
    manager: ManagerV,
    text: Seq<char>,
    state: StateV,
    message: Seq<char>,
)
    ensures
        restored(manager, None) == (Ok::<(), Seq<char>>(()), manager),
        restored(manager, Some(Err(message))) == (Err::<(), Seq<char>>(message), manager),
        stored_state(Some(Ok(text))) == Ok::<StateV, Seq<char>>(state) ==> restored(
            manager,
            Some(Ok(text)),
        ) == (Ok::<(), Seq<char>>(()), ManagerV { state, ..manager }),
{
}

/// The settings of the host are kept as they are given, the address of a proxy without
/// blanks around it; the records of the plugins stay.
pub proof fn host_settings_are_kept(
    manager: ManagerV,
    enabled: bool,
    minimized: bool,
    proxy: ProxyV,
)
    ensures
        with_autostart(manager, enabled, minimized).state == (StateV {
            plugins: manager.state.plugins,
            auto_start_with_windows: enabled,
            start_minimized: minimized,
            proxy: manager.state.proxy,
        }),
        with_autostart(manager, enabled, minimized) == (ManagerV {
            state: with_autostart(manager, enabled, minimized).state,
            ..manager
        }),
        with_proxy(manager, proxy).state == (StateV {
            plugins: manager.state.plugins,
            auto_start_with_windows: manager.state.auto_start_with_windows,
            start_minimized: manager.state.start_minimized,
            proxy: ProxyV { mode: proxy.mode, url: trimmed(proxy.url) },
        }),
        with_proxy(manager, proxy) == (ManagerV {
            state: with_proxy(manager, proxy).state,
            ..manager
        }),
{
}

/// A plugin is asked to quit over its pipe from the second protocol on.
pub proof fn plugin_of_the_second_protocol_is_asked(manifest: ManifestV)
    ensures
        quitting_pipe(Some(manifest)) is Some <==> manifest.plugin_protocol >= 2,
        quitting_pipe(Some(manifest)) matches Some(pipe) ==> pipe == manifest.pipe_name,
        quitting_pipe(None) is None,
{
}

/// The host shows its version.
pub proof fn host_shows_its_version(
    manager: ManagerV,
    facts: Seq<FactsV>,
    data_directory: Seq<char>,
    warning: Option<Seq<char>>,
)
    ensures
        snapshot_of(manager, facts, data_directory, warning).host_version == "0.1.3"@,
{
}

} // verus!
