//! Laws of the taking over of older libraries.
use vstd::prelude::*;

use crate::json::{json_parsed, lemma_collected_member, lemma_pair_found, names_differ, JsonV};
use crate::laws::media::{first_with_digest_is_found, names_item};
use crate::media::{first_where, folder_at, lemma_first_where};
use crate::migrate::{
    after_item, entered, fresh_migration, items_taken, legacy_profile, legacy_step, mapped_id,
    marker_json, migrated, remapped, settings_taken, sources_taken, with_written, HostDataV,
    MigrationV, OldItemV, OldSourceV, StepV,
};
use crate::models::{ItemV, MediaOrigin};
use crate::profile::{normalized, text_values, ProfileV};

verus! {

/// A folder is in the library under this path.
pub open spec fn has_folder(items: Seq<ItemV>, path: Seq<char>) -> bool {
    exists|k: int|
        0 <= k < items.len() && (#[trigger] items[k]).origin == MediaOrigin::Folder
            && items[k].source_url == Some(path)
}

proof fn lemma_folder_at(items: Seq<ItemV>, path: Seq<char>)
    ensures
        folder_at(items, path) is Some <==> has_folder(items, path),
        folder_at(items, path) matches Some(item) ==> items.contains(item) && item.origin
            == MediaOrigin::Folder && item.source_url == Some(path),
{
    let p = |item: ItemV| item.origin == MediaOrigin::Folder && item.source_url == Some(path);
    lemma_first_where(items, p);
    if has_folder(items, path) {
        let k = choose|k: int|
            0 <= k < items.len() && (#[trigger] items[k]).origin == MediaOrigin::Folder
                && items[k].source_url == Some(path);
        assert(p(items[k]));
    }
    if let Some(i) = first_where(items, p) {
        assert(p(items[i]));
        assert(items.contains(items[i]));
    }
}

/// An old item is taken over exactly where it is there and nothing here has its
/// content, or, for a folder, its path; what is here already is known under its
/// identifier here, and the rest is refused.
pub proof fn old_item_is_judged(items: Seq<ItemV>, item: ItemV, present: bool, path: Seq<char>)
    ensures
        item.origin != MediaOrigin::Folder ==> {
            let known = exists|k: int|
                0 <= k < items.len() && (#[trigger] items[k]).sha256 == item.sha256
                    && items[k].origin != MediaOrigin::Folder;
            &&& known ==> (legacy_step(items, item, present, path) matches StepV::Known(id)
                && names_item(items, id))
            &&& !known && present ==> legacy_step(items, item, present, path) == StepV::Import
            &&& !known && !present ==> legacy_step(items, item, present, path) is Refused
        },
        item.origin == MediaOrigin::Folder ==> {
            &&& item.source_url is None || !present ==> legacy_step(items, item, present, path)
                is Refused
            &&& item.source_url matches Some(folder) ==> present ==> {
                &&& has_folder(items, folder) ==> (legacy_step(
                    items,
                    item,
                    present,
                    path,
                ) matches StepV::Known(id) && names_item(items, id))
                &&& !has_folder(items, folder) ==> legacy_step(items, item, present, path)
                    == StepV::Import
            }
        },
{
    first_with_digest_is_found(items, item.sha256);
    if let Some(found) = crate::media::item_with_digest(items, item.sha256) {
        let k = choose|k: int| 0 <= k < items.len() && items[k] == found;
        assert(items[k].id == found.id);
        assert(names_item(items, found.id));
    }
    if let Some(folder) = item.source_url {
        lemma_folder_at(items, folder);
        if let Some(found) = folder_at(items, folder) {
            let k = choose|k: int| 0 <= k < items.len() && items[k] == found;
            assert(items[k].id == found.id);
            assert(names_item(items, found.id));
        }
    }
}

/// What became of an item is noted: a new identifier is remembered under the old
/// one, what was added is counted, and what failed leaves the source unfinished.
pub proof fn outcome_of_an_item_is_noted(
    state: MigrationV,
    old_id: Seq<char>,
    id: Seq<char>,
    message: Seq<char>,
)
    requires
        state.report.media_added < u32::MAX,
    ensures
        ({
            let taken = after_item(state, old_id, StepV::Import, Ok(id));
            &&& taken.report.media_added == state.report.media_added + 1
            &&& id != old_id ==> mapped_id(taken.ids, old_id) == id
            &&& taken.source_complete == state.source_complete
            &&& taken.complete == state.complete
            &&& taken.report.sources == state.report.sources
            &&& taken.report.profiles_written == state.report.profiles_written
        }),
        ({
            let known = after_item(state, old_id, StepV::Known(id), Ok(id));
            &&& mapped_id(known.ids, old_id) == id
            &&& known.report == state.report
            &&& known.source_complete == state.source_complete
        }),
        ({
            let failed = after_item(state, old_id, StepV::Import, Err(message));
            &&& !failed.source_complete
            &&& failed.report == state.report
            &&& failed.ids == state.ids
        }),
{
}

/// An identifier that has another here is replaced by it wherever a profile names
/// it, and any other stays; nothing else of the profile changes.
pub proof fn old_identifiers_are_replaced(
    profile: ProfileV,
    ids: Map<Seq<char>, Seq<char>>,
    i: int,
)
    ensures
        ({
            let after = remapped(profile, ids);
            &&& profile.active_media_id matches Some(id) ==> after.active_media_id == Some(
                if ids.contains_key(id) {
                    ids[id]
                } else {
                    id
                },
            )
            &&& profile.active_media_id is None ==> after.active_media_id is None
            &&& after.playlist_ids.len() == profile.playlist_ids.len()
            &&& 0 <= i < profile.playlist_ids.len() ==> after.playlist_ids[i] == (
            if ids.contains_key(profile.playlist_ids[i]) {
                ids[profile.playlist_ids[i]]
            } else {
                profile.playlist_ids[i]
            })
            &&& after.display == profile.display
            &&& after.slideshow == profile.slideshow
            &&& after.schema_version == profile.schema_version
        }),
{
}

/// Old settings give the profile that a stored profile of that text would be, under
/// the identifiers of this library.
pub proof fn old_settings_are_a_profile(text: Seq<char>, ids: Map<Seq<char>, Seq<char>>)
    ensures
        json_parsed(text) matches Ok(value) ==> legacy_profile(Ok(text), ids) == Ok::<
            ProfileV,
            Seq<char>,
        >(remapped(normalized(value, None), ids)),
        json_parsed(text) is Err ==> legacy_profile(Ok(text), ids) is Err,
{
}

/// A source that is there is reported; what was unfinished before stays so, and
/// nothing is remembered from one source to the next.
pub proof fn sources_are_entered_one_by_one(state: MigrationV, plugin_id: Seq<char>, is_dir: bool)
    ensures
        ({
            let after = entered(state, plugin_id, is_dir);
            &&& is_dir ==> after.report.sources == state.report.sources.push(plugin_id)
            &&& !is_dir ==> after.report.sources == state.report.sources
            &&& after.complete <==> state.complete && state.source_complete
            &&& after.source_complete
            &&& forall|id: Seq<char>| #![auto] !after.ids.contains_key(id)
            &&& after.report.media_added == state.report.media_added
            &&& after.report.profiles_written == state.report.profiles_written
        }),
{
}

/// A profile is written only where the source is finished so far and there is none
/// yet; one that is there stays.
pub proof fn settings_do_not_replace_a_profile(
    data: HostDataV,
    state: MigrationV,
    source: OldSourceV,
)
    ensures
        data.profiles.contains_key(source.plugin_id) ==> settings_taken((data, state), source).0
            == data,
        !state.source_complete ==> settings_taken((data, state), source) == (data, state),
        state.source_complete && !data.profiles.contains_key(source.plugin_id) ==> (
        source.settings matches Some(raw) ==> (legacy_profile(raw, state.ids) matches Ok(profile)
            ==> {
            let (after, noted) = settings_taken((data, state), source);
            &&& after.profiles == data.profiles.insert(source.plugin_id, profile)
            &&& after.library == data.library
            &&& noted.report.profiles_written == state.report.profiles_written.push(
                source.plugin_id,
            )
        })),
{
}

proof fn lemma_items_keep_the_report(at: (HostDataV, MigrationV), items: Seq<OldItemV>)
    ensures
        items_taken(at, items).1.report.migrated == at.1.report.migrated,
        items_taken(at, items).1.report.sources == at.1.report.sources,
    decreases items.len(),
{
    if items.len() > 0 {
        lemma_items_keep_the_report(at, items.drop_last());
    }
}

proof fn lemma_sources_keep_the_report(at: (HostDataV, MigrationV), sources: Seq<OldSourceV>)
    ensures
        sources_taken(at, sources).1.report.migrated == at.1.report.migrated,
        sources_taken(at, sources).1.report.sources.len() >= at.1.report.sources.len(),
    decreases sources.len(),
{
    if sources.len() > 0 {
        lemma_sources_keep_the_report(at, sources.drop_last());
        let before = sources_taken(at, sources.drop_last());
        let source = sources.last();
        let state = entered(before.1, source.plugin_id, source.is_dir);
        if let Some(Some(items)) = source.items {
            lemma_items_keep_the_report((before.0, state), items);
        }
    }
}

/// A migration that was finished is marked and does not run again; one without any
/// source is finished at once and changes nothing.
pub proof fn migration_is_marked_when_finished(data: HostDataV, sources: Seq<OldSourceV>)
    ensures
        data.marked ==> migrated(data, sources).0 == data && !migrated(data, sources).1.migrated,
        !data.marked ==> migrated(data, sources).1.migrated,
        !data.marked && sources.len() == 0 ==> migrated(data, sources).0 == (HostDataV {
            marked: true,
            ..data
        }) && migrated(data, sources).1.media_added == 0,
{
    lemma_sources_keep_the_report((data, fresh_migration(true)), sources);
}

/// The mark of a migration says when it was finished and which sources it had.
pub proof fn mark_names_time_and_sources(completed_at: Seq<char>, sources: Seq<Seq<char>>)
    ensures
        marker_json(completed_at, sources).get_str("completedAt"@) == Some(completed_at),
        marker_json(completed_at, sources).get("sources"@) matches Some(JsonV::Array(values))
            && values.len() == sources.len() && forall|i: int|
            0 <= i < values.len() ==> #[trigger] values[i] == JsonV::Text(sources[i]),
{
    reveal_strlit("completedAt");
    reveal_strlit("sources");
    let pairs = seq![
        ("completedAt"@, JsonV::Text(completed_at)),
        ("sources"@, JsonV::Array(text_values(sources))),
    ];
    assert("completedAt"@.len() == 11 && "sources"@.len() == 7);
    assert(names_differ(pairs));
    lemma_pair_found(pairs, 0);
    lemma_pair_found(pairs, 1);
    lemma_collected_member(pairs, "completedAt"@);
    lemma_collected_member(pairs, "sources"@);
}

/// A migration begins with nothing taken over, and complete until something is not.
pub proof fn migration_begins_empty(migrated: bool)
    ensures
        ({
            let state = fresh_migration(migrated);
            &&& state.report.migrated == migrated
            &&& state.report.sources.len() == 0
            &&& state.report.media_added == 0
            &&& state.report.profiles_written.len() == 0
            &&& state.complete
            &&& state.source is None
            &&& state.ids == Map::<Seq<char>, Seq<char>>::empty()
        }),
{
}

/// A profile that was written is reported, behind those before it.
pub proof fn written_profile_is_reported(state: MigrationV, plugin_id: Seq<char>)
    ensures
        with_written(state, plugin_id).report.profiles_written == state.report.profiles_written
            + seq![plugin_id],
        with_written(state, plugin_id).report.media_added == state.report.media_added,
        with_written(state, plugin_id).report.sources == state.report.sources,
        with_written(state, plugin_id).ids == state.ids,
        with_written(state, plugin_id).complete == state.complete,
{
    assert(with_written(state, plugin_id).report.profiles_written
        =~= state.report.profiles_written + seq![plugin_id]);
}

proof fn lemma_items_keep_completeness(at: (HostDataV, MigrationV), items: Seq<OldItemV>)
    ensures
        items_taken(at, items).1.complete == at.1.complete,
        !at.1.source_complete ==> !items_taken(at, items).1.source_complete,
    decreases items.len(),
{
    if items.len() > 0 {
        lemma_items_keep_completeness(at, items.drop_last());
    }
}

/// A source that could not be taken over wholly is not forgotten: the migration is
/// not marked, whatever comes after it, and runs again.
pub proof fn unfinished_source_is_not_forgotten(data: HostDataV, sources: Seq<OldSourceV>)
    requires
        !data.marked,
        sources.len() > 0,
    ensures
        !migrated(data, sources.drop_last()).0.marked ==> !migrated(data, sources).0.marked,
        sources.last().is_dir && sources.last().items == Some(None::<Seq<OldItemV>>) ==> !migrated(
            data,
            sources,
        ).0.marked,
        !sources.last().is_dir ==> migrated(data, sources).0 == migrated(
            data,
            sources.drop_last(),
        ).0,
{
    let start = (data, fresh_migration(true));
    let before = sources_taken(start, sources.drop_last());
    let source = sources.last();
    let state = entered(before.1, source.plugin_id, source.is_dir);
    if let Some(Some(items)) = source.items {
        lemma_items_keep_completeness((before.0, state), items);
    }
}

/// An old item that is refused or cannot be copied leaves its source unfinished.
pub proof fn refused_item_leaves_the_source_unfinished(
    at: (HostDataV, MigrationV),
    items: Seq<OldItemV>,
)
    requires
        items.len() > 0,
        ({
            let old = items.last();
            let before = items_taken(at, items.drop_last()).0;
            legacy_step(before.library.items, old.item, old.present, old.path) is Refused
        }),
    ensures
        !items_taken(at, items).1.source_complete,
{
}

} // verus!
