//! Laws of the host: what a plugin is sent, what a profile shows, and when a
//! slideshow goes on.
use vstd::prelude::*;

use crate::address::{url_parsed, UrlV};
use crate::digest::sha256_of;
use crate::host_core::{
    activated, advanced, applied, capabilities_of, clock_read, clock_started, command_route,
    configured, detail_of, dropped, first_other, forgotten, fresh_core, greeted, hello_verdict,
    is_due, media_limit, next_media, normalized_core, noted_cards, patch_check, place_in,
    played_ids, protocol_of, refresh_route, runs_slideshow_of, schema_of, sent_params, shown_media,
    shows_folder, size_verdict, switched_core, takes_media, tick_of, updated, updated_profile,
    uses_media, was_active, with_preview, without_media, CommandRoute, CoreV, MoveV, RouteV,
};
use crate::json::{
    collected, json_text, lemma_collected_member, lemma_pair_found, names_differ, same_json, JsonV,
    Num,
};
use crate::laws::media::{first_with_id_is_found, names_item};
use crate::manifest::ManifestV;
use crate::media::{item_with_id, LibraryV, ResolvedV};
use crate::models::{ItemV, MediaKind, MediaOrigin, SlideshowOrder};
use crate::media_server::{media_url, ServerV};
use crate::plugins::{enabled_in, CardV, ManagerV};
use crate::thumbnails::ThumbnailV;
use crate::profile::{bounds_ordered, default_schema, patched, sanitized, PatchV, ProfileV};
use crate::protocol::{configure_params, configure_value, enabled_names, ConfigureMediaV};
use crate::text::{decimal, lemma_position_of, position_of, without_text};

verus! {

// ---------------------------------------------------------------------------
// What a plugin is sent
// ---------------------------------------------------------------------------

/// The members of `configure` parameters and of their media are what was handed
/// in, each under its name.
pub proof fn configure_members(revision: Seq<char>, media: ConfigureMediaV, display: JsonV)
    ensures
        ({
            let value = configure_value(revision, media, display);
            &&& value.get("schemaVersion"@) == Some(JsonV::Num(Num::PosInt(1)))
            &&& value.get_str("revision"@) == Some(revision)
            &&& value.get("display"@) == Some(display)
            &&& value.get("media"@) matches Some(sent) && {
                &&& sent.get_str("url"@) == Some(media.url)
                &&& sent.get_str("kind"@) == Some(media.kind)
                &&& sent.get_str("mimeType"@) == Some(media.mime_type)
                &&& sent.get_str("sha256"@) == Some(media.sha256)
                &&& sent.get("byteSize"@) == Some(JsonV::Num(Num::PosInt(media.byte_size)))
            }
        }),
{
    reveal_strlit("schemaVersion");
    reveal_strlit("revision");
    reveal_strlit("media");
    reveal_strlit("display");
    reveal_strlit("url");
    reveal_strlit("kind");
    reveal_strlit("mimeType");
    reveal_strlit("sha256");
    reveal_strlit("byteSize");
    let inner = seq![
        ("url"@, JsonV::Text(media.url)),
        ("kind"@, JsonV::Text(media.kind)),
        ("mimeType"@, JsonV::Text(media.mime_type)),
        ("sha256"@, JsonV::Text(media.sha256)),
        ("byteSize"@, JsonV::Num(Num::PosInt(media.byte_size))),
    ];
    let outer = seq![
        ("schemaVersion"@, JsonV::Num(Num::PosInt(1))),
        ("revision"@, JsonV::Text(revision)),
        ("media"@, JsonV::Object(collected(inner))),
        ("display"@, display),
    ];
    assert("url"@.len() == 3 && "kind"@.len() == 4 && "sha256"@.len() == 6);
    assert("mimeType"@.len() == 8 && "byteSize"@.len() == 8);
    assert("mimeType"@[0] == 'm' && "byteSize"@[0] == 'b');
    assert("schemaVersion"@.len() == 13 && "revision"@.len() == 8);
    assert("media"@.len() == 5 && "display"@.len() == 7);
    assert(names_differ(inner));
    assert(names_differ(outer));
    lemma_pair_found(inner, 0);
    lemma_pair_found(inner, 1);
    lemma_pair_found(inner, 2);
    lemma_pair_found(inner, 3);
    lemma_pair_found(inner, 4);
    lemma_collected_member(inner, "url"@);
    lemma_collected_member(inner, "kind"@);
    lemma_collected_member(inner, "mimeType"@);
    lemma_collected_member(inner, "sha256"@);
    lemma_collected_member(inner, "byteSize"@);
    lemma_pair_found(outer, 0);
    lemma_pair_found(outer, 1);
    lemma_pair_found(outer, 2);
    lemma_pair_found(outer, 3);
    lemma_collected_member(outer, "schemaVersion"@);
    lemma_collected_member(outer, "revision"@);
    lemma_collected_member(outer, "media"@);
    lemma_collected_member(outer, "display"@);
}

/// A plugin is told of the file that it is to show: a video as a video and an
/// image as an image, with the address, the type, the digest and the size of that
/// file, and the display settings as its schema allows them. The revision is the
/// digest of the file's digest, a zero byte and the settings.
pub proof fn sent_params_describe_the_media(
    profile: ProfileV,
    schema: JsonV,
    url: Seq<char>,
    media: ResolvedV,
    parsed: Option<UrlV>,
)
    requires
        sent_params(profile, schema, url, media, parsed) is Ok,
    ensures
        ({
            let value = sent_params(profile, schema, url, media, parsed)->Ok_0;
            &&& value.get("media"@) matches Some(sent) && {
                &&& sent.get_str("kind"@) == Some("video"@) <==> media.kind == MediaKind::Video
                &&& sent.get_str("kind"@) == Some("image"@) <==> media.kind == MediaKind::Image
                &&& sent.get_str("url"@) == Some(url)
                &&& sent.get_str("mimeType"@) == Some(media.mime_type)
                &&& sent.get_str("sha256"@) == Some(media.sha256)
                &&& sent.get("byteSize"@) == Some(JsonV::Num(Num::PosInt(media.byte_size)))
            }
            &&& value.get("schemaVersion"@) == Some(JsonV::Num(Num::PosInt(1)))
            &&& value.get("display"@) == Some(sanitized(profile.display, Some(schema)))
            &&& value.get_str("revision"@) == Some(
                sha256_of(
                    vstd::utf8::encode_utf8(media.sha256) + seq![0u8] + vstd::utf8::encode_utf8(
                        json_text(sanitized(profile.display, Some(schema))),
                    ),
                ),
            )
        }),
{
    let display = sanitized(profile.display, Some(schema));
    let revision = sha256_of(
        vstd::utf8::encode_utf8(media.sha256) + seq![0u8] + vstd::utf8::encode_utf8(
            json_text(display),
        ),
    );
    let sent = ConfigureMediaV {
        url,
        kind: if media.kind == MediaKind::Video {
            "video"@
        } else {
            "image"@
        },
        mime_type: media.mime_type,
        sha256: media.sha256,
        byte_size: media.byte_size,
    };
    assert(configure_params(revision, sent, display, parsed) == sent_params(
        profile,
        schema,
        url,
        media,
        parsed,
    ));
    configure_members(revision, sent, display);
    reveal_strlit("video");
    reveal_strlit("image");
    assert("video"@[0] == 'v' && "image"@[0] == 'i');
}

/// A plugin speaks the protocol that it named, else the one of its manifest, else
/// the first; and it takes media from the second on.
pub proof fn protocol_comes_from_the_plugin(core: CoreV, id: Seq<char>, manifest: Option<ManifestV>)
    ensures
        core.hello.contains_key(id) ==> protocol_of(core, id, manifest)
            == core.hello[id].plugin_protocol,
        !core.hello.contains_key(id) ==> (manifest matches Some(found) ==> protocol_of(
            core,
            id,
            manifest,
        ) == found.plugin_protocol),
        !core.hello.contains_key(id) && manifest is None ==> protocol_of(core, id, manifest) == 1,
        takes_media(core, id, manifest) <==> protocol_of(core, id, manifest) >= 2,
{
}

/// A limit between 1 and 1073741824 bytes that a plugin names counts, what it said
/// itself before what its manifest says; otherwise the limit is 67108864 bytes.
pub proof fn named_limit_counts(core: CoreV, id: Seq<char>, manifest: Option<ManifestV>, n: u64)
    requires
        1 <= n <= 1073741824,
    ensures
        core.hello.contains_key(id) && core.hello[id].capabilities.get("maxMediaBytes"@) == Some(
            JsonV::Num(Num::PosInt(n)),
        ) ==> media_limit(core, id, manifest) == n,
        (!core.hello.contains_key(id) || core.hello[id].capabilities.get("maxMediaBytes"@) is None)
            && (manifest matches Some(found) && found.capabilities.get("maxMediaBytes"@) == Some(
            JsonV::Num(Num::PosInt(n)),
        )) ==> media_limit(core, id, manifest) == n,
{
}

/// Without a limit that counts a plugin takes files of up to 67108864 bytes, and
/// no plugin takes more than 1073741824 or nothing at all.
pub proof fn unnamed_limit_is_the_default(core: CoreV, id: Seq<char>, manifest: Option<ManifestV>)
    ensures
        1 <= media_limit(core, id, manifest) <= 1073741824,
        (!core.hello.contains_key(id) || core.hello[id].capabilities.get("maxMediaBytes"@) is None)
            && (manifest matches Some(found) ==> found.capabilities.get("maxMediaBytes"@) is None)
            ==> media_limit(core, id, manifest) == 67108864,
        core.hello.contains_key(id) && (core.hello[id].capabilities.get("maxMediaBytes"@) matches Some(
            JsonV::Num(Num::PosInt(n)),
        ) && (n == 0 || n > 1073741824)) ==> media_limit(core, id, manifest) == 67108864,
{
}

/// The schema of a plugin is the object that its manifest holds, or the default.
pub proof fn schema_comes_from_the_manifest(manifest: ManifestV)
    ensures
        manifest.settings_schema is Object ==> schema_of(Some(manifest))
            == manifest.settings_schema,
        !(manifest.settings_schema is Object) ==> schema_of(Some(manifest)) == default_schema(),
        schema_of(None) == default_schema(),
{
}

/// A greeting is taken exactly where the plugin answered, named the second
/// protocol, and gave the name that the host knows it by; and what is kept is what
/// it said.
pub proof fn accepted_greeting_is_from_the_plugin(
    id: Seq<char>,
    reply: Result<JsonV, Seq<char>>,
)
    requires
        hello_verdict(id, reply) is Ok,
    ensures
        reply matches Ok(value) && {
            let hello = hello_verdict(id, reply)->Ok_0;
            &&& value.get("pluginProtocol"@) == Some(JsonV::Num(Num::PosInt(2)))
            &&& hello.plugin_protocol == 2
            &&& value.get_str("pluginId"@) == Some(id)
            &&& hello.plugin_id == id
            &&& value.get_str("version"@) == Some(hello.version)
            &&& value.get("capabilities"@) == Some(hello.capabilities)
        },
{
}

/// Seven commands may be given: `apply`, which sends the media first, and six that
/// are sent as they are.
pub proof fn known_commands_are_carried_out(cmd: Seq<char>)
    ensures
        command_route(cmd) == Ok::<CommandRoute, Seq<char>>(CommandRoute::Apply) <==> cmd
            == "apply"@,
        command_route(cmd) == Ok::<CommandRoute, Seq<char>>(CommandRoute::Forward) <==> (cmd
            == "shutdown"@ || cmd == "quit-keep-target"@ || cmd == "pause"@ || cmd == "restore"@
            || cmd == "status"@ || cmd == "hello"@),
{
    reveal_strlit("apply");
    reveal_strlit("open-ui");
    reveal_strlit("shutdown");
    reveal_strlit("quit-keep-target");
    reveal_strlit("pause");
    reveal_strlit("restore");
    reveal_strlit("status");
    reveal_strlit("hello");
    assert("apply"@.len() == 5 && "apply"@[0] == 'a');
    assert("open-ui"@.len() == 7 && "open-ui"@[0] == 'o');
    assert("shutdown"@.len() == 8 && "quit-keep-target"@.len() == 16);
    assert("pause"@.len() == 5 && "pause"@[0] == 'p');
    assert("restore"@.len() == 7 && "restore"@[0] == 'r');
    assert("status"@.len() == 6);
    assert("hello"@.len() == 5 && "hello"@[0] == 'h');
}

// ---------------------------------------------------------------------------
// What a profile shows
// ---------------------------------------------------------------------------

/// What is left of a list once a text is taken out: the others, in their order.
pub proof fn rest_of_a_list(list: Seq<Seq<char>>, text: Seq<char>)
    ensures
        without_text(list, text) == list.filter(|other: Seq<char>| other != text),
    decreases list.len(),
{
    reveal(Seq::filter);
    if list.len() > 0 {
        rest_of_a_list(list.drop_last(), text);
    }
}

proof fn lemma_first_of_the_rest(list: Seq<Seq<char>>, text: Seq<char>)
    ensures
        first_other(list, text) == (if without_text(list, text).len() == 0 {
            None
        } else {
            Some(without_text(list, text)[0])
        }),
    decreases list.len(),
{
    if list.len() > 0 {
        let front = list.drop_last();
        lemma_first_of_the_rest(front, text);
        lemma_other_in_front(list, text);
    }
}

proof fn lemma_other_in_front(list: Seq<Seq<char>>, text: Seq<char>)
    requires
        list.len() > 0,
    ensures
        first_other(list, text) == (match first_other(list.drop_last(), text) {
            Some(found) => Some(found),
            None => if list.last() == text {
                None
            } else {
                Some(list.last())
            },
        }),
    decreases list.len(),
{
    reveal_with_fuel(first_other, 2);
    if list.len() > 1 {
        assert(list.drop_first().drop_last() =~= list.drop_last().drop_first());
        lemma_other_in_front(list.drop_first(), text);
    }
}

/// Taking a media item out of a profile leaves what the profile shows, unless that
/// is the item itself: then the first of what is left of the playlist is shown, or
/// nothing where nothing is left. The rest of the playlist keeps its order, and
/// nothing else changes.
pub proof fn dropped_media_leaves_the_rest(profile: ProfileV, m: Seq<char>)
    ensures
        ({
            let after = without_media(profile, m);
            let rest = profile.playlist_ids.filter(|id: Seq<char>| id != m);
            &&& after.playlist_ids == rest
            &&& profile.active_media_id != Some(m) ==> after.active_media_id
                == profile.active_media_id
            &&& profile.active_media_id == Some(m) && rest.len() > 0 ==> after.active_media_id
                == Some(rest[0])
            &&& profile.active_media_id == Some(m) && rest.len() == 0 ==> after.active_media_id
                is None
            &&& after.slideshow == profile.slideshow
            &&& after.display == profile.display
            &&& after.schema_version == profile.schema_version
        }),
{
    rest_of_a_list(profile.playlist_ids, m);
    lemma_first_of_the_rest(profile.playlist_ids, m);
}

/// A profile uses a media item exactly where it shows it or has it in its
/// playlist; one that does not is left as it is when the item goes.
pub proof fn unused_media_goes_unnoticed(profile: ProfileV, m: Seq<char>)
    requires
        profile.active_media_id != Some(m),
        forall|i: int| 0 <= i < profile.playlist_ids.len() ==> profile.playlist_ids[i] != m,
    ensures
        !uses_media(profile, m),
        without_media(profile, m) == profile,
{
    lemma_nothing_taken_out(profile.playlist_ids, m);
}

proof fn lemma_nothing_taken_out(list: Seq<Seq<char>>, text: Seq<char>)
    requires
        forall|i: int| 0 <= i < list.len() ==> list[i] != text,
    ensures
        without_text(list, text) == list,
    decreases list.len(),
{
    if list.len() > 0 {
        assert forall|i: int| 0 <= i < list.drop_last().len() implies list.drop_last()[i]
            != text by {
            assert(list.drop_last()[i] == list[i]);
        }
        lemma_nothing_taken_out(list.drop_last(), text);
        assert(list.drop_last().push(list.last()) =~= list);
    } else {
        assert(list =~= Seq::empty());
    }
}

/// A profile may be changed to show items of the library, and no others.
pub proof fn patch_names_known_media(items: Seq<ItemV>, patch: PatchV)
    ensures
        patch_check(items, patch) is Ok <==> {
            &&& patch.active_media_id matches Some(Some(id)) ==> exists|k: int|
                0 <= k < items.len() && (#[trigger] items[k]).id == id
            &&& patch.playlist_ids matches Some(ids) ==> forall|i: int|
                0 <= i < ids.len() ==> names_item(items, #[trigger] ids[i])
        },
{
    if let Some(Some(id)) = patch.active_media_id {
        first_with_id_is_found(items, id);
    }
    if let Some(ids) = patch.playlist_ids {
        assert forall|i: int| 0 <= i < ids.len() implies (item_with_id(items, #[trigger] ids[i])
            is Some <==> names_item(items, ids[i])) by {
            first_with_id_is_found(items, ids[i]);
        }
    }
}

/// A profile that is changed keeps what the change does not name, and has its
/// display settings brought in line with the schema.
pub proof fn update_keeps_what_is_not_named(profile: ProfileV, patch: PatchV, schema: JsonV)
    ensures
        ({
            let after = updated_profile(profile, patch, schema);
            &&& patch.active_media_id is None ==> after.active_media_id == profile.active_media_id
            &&& patch.playlist_ids is None ==> after.playlist_ids == profile.playlist_ids
            &&& after.display == sanitized(patched(profile, patch).display, Some(schema))
            &&& after.active_media_id == patched(profile, patch).active_media_id
            &&& after.playlist_ids == patched(profile, patch).playlist_ids
            &&& after.slideshow == patched(profile, patch).slideshow
        }),
{
}

// ---------------------------------------------------------------------------
// The slideshow
// ---------------------------------------------------------------------------

/// A slideshow goes on exactly where the plugin runs and as many whole seconds as
/// its profile asks for have gone by since it last did.
pub proof fn slideshow_goes_on_after_its_interval(
    core: CoreV,
    id: Seq<char>,
    now: u64,
    running: bool,
)
    requires
        core.profiles.contains_key(id),
        core.slideshow_ticks.contains_key(id),
        core.slideshow_ticks[id] <= now,
    ensures
        is_due(core, id, now, running) <==> running && (now - core.slideshow_ticks[id]) / 1000
            >= core.profiles[id].slideshow.interval_seconds,
        is_due(core, id, now, running) <==> running && now - core.slideshow_ticks[id] >= 1000
            * core.profiles[id].slideshow.interval_seconds,
{
}

/// A slideshow whose clock has not started, or was set back, waits; and so does
/// that of a plugin which does not run.
pub proof fn slideshow_waits_for_its_clock(core: CoreV, id: Seq<char>, now: u64)
    requires
        core.profiles.contains_key(id),
        core.profiles[id].slideshow.interval_seconds > 0,
    ensures
        !core.slideshow_ticks.contains_key(id) ==> !is_due(core, id, now, true) && tick_of(
            core,
            id,
            now,
        ) == now,
        core.slideshow_ticks.contains_key(id) ==> tick_of(core, id, now)
            == core.slideshow_ticks[id],
        core.slideshow_ticks.contains_key(id) && now < core.slideshow_ticks[id] ==> !is_due(
            core,
            id,
            now,
            true,
        ),
        !is_due(core, id, now, false),
{
}

/// A slideshow is driven exactly where its profile has it on, the plugin is
/// enabled, and it takes media.
pub proof fn driven_slideshow_is_wanted(core: CoreV, id: Seq<char>, manifest: Option<ManifestV>)
    ensures
        runs_slideshow_of(core, id, manifest) <==> {
            &&& core.profiles.contains_key(id)
            &&& core.profiles[id].slideshow.enabled
            &&& enabled_in(core.plugins, id)
            &&& protocol_of(core, id, manifest) >= 2
        },
{
}

/// In order a slideshow goes from each item of the playlist to the one behind it,
/// and from the last to the first; one that shows nothing of the playlist goes to
/// the second item.
pub proof fn sequential_slideshow_follows_the_playlist(profile: ProfileV, i: int, seed: usize)
    requires
        profile.slideshow.order == SlideshowOrder::Sequential,
        profile.playlist_ids.len() >= 2,
        profile.playlist_ids.no_duplicates(),
        0 <= i < profile.playlist_ids.len(),
    ensures
        ({
            let ids = profile.playlist_ids;
            &&& profile.active_media_id == Some(ids[i]) && i + 1 < ids.len() ==> next_media(
                profile,
                seed,
            ) == ids[i + 1]
            &&& profile.active_media_id == Some(ids[i]) && i + 1 == ids.len() ==> next_media(
                profile,
                seed,
            ) == ids[0]
            &&& (profile.active_media_id matches Some(shown) ==> !ids.contains(shown))
                ==> next_media(profile, seed) == ids[1]
        }),
{
    let ids = profile.playlist_ids;
    if let Some(shown) = profile.active_media_id {
        lemma_position_of(ids, shown);
        if shown == ids[i] {
            assert(ids.contains(shown));
            assert(position_of(ids, shown) == Some(i));
        }
    }
    let place = place_in(ids, profile.active_media_id);
    crate::host_core::sequential_slideshow_goes_round(place, ids.len(), seed);
}

/// At random a slideshow goes to the item that was drawn, or to the one behind it
/// where that is shown already.
pub proof fn random_slideshow_follows_the_draw(profile: ProfileV, seed: usize)
    requires
        profile.slideshow.order == SlideshowOrder::Random,
        profile.playlist_ids.len() >= 2,
        profile.playlist_ids.no_duplicates(),
        profile.active_media_id matches Some(shown) && profile.playlist_ids.contains(shown),
    ensures
        ({
            let ids = profile.playlist_ids;
            let drawn = seed as int % ids.len() as int;
            next_media(profile, seed) == (if profile.active_media_id != Some(ids[drawn]) {
                ids[drawn]
            } else if drawn + 1 < ids.len() {
                ids[drawn + 1]
            } else {
                ids[0]
            })
        }),
{
    let ids = profile.playlist_ids;
    let shown = profile.active_media_id->0;
    lemma_position_of(ids, shown);
    let place = place_in(ids, profile.active_media_id);
    let drawn = seed as int % ids.len() as int;
    assert(0 <= drawn < ids.len());
    assert(ids[place] == shown);
    if drawn == place {
        crate::host_core::sequential_slideshow_goes_round(place, ids.len(), seed);
        assert((drawn + 1) % ids.len() as int == crate::host_core::next_place(
            place,
            ids.len(),
            SlideshowOrder::Sequential,
            seed,
        ));
    }
}

/// A profile without a playlist has only what it shows to go through.
pub proof fn playlist_is_gone_through(profile: ProfileV)
    ensures
        profile.playlist_ids.len() > 0 ==> played_ids(profile) == profile.playlist_ids,
        profile.playlist_ids.len() == 0 ==> played_ids(profile).len() <= 1,
{
}

/// A profile shows a folder exactly where the item of the library that it shows
/// comes from one.
pub proof fn shown_folder_is_in_the_library(core: CoreV, profile: ProfileV)
    ensures
        shows_folder(core, profile) ==> exists|k: int|
            0 <= k < core.library.items.len() && Some((#[trigger] core.library.items[k]).id)
                == profile.active_media_id && core.library.items[k].origin == MediaOrigin::Folder,
        profile.active_media_id is None ==> !shows_folder(core, profile),
{
    if let Some(id) = profile.active_media_id {
        first_with_id_is_found(core.library.items, id);
    }
}

// ---------------------------------------------------------------------------
// The host as a whole
// ---------------------------------------------------------------------------

/// A plugin is sent a media item exactly where it has a profile, takes a file of
/// that size, the item is served, and what is sent is accepted; a video is then
/// announced as a video and an image as an image, under the address at which it is
/// served, with its own type, digest and size.
pub proof fn plugin_is_sent_its_media(
    core: CoreV,
    id: Seq<char>,
    media_id: Seq<char>,
    media: ResolvedV,
    manifest: Option<ManifestV>,
)
    ensures
        configured(core, id, media_id, media, manifest) matches Some(Ok(value)) ==> {
            &&& core.profiles.contains_key(id)
            &&& media.byte_size <= media_limit(core, id, manifest)
            &&& media_url(core.media_server, media_id) is Some
            &&& value.get("media"@) matches Some(sent) && {
                &&& sent.get_str("kind"@) == Some("video"@) <==> media.kind == MediaKind::Video
                &&& sent.get_str("kind"@) == Some("image"@) <==> media.kind == MediaKind::Image
                &&& sent.get_str("url"@) == media_url(core.media_server, media_id)
                &&& sent.get_str("mimeType"@) == Some(media.mime_type)
                &&& sent.get_str("sha256"@) == Some(media.sha256)
                &&& sent.get("byteSize"@) == Some(JsonV::Num(Num::PosInt(media.byte_size)))
            }
            &&& value.get("display"@) == Some(
                sanitized(core.profiles[id].display, Some(schema_of(manifest))),
            )
            &&& value.get("schemaVersion"@) == Some(JsonV::Num(Num::PosInt(1)))
        },
        !core.profiles.contains_key(id) ==> (configured(
            core,
            id,
            media_id,
            media,
            manifest,
        ) matches Some(Err(_))),
        media.byte_size > media_limit(core, id, manifest) ==> (configured(
            core,
            id,
            media_id,
            media,
            manifest,
        ) matches Some(Err(_))),
        media_url(core.media_server, media_id) is None ==> (configured(
            core,
            id,
            media_id,
            media,
            manifest,
        ) matches Some(Err(_))),
        core.profiles.contains_key(id) && media.byte_size <= media_limit(core, id, manifest)
            && media_url(core.media_server, media_id) is Some && bounds_ordered(
            Some(schema_of(manifest)),
        ) ==> configured(core, id, media_id, media, manifest) == Some(
            sent_params(
                core.profiles[id],
                schema_of(manifest),
                media_url(core.media_server, media_id)->0,
                media,
                url_parsed(media_url(core.media_server, media_id)->0),
            ),
        ),
{
    if core.profiles.contains_key(id) && media.byte_size <= media_limit(core, id, manifest)
        && media_url(core.media_server, media_id) is Some && bounds_ordered(
        Some(schema_of(manifest)),
    ) {
        let url = media_url(core.media_server, media_id)->0;
        if sent_params(core.profiles[id], schema_of(manifest), url, media, url_parsed(url)) is Ok {
            sent_params_describe_the_media(
                core.profiles[id],
                schema_of(manifest),
                url,
                media,
                url_parsed(url),
            );
        }
    }
}

/// A file is of a size that a plugin takes exactly where it is within its limit;
/// the complaint names both in units of 1048576 bytes, the size rounded up.
pub proof fn large_file_is_refused(
    core: CoreV,
    id: Seq<char>,
    manifest: Option<ManifestV>,
    size: u64,
    units: nat,
)
    ensures
        size_verdict(core, id, manifest, size) is Ok <==> size <= media_limit(core, id, manifest),
        size > media_limit(core, id, manifest) && 1048576 * (units - 1) < size <= 1048576 * units
            ==> size_verdict(core, id, manifest, size) == Err::<(), Seq<char>>(
            "当前插件最多接收 "@ + decimal((media_limit(core, id, manifest) / 1048576) as nat)
                + " MiB 的单个媒体，所选文件为 "@ + decimal(units) + " MiB。"@,
        ),
{
    if 1048576 * (units - 1) < size <= 1048576 * units {
        assert((size as nat + 1048575) / 1048576 == units);
    }
}

/// A plugin may show an item of the library, or none; its profile then has that
/// item and nothing else changes.
pub proof fn chosen_media_is_shown(
    core: CoreV,
    id: Seq<char>,
    media_id: Option<Seq<char>>,
    other: Seq<char>,
)
    ensures
        activated(core, id, media_id).0 is Ok <==> core.profiles.contains_key(id) && (
        media_id matches Some(wanted) ==> names_item(core.library.items, wanted)),
        activated(core, id, media_id).0 is Err ==> activated(core, id, media_id).1 == core,
        activated(core, id, media_id).0 is Ok ==> {
            let after = activated(core, id, media_id).1;
            &&& after.profiles[id].active_media_id == media_id
            &&& after.profiles[id].playlist_ids == core.profiles[id].playlist_ids
            &&& after.profiles[id].display == core.profiles[id].display
            &&& after.profiles[id].slideshow == core.profiles[id].slideshow
            &&& other != id ==> (after.profiles.contains_key(other) <==> core.profiles.contains_key(
                other,
            )) && (core.profiles.contains_key(other) ==> after.profiles[other]
                == core.profiles[other])
            &&& after.library == core.library
            &&& after.plugins == core.plugins
        },
{
    if let Some(wanted) = media_id {
        first_with_id_is_found(core.library.items, wanted);
    }
}

/// An item that goes is out of the profile of the plugin, which shows what it
/// showed, unless that was the item; the other profiles stay.
pub proof fn media_goes_from_one_profile(
    core: CoreV,
    id: Seq<char>,
    m: Seq<char>,
    other: Seq<char>,
)
    requires
        core.profiles.contains_key(id),
    ensures
        ({
            let after = dropped(core, id, m);
            let before = core.profiles[id];
            let rest = before.playlist_ids.filter(|item: Seq<char>| item != m);
            &&& after.profiles.contains_key(id)
            &&& after.profiles[id].playlist_ids == rest
            &&& before.active_media_id != Some(m) ==> after.profiles[id].active_media_id
                == before.active_media_id
            &&& before.active_media_id == Some(m) ==> after.profiles[id].active_media_id == (
            if rest.len() > 0 {
                Some(rest[0])
            } else {
                None
            })
            &&& other != id && core.profiles.contains_key(other) ==> after.profiles.contains_key(
                other,
            ) && after.profiles[other] == core.profiles[other]
            &&& after.library == core.library
        }),
{
    dropped_media_leaves_the_rest(core.profiles[id], m);
}

/// A change of a profile that names only items of the library is made; one that
/// names others, or is of a plugin without a profile, changes nothing.
pub proof fn sound_change_is_made(
    core: CoreV,
    id: Seq<char>,
    patch: PatchV,
    schema: JsonV,
    other: Seq<char>,
)
    ensures
        core.profiles.contains_key(id) && bounds_ordered(Some(schema)) && patch_check(
            core.library.items,
            patch,
        ) is Ok ==> updated(core, id, patch, schema).0 == Some(Ok::<(), Seq<char>>(())) && updated(
            core,
            id,
            patch,
            schema,
        ).1.profiles[id] == updated_profile(core.profiles[id], patch, schema),
        !core.profiles.contains_key(id) || patch_check(core.library.items, patch) is Err ==> (
        updated(core, id, patch, schema).0 matches Some(Err(_))) && updated(
            core,
            id,
            patch,
            schema,
        ).1 == core,
        other != id && core.profiles.contains_key(other) ==> updated(
            core,
            id,
            patch,
            schema,
        ).1.profiles.contains_key(other) && updated(core, id, patch, schema).1.profiles[other]
            == core.profiles[other],
        updated(core, id, patch, schema).1.library == core.library,
{
}

/// What a plugin shows is the item of the library that its profile names, in the
/// order of its slideshow; an item that is not there is complained of.
pub proof fn shown_media_is_in_the_library(core: CoreV, id: Seq<char>)
    ensures
        !core.profiles.contains_key(id) ==> shown_media(core, id) is Err,
        core.profiles.contains_key(id) && core.profiles[id].active_media_id is None
            ==> shown_media(core, id) == Ok::<Option<(ItemV, SlideshowOrder)>, Seq<char>>(None),
        core.profiles.contains_key(id) ==> (core.profiles[id].active_media_id matches Some(wanted)
            ==> {
            &&& names_item(core.library.items, wanted) ==> (shown_media(core, id) matches Ok(
                Some((item, order)),
            ) && item.id == wanted && core.library.items.contains(item) && order
                == core.profiles[id].slideshow.order)
            &&& !names_item(core.library.items, wanted) ==> shown_media(core, id) is Err
        }),
{
    if core.profiles.contains_key(id) {
        if let Some(wanted) = core.profiles[id].active_media_id {
            first_with_id_is_found(core.library.items, wanted);
        }
    }
}

/// An item of an interface that gives another picture each time is downloaded again
/// from its address, a folder goes on in the order of the profile, and nothing else
/// can be refreshed.
pub proof fn refreshed_by_its_origin(core: CoreV, id: Seq<char>, media_id: Seq<char>)
    ensures
        !names_item(core.library.items, media_id) ==> refresh_route(core, id, media_id) is Err,
        item_with_id(core.library.items, media_id) matches Some(item) ==> {
            &&& item.origin == MediaOrigin::Api ==> (item.source_url matches Some(url)
                ==> refresh_route(core, id, media_id) == Ok::<RouteV, Seq<char>>(
                RouteV::Download(url),
            ))
            &&& item.origin == MediaOrigin::Folder ==> (refresh_route(core, id, media_id) matches Ok(
                RouteV::Advance(found, order),
            ) && found == item && (core.profiles.contains_key(id) ==> order
                == core.profiles[id].slideshow.order) && (!core.profiles.contains_key(id) ==> order
                == SlideshowOrder::Sequential))
            &&& item.origin == MediaOrigin::Local || item.origin == MediaOrigin::Remote
                ==> refresh_route(core, id, media_id) is Err
        },
{
    first_with_id_is_found(core.library.items, media_id);
}

/// The clock of a slideshow that is on is started where it does not run, and keeps
/// running where it does; that of one that is off is left alone.
pub proof fn clock_runs_while_the_slideshow_is_on(core: CoreV, id: Seq<char>, now: u64)
    requires
        core.profiles.contains_key(id),
    ensures
        core.profiles[id].slideshow.enabled ==> {
            let after = clock_started(core, id, now);
            &&& after.slideshow_ticks.contains_key(id)
            &&& !core.slideshow_ticks.contains_key(id) ==> after.slideshow_ticks[id] == now
            &&& core.slideshow_ticks.contains_key(id) ==> after.slideshow_ticks[id]
                == core.slideshow_ticks[id]
            &&& after.profiles == core.profiles
        },
        !core.profiles[id].slideshow.enabled ==> clock_started(core, id, now) == core,
{
}

/// The clock of a slideshow starts anew exactly where it goes on: after that it
/// waits its whole interval again.
pub proof fn clock_starts_anew_when_it_goes_on(
    core: CoreV,
    id: Seq<char>,
    now: u64,
    later: u64,
    running: bool,
)
    requires
        core.profiles.contains_key(id),
        core.profiles[id].slideshow.interval_seconds > 0,
        core.slideshow_ticks.contains_key(id),
        core.slideshow_ticks[id] <= now <= later,
    ensures
        ({
            let after = clock_read(core, id, now, running);
            &&& after.slideshow_ticks.contains_key(id)
            &&& after.profiles == core.profiles
            &&& running && now - core.slideshow_ticks[id] >= 1000
                * core.profiles[id].slideshow.interval_seconds ==> after.slideshow_ticks[id] == now
                && (is_due(after, id, later, true) <==> later - now >= 1000
                * core.profiles[id].slideshow.interval_seconds)
            &&& !running || now - core.slideshow_ticks[id] < 1000
                * core.profiles[id].slideshow.interval_seconds ==> after.slideshow_ticks[id]
                == core.slideshow_ticks[id]
        }),
{
}

/// A slideshow shows another item of the playlist, or has the folder that is shown
/// go on, or stays where there is nothing else to show; only what is shown changes.
pub proof fn slideshow_moves_on(core: CoreV, id: Seq<char>, seed: usize)
    requires
        core.profiles.contains_key(id),
    ensures
        ({
            let (step, after) = advanced(core, id, seed);
            let profile = core.profiles[id];
            &&& shows_folder(core, profile) ==> after == core && (step matches Ok(
                MoveV::Advance(item, order),
            ) && order == profile.slideshow.order && Some(item.id) == profile.active_media_id
                && item.origin == MediaOrigin::Folder)
            &&& !shows_folder(core, profile) && profile.playlist_ids.len() < 2 ==> after == core
                && step == Ok::<MoveV, Seq<char>>(MoveV::Stay)
            &&& !shows_folder(core, profile) && profile.playlist_ids.len() >= 2 ==> {
                &&& step == Ok::<MoveV, Seq<char>>(MoveV::Moved)
                &&& after.profiles[id].playlist_ids == profile.playlist_ids
                &&& after.profiles[id].slideshow == profile.slideshow
                &&& after.profiles[id].display == profile.display
                &&& after.library == core.library
                &&& profile.playlist_ids.no_duplicates() ==> (
                after.profiles[id].active_media_id matches Some(shown)
                    && profile.playlist_ids.contains(shown) && Some(shown)
                    != profile.active_media_id)
            }
        }),
{
    let profile = core.profiles[id];
    if let Some(shown) = profile.active_media_id {
        first_with_id_is_found(core.library.items, shown);
    }
    if profile.playlist_ids.len() >= 2 && profile.playlist_ids.no_duplicates() {
        crate::host_core::slideshow_changes_the_media(profile, seed);
    }
}

/// In order, moving a slideshow on shows the item behind the one that is shown, and
/// the first behind the last.
pub proof fn slideshow_moves_on_in_order(core: CoreV, id: Seq<char>, i: int, seed: usize)
    requires
        core.profiles.contains_key(id),
        !shows_folder(core, core.profiles[id]),
        core.profiles[id].slideshow.order == SlideshowOrder::Sequential,
        core.profiles[id].playlist_ids.len() >= 2,
        core.profiles[id].playlist_ids.no_duplicates(),
        0 <= i < core.profiles[id].playlist_ids.len(),
        core.profiles[id].active_media_id == Some(core.profiles[id].playlist_ids[i]),
    ensures
        advanced(core, id, seed).1.profiles[id].active_media_id == Some(
            if i + 1 < core.profiles[id].playlist_ids.len() {
                core.profiles[id].playlist_ids[i + 1]
            } else {
                core.profiles[id].playlist_ids[0]
            },
        ),
{
    sequential_slideshow_follows_the_playlist(core.profiles[id], i, seed);
}

/// A plugin applies its media again exactly where it last said that it is active.
pub proof fn active_plugin_applies_again(core: CoreV, id: Seq<char>, result: JsonV)
    ensures
        result.get_str("phase"@) == Some("active"@) ==> was_active(applied(core, id, result), id),
        result.get_str("phase"@) matches Some(phase) ==> (was_active(
            applied(core, id, result),
            id,
        ) <==> phase == "active"@),
        result.get_str("phase"@) is None ==> applied(core, id, result) == core,
        !core.last_phase.contains_key(id) ==> !was_active(core, id),
{
}

/// What a plugin has said is forgotten when it is switched off or taken off, and
/// kept when it is switched on.
pub proof fn plugin_that_stops_is_forgotten(core: CoreV, id: Seq<char>, other: Seq<char>)
    ensures
        !switched_core(core, id, false).hello.contains_key(id),
        switched_core(core, id, true).hello == core.hello,
        other != id && core.hello.contains_key(other) ==> switched_core(
            core,
            id,
            false,
        ).hello.contains_key(other) && forgotten(core, id).hello.contains_key(other),
        !forgotten(core, id).hello.contains_key(id),
        !forgotten(core, id).slideshow_ticks.contains_key(id),
        !forgotten(core, id).last_phase.contains_key(id),
        forgotten(core, id).profiles == core.profiles,
        forgotten(core, id).plugins == core.plugins,
        switched_core(core, id, true).profiles == core.profiles,
{
}

/// A greeting that is accepted is kept, and one that is not changes nothing.
pub proof fn accepted_greeting_is_kept(
    core: CoreV,
    id: Seq<char>,
    reply: Result<JsonV, Seq<char>>,
    manifest: Option<ManifestV>,
)
    ensures
        greeted(core, id, reply).0 is Ok ==> {
            let after = greeted(core, id, reply).1;
            &&& after.hello.contains_key(id)
            &&& after.hello[id].plugin_id == id
            &&& protocol_of(after, id, manifest) == 2
            &&& takes_media(after, id, manifest)
            &&& after.profiles == core.profiles
        },
        greeted(core, id, reply).0 is Err ==> greeted(core, id, reply).1 == core,
        greeted(core, id, reply).0 is Ok <==> hello_verdict(id, reply) is Ok,
        reply is Err ==> greeted(core, id, reply).0 is Err,
{
}

/// The details of a plugin show its profile under its schema, every item of the
/// library under the address at which it is served, and what the plugin can do.
pub proof fn details_show_the_plugin(
    core: CoreV,
    card: CardV,
    id: Seq<char>,
    manifest: Option<ManifestV>,
    sources: Seq<ThumbnailV>,
    i: int,
)
    ensures
        ({
            let detail = detail_of(core, card, id, manifest, sources);
            &&& detail.plugin == card
            &&& detail.profile.active_media_id == core.profiles[id].active_media_id
            &&& detail.profile.playlist_ids == core.profiles[id].playlist_ids
            &&& detail.profile.slideshow == core.profiles[id].slideshow
            &&& detail.profile.display == sanitized(
                core.profiles[id].display,
                Some(detail.settings_schema),
            )
            &&& detail.library.len() == core.library.items.len()
            &&& 0 <= i < core.library.items.len() ==> detail.library[i].id
                == core.library.items[i].id && detail.library[i].preview_url == media_url(
                core.media_server,
                core.library.items[i].id,
            ) && detail.library[i].name == core.library.items[i].name && detail.library[i].kind
                == core.library.items[i].kind
            &&& core.profiles[id].active_media_id matches Some(shown) ==> detail.preview_url
                == media_url(core.media_server, shown)
            &&& core.profiles[id].active_media_id is None ==> detail.preview_url is None
            &&& detail.plugin_protocol == protocol_of(core, id, manifest)
            &&& detail.settings_schema == schema_of(manifest)
            &&& detail.thumbnail_sources == sources
        }),
{
}

/// What a plugin can do is what it said itself, or else what its manifest says.
pub proof fn capabilities_come_from_the_plugin(
    core: CoreV,
    id: Seq<char>,
    manifest: Option<ManifestV>,
    members: Seq<(Seq<char>, JsonV)>,
)
    ensures
        core.hello.contains_key(id) && core.hello[id].capabilities == JsonV::Object(members)
            ==> capabilities_of(core, id, manifest) == enabled_names(members),
        !core.hello.contains_key(id) && (manifest matches Some(found) && found.capabilities
            == JsonV::Object(members)) ==> capabilities_of(core, id, manifest) == enabled_names(
            members,
        ),
        !core.hello.contains_key(id) && manifest is None ==> capabilities_of(core, id, manifest)
            == Seq::<Seq<char>>::empty(),
{
}

/// The overview shows each plugin with the protocol that it speaks, and nothing
/// else of its card changes.
pub proof fn overview_shows_the_protocols(
    core: CoreV,
    cards: Seq<CardV>,
    manifests: Seq<Option<ManifestV>>,
    i: int,
)
    requires
        0 <= i < cards.len(),
    ensures
        noted_cards(core, cards, manifests).len() == cards.len(),
        noted_cards(core, cards, manifests)[i].plugin_protocol == protocol_of(
            core,
            cards[i].id,
            manifests[i],
        ),
        noted_cards(core, cards, manifests)[i] == (CardV {
            plugin_protocol: protocol_of(core, cards[i].id, manifests[i]),
            ..cards[i]
        }),
{
}

/// The settings of a plugin become what its schema makes of them, and nothing else
/// of the host changes.
pub proof fn settings_fit_the_schema(core: CoreV, id: Seq<char>, schema: JsonV)
    requires
        core.profiles.contains_key(id),
    ensures
        ({
            let after = normalized_core(core, id, schema);
            &&& after.profiles.contains_key(id)
            &&& after.profiles[id].display == sanitized(core.profiles[id].display, Some(schema))
                || same_json(
                sanitized(core.profiles[id].display, Some(schema)),
                after.profiles[id].display,
            )
            &&& after.profiles[id] == (ProfileV {
                display: after.profiles[id].display,
                ..core.profiles[id]
            })
            &&& forall|other: Seq<char>| #[trigger]
                after.profiles.contains_key(other) <==> core.profiles.contains_key(other)
            &&& forall|other: Seq<char>| #[trigger]
                core.profiles.contains_key(other) && other != id ==> after.profiles[other]
                    == core.profiles[other]
            &&& after == (CoreV { profiles: after.profiles, ..core })
        }),
{
}

/// An item of the library is shown with the address at which it is served, and none
/// where it is not.
pub proof fn item_is_shown_with_its_address(server: ServerV, item: ItemV)
    ensures
        with_preview(server, item) == (ItemV {
            preview_url: with_preview(server, item).preview_url,
            ..item
        }),
        media_url(server, item.id) matches Some(url) ==> with_preview(server, item).preview_url
            == Some(url),
        media_url(server, item.id) is None ==> with_preview(server, item).preview_url is None,
{
}

/// A host that has just started has no profiles yet, has heard from no plugin, and
/// runs no clock.
pub proof fn new_host_knows_nothing(plugins: ManagerV, library: LibraryV, server: ServerV)
    ensures
        ({
            let core = fresh_core(plugins, library, server);
            &&& core.plugins == plugins
            &&& core.library == library
            &&& core.media_server == server
            &&& core.profiles == Map::<Seq<char>, ProfileV>::empty()
            &&& core.hello.dom() =~= Set::empty()
            &&& core.slideshow_ticks.dom() =~= Set::empty()
            &&& core.last_phase.dom() =~= Set::empty()
        }),
{
}

/// A profile uses media where it shows them or has them in its playlist.
pub proof fn media_is_used_where_it_is_shown_or_listed(profile: ProfileV, media_id: Seq<char>)
    ensures
        uses_media(profile, media_id) <==> profile.active_media_id == Some(media_id) || exists|k: int|
            0 <= k < profile.playlist_ids.len() && #[trigger] profile.playlist_ids[k] == media_id,
{
}

/// A plugin without a profile is taken to wait 300 seconds.
pub proof fn unknown_interval_is_five_minutes(core: CoreV, id: Seq<char>, now: u64)
    requires
        !core.profiles.contains_key(id),
        core.slideshow_ticks.contains_key(id),
        core.slideshow_ticks[id] <= now,
    ensures
        is_due(core, id, now, true) <==> now - core.slideshow_ticks[id] >= 300000,
{
}

} // verus!
