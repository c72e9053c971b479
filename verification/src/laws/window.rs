//! Laws of what the window shows: sizes, states, forms, thumbnails and commands.
use vstd::prelude::*;

use crate::models::ItemV;
use crate::console::{
    begun, blank_console, handled, import_verdict, is_found, remote_verdict, sign_of, size_text,
    skipped_lines, steps_of, summary_of, tally, toggled, tone_of, ActionV, Command, ConsoleV,
    EventV, Step, Tone,
};
use crate::desktop::{
    compared_root, doubled_quotes, ending_script, startup_command, without_verbatim,
};
use crate::form::{form_of, input_of, label_at, InputV};
use crate::host_core::DetailV;
use crate::json::{member, JsonV};
use crate::laws::host::rest_of_a_list;
use crate::media::ResolvedV;
use crate::plugins::{CardV, SnapshotV};
use crate::profile::texts_of;
use crate::text::{decimal, has_part, has_prefix, lower, replaced, trimmed};
use crate::textures::{
    asked_texture, empty_textures, entry_in, stored_texture, textures_in, trimmed_entries,
    with_entry, without_entry, TextureStep, TexturesV,
};
use crate::thumbnails::{
    bitmap_height, is_bitmap, kept_name, opaque_pixels, source_of, TEXTURE_CACHE_BYTES,
    TEXTURE_CACHE_ENTRIES, THUMBNAIL_HEIGHT, THUMBNAIL_WIDTH,
};

verus! {

// ---------------------------------------------------------------------------
// States and sizes
// ---------------------------------------------------------------------------

/// A running plugin is shown green where it is active, red in error, amber where it
/// waits for the user and blue while it starts; one that does not run is muted.
pub proof fn tone_shows_the_state(phase: Seq<char>)
    ensures
        tone_of(phase, false) == Tone::Muted,
        tone_of(phase, true) == Tone::Green <==> phase == "active"@,
        tone_of(phase, true) == Tone::Red <==> phase == "error"@,
        tone_of(phase, true) == Tone::Amber <==> phase == "paused"@ || phase == "waiting_manual"@,
        tone_of(phase, true) == Tone::Blue <==> phase == "starting"@ || phase == "takeover"@
            || phase == "attaching"@,
{
    reveal_strlit("active");
    reveal_strlit("error");
    reveal_strlit("paused");
    reveal_strlit("waiting_manual");
    reveal_strlit("starting");
    reveal_strlit("takeover");
    reveal_strlit("attaching");
    assert("active"@.len() == 6 && "active"@[0] == 'a');
    assert("error"@.len() == 5);
    assert("paused"@.len() == 6 && "paused"@[0] == 'p');
    assert("waiting_manual"@.len() == 14);
    assert("starting"@.len() == 8 && "takeover"@.len() == 8 && "attaching"@.len() == 9);
}

/// Each tone has a sign of its own.
pub proof fn signs_differ(a: Tone, b: Tone)
    ensures
        sign_of(a) == sign_of(b) <==> a == b,
        sign_of(Tone::Green) == "●"@,
        sign_of(Tone::Red) == "■"@,
        sign_of(Tone::Amber) == "▲"@,
        sign_of(Tone::Blue) == "◆"@,
        sign_of(Tone::Muted) == "○"@,
{
    reveal_strlit("●");
    reveal_strlit("■");
    reveal_strlit("▲");
    reveal_strlit("◆");
    reveal_strlit("○");
    assert("●"@[0] == '●' && "■"@[0] == '■' && "▲"@[0] == '▲' && "◆"@[0] == '◆' && "○"@[0]
        == '○');
}

/// The plugins that are installed, run and have an update are counted one by one.
pub proof fn plugins_are_counted(cards: Seq<CardV>, card: CardV)
    ensures
        tally(Seq::empty()) == (0nat, 0nat, 0nat),
        tally(cards.push(card)).0 == tally(cards).0 + (if card.installed_version is Some {
            1nat
        } else {
            0
        }),
        tally(cards.push(card)).1 == tally(cards).1 + (if card.running {
            1nat
        } else {
            0
        }),
        tally(cards.push(card)).2 == tally(cards).2 + (if card.update_available {
            1nat
        } else {
            0
        }),
        summary_of(cards) == decimal(tally(cards).0) + " 已装 / "@ + decimal(tally(cards).1)
            + " 运行中"@,
{
    assert(cards.push(card).drop_last() =~= cards);
}

/// Below 1024 bytes a size is shown in bytes, below 1048576 in units of 1024, and
/// from there in units of 1048576, to the nearest tenth.
pub proof fn size_is_shown_in_its_unit(bytes: u64)
    requires
        bytes < 9007199254740992,
    ensures
        bytes < 1024 ==> size_text(bytes) == decimal(bytes as nat) + " B"@,
        1024 <= bytes < 1048576 ==> exists|tenths: nat| #[trigger]
            is_size_in(bytes, tenths, 1024, " KiB"@),
        1048576 <= bytes ==> exists|tenths: nat| #[trigger]
            is_size_in(bytes, tenths, 1048576, " MiB"@),
{
    let n = bytes as nat;
    assert(crate::console::spacing(n) == 1);
    assert(crate::console::nearest(n, 1) == n) by {
        assert(n / 1 == n && n % 1 == 0);
    }
    assert(crate::console::as_held(n) == n);
    if 1024 <= bytes < 1048576 {
        let tenths = crate::console::nearest(n * 10, 1024);
        lemma_nearest(n * 10, 1024);
        assert(is_size_in(bytes, tenths, 1024, " KiB"@));
    } else if 1048576 <= bytes {
        let tenths = crate::console::nearest(n * 10, 1048576);
        lemma_nearest(n * 10, 1048576);
        assert(is_size_in(bytes, tenths, 1048576, " MiB"@));
    }
}

/// The size is shown as so many tenths of a unit, and is no further from it than
/// half a tenth.
pub open spec fn is_size_in(bytes: u64, tenths: nat, unit: nat, name: Seq<char>) -> bool {
    &&& 2 * tenths * unit <= 20 * bytes + unit
    &&& 20 * bytes <= 2 * tenths * unit + unit
    &&& size_text(bytes) == decimal(tenths / 10) + "."@ + decimal(tenths % 10) + name
}

proof fn lemma_nearest(n: nat, d: nat)
    requires
        d > 0,
    ensures
        2 * crate::console::nearest(n, d) * d <= 2 * n + d,
        2 * n <= 2 * crate::console::nearest(n, d) * d + d,
{
    let q = n / d;
    let rest = n % d;
    assert(n == q * d + rest && rest < d) by (nonlinear_arith)
        requires
            q == n / d,
            rest == n % d,
            d > 0,
    ;
    assert((q + 1) * d == q * d + d) by (nonlinear_arith);
    assert(2 * q * d == 2 * (q * d)) by (nonlinear_arith);
    assert(2 * (q + 1) * d == 2 * ((q + 1) * d)) by (nonlinear_arith);
}

/// An item is found by a part of its name, whatever the case, and by nothing at
/// all.
pub proof fn search_looks_for_a_part(name: Seq<char>, search: Seq<char>)
    ensures
        trimmed(search).len() == 0 ==> is_found(name, search),
        trimmed(search).len() > 0 ==> (is_found(name, search) <==> has_part(
            lower(name),
            lower(trimmed(search)),
        )),
{
}

/// An item is put into a playlist at its end, or taken out of it, and the others
/// keep their order.
pub proof fn playlist_is_toggled(ids: Seq<Seq<char>>, id: Seq<char>)
    ensures
        !ids.contains(id) ==> toggled(ids, id) == ids.push(id),
        ids.contains(id) ==> toggled(ids, id) == ids.filter(|other: Seq<char>| other != id),
{
    rest_of_a_list(ids, id);
}

// ---------------------------------------------------------------------------
// Commands and events
// ---------------------------------------------------------------------------

/// A command is carried out once, but for those that only show or look; an
/// installation and a plugin that is switched on are greeted after it, and a
/// change of a plugin is shown last.
pub proof fn commands_are_carried_out_in_order(
    id: String,
    enabled: bool,
    action: String,
    media: String,
)
    ensures
        steps_of(Command::Refresh) == seq![
            Step::ReloadCatalog,
            Step::RefreshLatest,
            Step::GreetEnabled,
        ],
        steps_of(Command::Install(id)) == seq![Step::Perform, Step::Greet, Step::ShowDetail],
        steps_of(Command::Uninstall(id)) == seq![Step::Perform],
        steps_of(Command::SetEnabled(id, true)) == seq![Step::Perform, Step::Greet],
        steps_of(Command::SetEnabled(id, false)) == seq![Step::Perform],
        steps_of(Command::LoadDetail(id)) == seq![Step::ShowDetail],
        steps_of(Command::UpdateHostSettings(enabled, enabled)) == seq![
            Step::Perform,
            Step::SyncAutostart,
        ],
        steps_of(Command::InstallHostUpdate) == seq![Step::Perform, Step::Quit],
        steps_of(Command::PluginAction(id, action)) == seq![Step::Perform, Step::ShowDetail],
        steps_of(Command::RemoveMedia(id, media)) == seq![Step::Perform, Step::ShowDetail],
        steps_of(Command::RefreshMedia(id, media)) == seq![Step::Perform, Step::ShowDetail],
        steps_of(Command::ImportRemote(id, media, enabled)) == seq![
            Step::Perform,
            Step::ShowDetail,
        ],
{
}

/// What arrives is shown: an overview replaces the one before, the details of the
/// plugin that is looked at are taken over with its settings, an error is noted,
/// and an end closes the window.
pub proof fn events_are_shown(
    console: ConsoleV,
    snapshot: SnapshotV,
    id: Seq<char>,
    detail: DetailV,
    text: Seq<char>,
)
    ensures
        handled(console, EventV::Snapshot(snapshot)).0.snapshot == Some(snapshot),
        handled(console, EventV::Snapshot(snapshot)).1 == ActionV::Tray(
            "状态："@ + summary_of(snapshot.plugins),
            "Background Studio · "@ + summary_of(snapshot.plugins),
        ),
        console.selected_plugin == Some(id) ==> handled(
            console,
            EventV::Detail(id, detail),
        ).0.detail == Some(detail) && handled(
            console,
            EventV::Detail(id, detail),
        ).0.display_draft == detail.profile.display,
        handled(console, EventV::Progress(text)).0.progress == Some(text),
        handled(console, EventV::Error(text)).0.notice == Some((text, true)),
        handled(console, EventV::Quit).0.quitting && handled(console, EventV::Quit).1
            == ActionV::Close,
        handled(console, EventV::ShowWindow) == (console, ActionV::Show),
        handled(console, EventV::Idle).0.progress is None,
        console.busy_count == 0 ==> handled(console, EventV::Idle).0.busy_count == 0,
        handled(console, EventV::Error(text)).0.snapshot == console.snapshot,
        handled(console, EventV::Error(text)).0.detail == console.detail,
{
}

// ---------------------------------------------------------------------------
// Forms
// ---------------------------------------------------------------------------

/// A form has a field for each setting of the schema, in its order, under its
/// title, or its name where it has none.
pub proof fn form_has_a_field_for_each_setting(
    properties: Seq<(Seq<char>, JsonV)>,
    display: Seq<(Seq<char>, JsonV)>,
    i: int,
)
    requires
        0 <= i < properties.len(),
    ensures
        form_of(properties, display).len() == properties.len(),
        ({
            let field = form_of(properties, display)[i];
            let (key, schema) = properties[i];
            &&& field.key == key
            &&& schema.get_str("title"@) matches Some(title) ==> field.title == title
            &&& schema.get_str("title"@) is None ==> field.title == key
            &&& field.input == input_of(schema, member(display, key))
        }),
{
}

/// A flag is a switch that is on where it is set; a number is a slider between its
/// bounds, from 0 to 100 in hundredths where it has none; a text that is offered
/// is chosen from what is, and any other is written.
pub proof fn input_fits_the_setting(schema: JsonV, current: Option<JsonV>)
    ensures
        schema.get_str("type"@) == Some("boolean"@) ==> input_of(schema, current)
            == InputV::Toggle(current == Some(JsonV::Bool(true))),
        schema.get_str("type"@) == Some("number"@) || schema.get_str("type"@) == Some("integer"@)
            ==> (input_of(schema, current) matches InputV::Slider(range, value) && {
            &&& schema.get("minimum"@) matches Some(bound) ==> (bound.as_double() matches Some(bits)
                ==> range.minimum == bits)
            &&& schema.get("maximum"@) matches Some(bound) ==> (bound.as_double() matches Some(bits)
                ==> range.maximum == bits)
            &&& schema.get("step"@) matches Some(bound) ==> (bound.as_double() matches Some(bits)
                ==> range.step == bits)
            &&& schema.get("minimum"@) is None ==> range.minimum == 0
            &&& schema.get("maximum"@) is None ==> range.maximum == 0x4059_0000_0000_0000
            &&& schema.get("step"@) is None ==> range.step == 0x3f84_7ae1_47ae_147b
            &&& current matches Some(shown) ==> (shown.as_double() matches Some(bits) ==> value
                == bits)
            &&& current is None ==> value == range.minimum
        }),
        schema.get_str("type"@) == Some("string"@) && (schema.get("enum"@) matches Some(
            JsonV::Array(_),
        )) ==> (input_of(schema, current) matches InputV::Choice(shown, options) && {
            &&& current matches Some(JsonV::Text(text)) ==> shown == text
            &&& options.len() == texts_of(schema.get("enum"@)->0->Array_0).len()
            &&& forall|i: int|
                0 <= i < options.len() ==> (#[trigger] options[i]).0 == texts_of(
                    schema.get("enum"@)->0->Array_0,
                )[i] && options[i].1 == label_at(schema.get("enumLabels"@), i, options[i].0)
        }),
        schema.get_str("type"@) == Some("string"@) && schema.get("enum"@) is None ==> input_of(
            schema,
            current,
        ) == InputV::Text(
            match current {
                Some(JsonV::Text(text)) => text,
                _ => Seq::empty(),
            },
        ),
{
    reveal_strlit("boolean");
    reveal_strlit("number");
    reveal_strlit("integer");
    reveal_strlit("string");
    assert("boolean"@[0] == 'b' && "number"@[0] == 'n' && "integer"@[0] == 'i' && "string"@[0]
        == 's');
}

/// A choice is labelled as the schema says, and by itself where it says nothing.
pub proof fn choice_has_its_label(names: Seq<JsonV>, i: int, option: Seq<char>)
    requires
        0 <= i,
    ensures
        i < names.len() ==> (names[i] matches JsonV::Text(name) ==> label_at(
            Some(JsonV::Array(names)),
            i,
            option,
        ) == name),
        i >= names.len() ==> label_at(Some(JsonV::Array(names)), i, option) == option,
        label_at(None, i, option) == option,
{
}

// ---------------------------------------------------------------------------
// Thumbnails
// ---------------------------------------------------------------------------

/// A thumbnail is kept under the digest of its file, the time of its last change
/// and its size, and is up to 160 pixels wide and 104 high.
pub proof fn thumbnail_is_kept_under_its_file(
    media_id: Seq<char>,
    media: ResolvedV,
    modified: u128,
    key: Seq<char>,
)
    ensures
        ({
            let source = source_of(media_id, media, modified);
            &&& source.media_id == media_id
            &&& source.path == media.path
            &&& source.kind == media.kind
            &&& source.cache_key == media.sha256 + "-"@ + decimal(modified as nat) + "-"@
                + decimal(media.byte_size as nat)
        }),
        kept_name(key) == key + "-"@ + decimal(160) + "x"@ + decimal(104),
        THUMBNAIL_WIDTH == 160,
        THUMBNAIL_HEIGHT == 104,
{
}

/// The bytes of a pixel are turned round from blue, green, red to red, green, blue,
/// and each pixel is opaque.
pub proof fn pixels_are_turned_round(bgr: Seq<u8>, i: int)
    requires
        0 <= i,
        4 * i + 3 < bgr.len(),
    ensures
        opaque_pixels(bgr).len() == bgr.len(),
        opaque_pixels(bgr)[4 * i] == bgr[4 * i + 2],
        opaque_pixels(bgr)[4 * i + 1] == bgr[4 * i + 1],
        opaque_pixels(bgr)[4 * i + 2] == bgr[4 * i],
        opaque_pixels(bgr)[4 * i + 3] == 255,
{
}

/// A bitmap has a width, and a height that may be given upside down.
pub proof fn bitmap_has_a_size(width: i32, height: i32)
    ensures
        is_bitmap(width, height) <==> width > 0 && height != 0 && height != i32::MIN,
        height >= 0 ==> bitmap_height(height) == height,
        height < 0 ==> bitmap_height(height) == -height,
{
}

/// A thumbnail that is in memory is shown, one that is being made is waited for,
/// and any other is made.
pub proof fn thumbnail_is_shown_or_made(cache: TexturesV, key: Seq<char>)
    ensures
        asked_texture(cache, key).0 == TextureStep::Show <==> exists|k: int|
            0 <= k < cache.entries.len() && (#[trigger] cache.entries[k]).0 == key,
        asked_texture(cache, key).0 == TextureStep::Make ==> !cache.loading.contains(key)
            && asked_texture(cache, key).1.loading == cache.loading.push(key),
        asked_texture(cache, key).0 == TextureStep::Wait ==> cache.loading.contains(key)
            && asked_texture(cache, key).1 == cache,
        asked_texture(cache, key).1.bytes == cache.bytes,
{
    lemma_entry_in(cache.entries, key);
}

proof fn lemma_entry_in(entries: Seq<(Seq<char>, usize)>, key: Seq<char>)
    ensures
        entry_in(entries, key) is Some <==> exists|k: int|
            0 <= k < entries.len() && (#[trigger] entries[k]).0 == key,
    decreases entries.len(),
{
    if entries.len() > 0 {
        let front = entries.drop_last();
        lemma_entry_in(front, key);
        assert(entries[entries.len() - 1] == entries.last());
        if entry_in(front, key) is Some {
            let k = choose|k: int| 0 <= k < front.len() && (#[trigger] front[k]).0 == key;
            assert(entries[k].0 == key);
        }
        if exists|k: int| 0 <= k < entries.len() && (#[trigger] entries[k]).0 == key {
            let k = choose|k: int| 0 <= k < entries.len() && (#[trigger] entries[k]).0 == key;
            if k < front.len() {
                assert(front[k].0 == key);
            }
        }
    }
}

/// A thumbnail that was made is in memory where it fits, and is not being made any
/// more; memory holds up to 512 of them with 67108864 bytes in all.
pub proof fn made_thumbnail_is_kept(cache: TexturesV, key: Seq<char>, bytes: usize)
    requires
        entry_in(cache.entries, key) is None,
        cache.entries.len() < cache.limit,
        cache.bytes + bytes <= 67108864,
    ensures
        ({
            let after = stored_texture(cache, key, bytes);
            &&& after.entries == cache.entries.push((key, bytes))
            &&& after.bytes == cache.bytes + bytes
            &&& after.loading == cache.loading.filter(|other: Seq<char>| other != key)
            &&& after.directory == cache.directory
        }),
        TEXTURE_CACHE_BYTES == 67108864,
        TEXTURE_CACHE_ENTRIES == 512,
{
    rest_of_a_list(cache.loading, key);
}

/// Another data directory has none of the thumbnails in memory.
pub proof fn moved_directory_has_no_thumbnails(cache: TexturesV, directory: Seq<char>)
    ensures
        cache.directory == directory ==> textures_in(cache, directory) == cache,
        cache.directory != directory ==> {
            let after = textures_in(cache, directory);
            &&& after.entries.len() == 0
            &&& after.loading.len() == 0
            &&& after.bytes == 0
            &&& after.directory == directory
        },
        empty_textures(directory).entries.len() == 0 && empty_textures(directory).limit == 512,
{
}

// ---------------------------------------------------------------------------
// Ending programs
// ---------------------------------------------------------------------------

/// A directory is compared in small letters, with backslashes, and without the
/// mark of a verbatim path.
pub proof fn directories_are_compared_alike(root: Seq<char>)
    requires
        root.len() == 0 || root[0] != '\\',
        root.len() == 0 || root[0] != '/',
    ensures
        compared_root(root) == lower(replaced(root, '/', '\\')),
{
    reveal_strlit("\\\\?\\");
    let plain = replaced(root, '/', '\\');
    if plain.len() >= 4 {
        assert(plain[0] == root[0]);
        assert(plain.subrange(0, 4)[0] == plain[0]);
        assert("\\\\?\\"@[0] == '\\');
    }
}

/// A text without quotes stands in a script as it is.
pub proof fn plain_text_stands_as_it_is(s: Seq<char>)
    requires
        forall|i: int| 0 <= i < s.len() ==> s[i] != '\'',
    ensures
        doubled_quotes(s) == s,
    decreases s.len(),
{
    if s.len() > 0 {
        assert forall|i: int| 0 <= i < s.drop_last().len() implies s.drop_last()[i] != '\'' by {
            assert(s.drop_last()[i] == s[i]);
        }
        plain_text_stands_as_it_is(s.drop_last());
        assert(s.drop_last().push(s.last()) =~= s);
    } else {
        assert(s =~= Seq::empty());
    }
}

/// The script that ends a plugin's programs looks among those of its executable for
/// the ones that lie in its directory, and ends them.
pub proof fn script_ends_the_programs_of_a_directory(root: Seq<char>, exe_name: Seq<char>)
    requires
        forall|i: int| 0 <= i < compared_root(root).len() ==> compared_root(root)[i] != '\'',
        forall|i: int| 0 <= i < exe_name.len() ==> exe_name[i] != '\'',
    ensures
        ending_script(root, exe_name) == "$root = '"@ + compared_root(root)
            + "'; Get-CimInstance Win32_Process -Filter \"Name='"@ + exe_name
            + "'\" | ForEach-Object { if ($_.ExecutablePath) { $p = $_.ExecutablePath.Replace('/','\\').ToLower(); if ($p.StartsWith('\\\\?\\')) { $p = $p.Substring(4) }; if ($p.StartsWith($root)) { Stop-Process -Id $_.ProcessId -Force -ErrorAction SilentlyContinue } } }"@,
{
    plain_text_stands_as_it_is(compared_root(root));
    plain_text_stands_as_it_is(exe_name);
}

/// Windows starts the host by its quoted path, and hidden where it is to be.
pub proof fn host_is_started_by_its_path(exe: Seq<char>)
    ensures
        startup_command(exe, false) == "\""@ + exe + "\""@,
        startup_command(exe, true) == "\""@ + exe + "\""@ + " --hidden"@,
{
    assert(("\""@ + exe + "\""@) + Seq::<char>::empty() =~= "\""@ + exe + "\""@);
}

/// An import fails where nothing was taken and something was passed over, with each
/// of what was and why; one from an address fails where nothing was taken.
pub proof fn empty_import_fails(
    taken: Seq<ItemV>,
    skipped: Seq<(Seq<char>, Seq<char>)>,
    path: Seq<char>,
    reason: Seq<char>,
)
    ensures
        import_verdict((taken, skipped)) is Ok <==> taken.len() > 0 || skipped.len() == 0,
        taken.len() == 0 ==> import_verdict((taken, seq![(path, reason)])) == Err::<(), Seq<char>>(
            path + "："@ + reason,
        ),
        remote_verdict((taken, skipped)) is Ok <==> taken.len() > 0,
        taken.len() == 0 && skipped.len() > 0 ==> remote_verdict((taken, skipped)) == Err::<
            (),
            Seq<char>,
        >(skipped[0].1),
        taken.len() == 0 && skipped.len() == 0 ==> remote_verdict((taken, skipped)) == Err::<
            (),
            Seq<char>,
        >("远程媒体没有返回可导入内容。"@),
{
    assert(skipped_lines(seq![(path, reason)])[0] == path + "："@ + reason);
}

/// The window counts the commands that are carried out.
pub proof fn commands_are_counted(console: ConsoleV)
    requires
        console.busy_count < usize::MAX,
    ensures
        begun(console).busy_count == console.busy_count + 1,
        begun(console) == (ConsoleV { busy_count: begun(console).busy_count, ..console }),
{
}

/// A window that has just been opened shows nothing and waits for nothing.
pub proof fn new_window_is_blank(directory: Seq<char>)
    ensures
        ({
            let console = blank_console(directory);
            &&& console.snapshot is None
            &&& console.selected_plugin is None
            &&& console.detail is None
            &&& console.busy_count == 0
            &&& console.progress is None
            &&& console.notice is None
            &&& !console.quitting
        }),
{
}

/// Where thumbnails have to go, those that were used longest ago do: what is kept are
/// the last ones, and no more go than need to.
pub proof fn oldest_thumbnails_go_first(entries: Seq<(Seq<char>, usize)>, bytes: usize)
    ensures
        ({
            let kept = trimmed_entries(entries, bytes);
            &&& kept.0.len() <= entries.len()
            &&& kept.0 == entries.skip(entries.len() - kept.0.len())
            &&& bytes <= 67108864 ==> kept.0 == entries && kept.1 == bytes
            &&& bytes > 67108864 && entries.len() > 0 ==> kept.0.len() < entries.len()
            &&& kept.1 > 67108864 ==> kept.0.len() == 0
        }),
    decreases entries.len(),
{
    if bytes > 67108864 && entries.len() > 0 {
        let rest = entries.drop_first();
        let left: usize = if bytes < entries[0].1 {
            0
        } else {
            (bytes - entries[0].1) as usize
        };
        oldest_thumbnails_go_first(rest, left);
        let kept = trimmed_entries(rest, left);
        assert(rest.skip(rest.len() - kept.0.len()) =~= entries.skip(
            entries.len() - kept.0.len(),
        ));
    } else {
        assert(entries.skip(0) =~= entries);
    }
}

/// A store of thumbnails that has just been made is empty.
pub proof fn new_store_is_empty(directory: Seq<char>)
    ensures
        empty_textures(directory).entries.len() == 0,
        empty_textures(directory).bytes == 0,
        empty_textures(directory).loading.len() == 0,
        empty_textures(directory).directory == directory,
        empty_textures(directory).limit == 512,
{
}

proof fn lemma_without_entry(entries: Seq<(Seq<char>, usize)>, key: Seq<char>)
    ensures
        without_entry(entries, key) == entries.filter(|entry: (Seq<char>, usize)| entry.0 != key),
    decreases entries.len(),
{
    reveal(Seq::filter);
    if entries.len() > 0 {
        lemma_without_entry(entries.drop_last(), key);
    }
}

/// A thumbnail that is made again takes the place behind the others; and where there
/// are as many as there may be, the one that was used longest ago goes for a new one.
pub proof fn thumbnail_takes_the_last_place(
    entries: Seq<(Seq<char>, usize)>,
    limit: nat,
    key: Seq<char>,
    value: usize,
)
    requires
        0 < limit,
        entries.len() <= limit,
    ensures
        (exists|i: int| 0 <= i < entries.len() && (#[trigger] entries[i]).0 == key) ==> with_entry(
            entries,
            limit,
            key,
            value,
        ) == entries.filter(|entry: (Seq<char>, usize)| entry.0 != key).push((key, value)),
        (forall|i: int| 0 <= i < entries.len() ==> (#[trigger] entries[i]).0 != key) ==> with_entry(
            entries,
            limit,
            key,
            value,
        ) == (if entries.len() == limit {
            entries.skip(1).push((key, value))
        } else {
            entries.push((key, value))
        }),
{
    lemma_without_entry(entries, key);
    lemma_entry_in(entries, key);
    if entries.len() > 0 {
        assert(entries.drop_first() =~= entries.skip(1));
    }
}

/// Bytes behind the last whole pixel stay as they are.
pub proof fn rest_of_a_pixel_stays(bgr: Seq<u8>, i: int)
    requires
        bgr.len() - bgr.len() % 4 <= i < bgr.len(),
    ensures
        opaque_pixels(bgr)[i] == bgr[i],
{
}

/// The mark of a verbatim path is taken off, however often it stands in front.
pub proof fn verbatim_mark_is_taken_off(s: Seq<char>)
    ensures
        without_verbatim("\\\\?\\"@ + s) == without_verbatim(s),
        !has_prefix(without_verbatim(s), "\\\\?\\"@),
    decreases s.len(),
{
    reveal_strlit("\\\\?\\");
    let mark = "\\\\?\\"@;
    assert(mark.len() == 4);
    crate::laws::store::text_has_its_front_and_its_end(mark, s, s);
    assert((mark + s).skip(4) =~= s);
    if has_prefix(s, mark) {
        verbatim_mark_is_taken_off(s.skip(4));
    }
}

} // verus!
