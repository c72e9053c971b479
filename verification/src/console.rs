//! The control window: what it shows, and what it does with what comes in.
use vstd::prelude::*;

use crate::host_core::{DetailV, PluginDetail};
use crate::json::{equal_json, same_json, Json, JsonV, Members};
use crate::models::{ImportResult, ItemV};
use crate::plugins::{cards_view, CardV, HostSnapshot, PluginCard, SnapshotV};
use crate::profile::ProfilePatch;
use crate::proxy::ProxySettings;
use crate::text::{
    contains_item, contains_text, copy_list, decimal, decimal_text, has_part, join, joined,
    list_view, lower, lower_text, opt_view, outcome, remove_text, same, trim, trimmed,
    wide_decimal_text, without_text,
};
use crate::textures::{
    empty_textures, keeps_limits, moved_textures_keep_limits, stored_texture, textures_in,
    textures_stay_within_limits, TextureCache, TexturesV,
};
use crate::thumbnails::TEXTURE_CACHE_BYTES;

verus! {

// ---------------------------------------------------------------------------
// The state of a plugin at a glance
// ---------------------------------------------------------------------------

/// The colour in which the state of a plugin is shown.
#[derive(Clone, Copy, Debug, PartialEq, Eq, Structural)]
pub enum Tone {
    Muted,
    Green,
    Red,
    Amber,
    Blue,
}

/// The colour of a state.
pub open spec fn tone_of(phase: Seq<char>, running: bool) -> Tone {
    if !running {
        Tone::Muted
    } else if phase == "active"@ {
        Tone::Green
    } else if phase == "error"@ {
        Tone::Red
    } else if phase == "paused"@ || phase == "waiting_manual"@ {
        Tone::Amber
    } else if phase == "starting"@ || phase == "takeover"@ || phase == "attaching"@ {
        Tone::Blue
    } else {
        Tone::Muted
    }
}

/// The colour of a state.
pub fn phase_color(phase: &str, running: bool) -> (r: Tone)
    ensures
        r == tone_of(phase@, running),
{
    if !running {
        Tone::Muted
    } else if same(phase, "active") {
        Tone::Green
    } else if same(phase, "error") {
        Tone::Red
    } else if same(phase, "paused") || same(phase, "waiting_manual") {
        Tone::Amber
    } else if same(phase, "starting") || same(phase, "takeover") || same(phase, "attaching") {
        Tone::Blue
    } else {
        Tone::Muted
    }
}

/// The sign of a state.
pub open spec fn sign_of(tone: Tone) -> Seq<char> {
    match tone {
        Tone::Green => "●"@,
        Tone::Blue => "◆"@,
        Tone::Amber => "▲"@,
        Tone::Red => "■"@,
        Tone::Muted => "○"@,
    }
}

/// The sign of a state.
pub fn phase_dot(phase: &str, running: bool) -> (r: &'static str)
    ensures
        r@ == sign_of(tone_of(phase@, running)),
{
    match phase_color(phase, running) {
        Tone::Green => "●",
        Tone::Blue => "◆",
        Tone::Amber => "▲",
        Tone::Red => "■",
        Tone::Muted => "○",
    }
}

/// How many of the plugins are installed, running, and out of date.
pub open spec fn tally(cards: Seq<CardV>) -> (nat, nat, nat)
    decreases cards.len(),
{
    if cards.len() == 0 {
        (0, 0, 0)
    } else {
        let (installed, running, outdated) = tally(cards.drop_last());
        let card = cards.last();
        (
            if card.installed_version is Some {
                installed + 1
            } else {
                installed
            },
            if card.running {
                running + 1
            } else {
                running
            },
            if card.update_available {
                outdated + 1
            } else {
                outdated
            },
        )
    }
}

/// How many plugins there are of each sort.
#[derive(Clone, Copy)]
pub struct Tally {
    pub installed: usize,
    pub running: usize,
    pub outdated: usize,
}

/// Counts the plugins.
pub fn count_plugins(cards: &Vec<PluginCard>) -> (r: Tally)
    ensures
        (r.installed as nat, r.running as nat, r.outdated as nat) == tally(cards_view(cards@)),
{
    let ghost model = cards_view(cards@);
    let mut counts = Tally { installed: 0, running: 0, outdated: 0 };
    let mut i: usize = 0;
    assert(model.take(0).len() == 0);
    while i < cards.len()
        invariant
            i <= cards.len(),
            model == cards_view(cards@),
            (counts.installed as nat, counts.running as nat, counts.outdated as nat) == tally(
                model.take(i as int),
            ),
            counts.installed <= i,
            counts.running <= i,
            counts.outdated <= i,
        decreases cards.len() - i,
    {
        assert(model.take(i + 1).drop_last() =~= model.take(i as int));
        assert(model.take(i + 1).last() == cards@[i as int]@);
        if cards[i].installed_version.is_some() {
            counts.installed += 1;
        }
        if cards[i].running {
            counts.running += 1;
        }
        if cards[i].update_available {
            counts.outdated += 1;
        }
        i += 1;
    }
    assert(model.take(i as int) =~= model);
    counts
}

/// The state of all plugins in a few words.
pub open spec fn summary_of(cards: Seq<CardV>) -> Seq<char> {
    decimal(tally(cards).0) + " 已装 / "@ + decimal(tally(cards).1) + " 运行中"@
}

/// The state of all plugins in a few words.
pub fn summary(cards: &Vec<PluginCard>) -> (r: String)
    ensures
        r@ == summary_of(cards_view(cards@)),
{
    let counts = count_plugins(cards);
    wide_decimal_text(counts.installed as u128).concat(" 已装 / ").concat(
        wide_decimal_text(counts.running as u128).as_str(),
    ).concat(" 运行中")
}

// ---------------------------------------------------------------------------
// Sizes
// ---------------------------------------------------------------------------

/// The quotient, rounded to the nearest whole number, and to the even one of
/// two that are as near.
pub open spec fn nearest(n: nat, d: nat) -> nat {
    let q = n / d;
    let rest = n % d;
    if 2 * rest > d || (2 * rest == d && q % 2 == 1) {
        q + 1
    } else {
        q
    }
}

/// The distance between the numbers of 53 binary digits near a number.
pub open spec fn spacing(n: nat) -> nat
    decreases n,
{
    if n < 9007199254740992 {
        1
    } else {
        2 * spacing(n / 2)
    }
}

/// The number of 53 binary digits that is nearest to a number.
pub open spec fn as_held(n: nat) -> nat {
    nearest(n, spacing(n)) * spacing(n)
}

/// A number of units with one decimal.
pub open spec fn with_decimal(tenths: nat) -> Seq<char> {
    decimal(tenths / 10) + "."@ + decimal(tenths % 10)
}

/// How a size in bytes is shown.
pub open spec fn size_text(bytes: u64) -> Seq<char> {
    if bytes >= 1048576 {
        with_decimal(nearest(as_held(bytes as nat) * 10, 1048576)) + " MiB"@
    } else if bytes >= 1024 {
        with_decimal(nearest(as_held(bytes as nat) * 10, 1024)) + " KiB"@
    } else {
        decimal(bytes as nat) + " B"@
    }
}

fn round_to(n: u128, d: u128) -> (r: u128)
    requires
        0 < d < 0x1_0000_0000,
        n < 0x1_0000_0000_0000_0000_0000,
    ensures
        r == nearest(n as nat, d as nat),
        r <= n + 1,
{
    let q = n / d;
    let rest = n % d;
    assert(q <= n) by (nonlinear_arith)
        requires
            q == n / d,
            d > 0,
    ;
    if 2 * rest > d || (2 * rest == d && q % 2 == 1) {
        q + 1
    } else {
        q
    }
}

fn spacing_of(n: u64) -> (r: u64)
    ensures
        r == spacing(n as nat),
        1 <= r <= 4096,
        n < 9007199254740992 ==> r == 1,
        n >= 9007199254740992 ==> r * 4503599627370496 <= n,
    decreases n,
{
    if n < 9007199254740992 {
        return 1;
    }
    let half = spacing_of(n / 2);
    assert(half <= 2048);
    if n / 2 < 9007199254740992 {
        assert(2 * 4503599627370496 <= n);
    }
    2 * half
}

fn say_tenths(tenths: u128) -> (r: String)
    ensures
        r@ == with_decimal(tenths as nat),
{
    wide_decimal_text(tenths / 10).concat(".").concat(wide_decimal_text(tenths % 10).as_str())
}

/// How a size in bytes is shown.
pub fn format_bytes(bytes: u64) -> (r: String)
    ensures
        r@ == size_text(bytes),
{
    if bytes < 1024 {
        return decimal_text(bytes).concat(" B");
    }
    let step = spacing_of(bytes) as u128;
    let steps = round_to(bytes as u128, step);
    assert(steps * step <= 0x1_0000_0000_0000_0000 * 4096) by (nonlinear_arith)
        requires
            0 <= steps <= 0x1_0000_0000_0000_0000,
            1 <= step <= 4096,
    ;
    let held: u128 = steps * step;
    assert(held == as_held(bytes as nat));
    if bytes >= 1048576 {
        say_tenths(round_to(held * 10, 1048576)).concat(" MiB")
    } else {
        say_tenths(round_to(held * 10, 1024)).concat(" KiB")
    }
}

// ---------------------------------------------------------------------------
// The library
// ---------------------------------------------------------------------------

/// The item is shown for what the user searches.
pub open spec fn is_found(name: Seq<char>, search: Seq<char>) -> bool {
    let query = lower(trimmed(search));
    query.len() == 0 || has_part(lower(name), query)
}

/// Whether an item is shown for what the user searches.
pub fn matches_search(name: &str, search: &str) -> (r: bool)
    ensures
        r == is_found(name@, search@),
{
    let query = lower_text(trim(search).as_str());
    if query.as_str().is_empty() {
        return true;
    }
    contains_text(lower_text(name).as_str(), query.as_str())
}

/// The playlist after an item was taken in or out.
pub open spec fn toggled(ids: Seq<Seq<char>>, id: Seq<char>) -> Seq<Seq<char>> {
    if ids.contains(id) {
        without_text(ids, id)
    } else {
        ids.push(id)
    }
}

/// The playlist after an item was taken in or out.
pub fn toggle_playlist(ids: &Vec<String>, id: &str) -> (r: Vec<String>)
    ensures
        list_view(r@) == toggled(list_view(ids@), id@),
{
    if contains_item(ids, id) {
        return remove_text(ids, id);
    }
    let mut out = copy_list(ids);
    let ghost before = out@;
    out.push(id.to_string());
    assert(list_view(out@) =~= list_view(before).push(id@));
    out
}

/// The address that is imported: there is none where nothing was entered.
pub fn entered_url(text: &str) -> (r: Option<String>)
    ensures
        opt_view(r) == (if trimmed(text@).len() == 0 {
            None
        } else {
            Some(trimmed(text@))
        }),
{
    let url = trim(text);
    if url.as_str().is_empty() {
        None
    } else {
        Some(url)
    }
}

// ---------------------------------------------------------------------------
// What came of an import
// ---------------------------------------------------------------------------

/// What is said of the paths that were skipped.
pub open spec fn skipped_lines(skipped: Seq<(Seq<char>, Seq<char>)>) -> Seq<Seq<char>> {
    skipped.map_values(|item: (Seq<char>, Seq<char>)| item.0 + "："@ + item.1)
}

/// What is said of an import of files: it fails where nothing was taken and something
/// was passed over.
pub open spec fn import_verdict(result: (Seq<ItemV>, Seq<(Seq<char>, Seq<char>)>)) -> Result<
    (),
    Seq<char>,
> {
    if result.0.len() == 0 && result.1.len() > 0 {
        Err(joined(skipped_lines(result.1), "\n"@))
    } else {
        Ok(())
    }
}

/// What is said of an import from an address: it fails where nothing was taken.
pub open spec fn remote_verdict(result: (Seq<ItemV>, Seq<(Seq<char>, Seq<char>)>)) -> Result<
    (),
    Seq<char>,
> {
    if result.0.len() > 0 {
        Ok(())
    } else if result.1.len() > 0 {
        Err(result.1[0].1)
    } else {
        Err("远程媒体没有返回可导入内容。"@)
    }
}

/// An import of files has failed where it added nothing and skipped something.
pub fn import_outcome(result: &ImportResult) -> (r: Result<(), String>)
    ensures
        outcome(r) == import_verdict(result.model()),
{
    if result.added.len() > 0 || result.skipped.len() == 0 {
        return Ok(());
    }
    let mut lines: Vec<String> = Vec::new();
    let mut i: usize = 0;
    while i < result.skipped.len()
        invariant
            i <= result.skipped.len(),
            lines.len() == i,
            forall|k: int|
                0 <= k < i ==> (#[trigger] lines@[k])@ == skipped_lines(result.model().1)[k],
        decreases result.skipped.len() - i,
    {
        let item = &result.skipped[i];
        lines.push(item.path.clone().concat("：").concat(item.reason.as_str()));
        i += 1;
    }
    assert(list_view(lines@) =~= skipped_lines(result.model().1));
    Err(join(&lines, "\n"))
}

/// An import from the net has failed where it added nothing.
pub fn remote_outcome(result: &ImportResult) -> (r: Result<(), String>)
    ensures
        outcome(r) == remote_verdict(result.model()),
{
    if result.added.len() > 0 {
        Ok(())
    } else if result.skipped.len() > 0 {
        Err(result.skipped[0].reason.clone())
    } else {
        Err("远程媒体没有返回可导入内容。".to_string())
    }
}

// ---------------------------------------------------------------------------
// Commands
// ---------------------------------------------------------------------------

/// What the user asks for.
pub enum Command {
    Refresh,
    Install(String),
    Uninstall(String),
    SetEnabled(String, bool),
    PluginAction(String, String),
    LoadDetail(String),
    ImportFiles(String, Vec<String>),
    ImportFolder(String, String),
    ImportRemote(String, String, bool),
    RemoveMedia(String, String),
    SetActiveMedia(String, Option<String>),
    UpdateProfile(String, ProfilePatch),
    RefreshMedia(String, String),
    UpdateHostSettings(bool, bool),
    UpdateProxy(ProxySettings),
    RelocateDataDirectory(String),
    InstallHostUpdate,
}

/// A step of carrying out a command.
#[derive(Clone, Copy, Debug, PartialEq, Eq, Structural)]
pub enum Step {
    ReloadCatalog,
    RefreshLatest,
    /// Greets every plugin that is enabled.
    GreetEnabled,
    /// Does what the command is named after.
    Perform,
    /// Greets the plugin of the command.
    Greet,
    /// Shows the plugin of the command anew.
    ShowDetail,
    SyncAutostart,
    Quit,
}

/// The steps of a command, of which each waits for the one before it to
/// succeed.
pub open spec fn steps_of(command: Command) -> Seq<Step> {
    match command {
        Command::Refresh => seq![Step::ReloadCatalog, Step::RefreshLatest, Step::GreetEnabled],
        Command::Install(_) => seq![Step::Perform, Step::Greet, Step::ShowDetail],
        Command::Uninstall(_) => seq![Step::Perform],
        Command::SetEnabled(_, enabled) => if enabled {
            seq![Step::Perform, Step::Greet]
        } else {
            seq![Step::Perform]
        },
        Command::LoadDetail(_) => seq![Step::ShowDetail],
        Command::UpdateHostSettings(_, _) => seq![Step::Perform, Step::SyncAutostart],
        Command::UpdateProxy(_) => seq![Step::Perform],
        Command::RelocateDataDirectory(_) => seq![Step::Perform],
        Command::InstallHostUpdate => seq![Step::Perform, Step::Quit],
        _ => seq![Step::Perform, Step::ShowDetail],
    }
}

/// The steps of a command.
pub fn steps_for(command: &Command) -> (r: Vec<Step>)
    ensures
        r@ == steps_of(*command),
{
    let r = match command {
        Command::Refresh => vec![Step::ReloadCatalog, Step::RefreshLatest, Step::GreetEnabled],
        Command::Install(_) => vec![Step::Perform, Step::Greet, Step::ShowDetail],
        Command::Uninstall(_) => vec![Step::Perform],
        Command::SetEnabled(_, enabled) => if *enabled {
            vec![Step::Perform, Step::Greet]
        } else {
            vec![Step::Perform]
        },
        Command::LoadDetail(_) => vec![Step::ShowDetail],
        Command::UpdateHostSettings(_, _) => vec![Step::Perform, Step::SyncAutostart],
        Command::UpdateProxy(_) => vec![Step::Perform],
        Command::RelocateDataDirectory(_) => vec![Step::Perform],
        Command::InstallHostUpdate => vec![Step::Perform, Step::Quit],
        _ => vec![Step::Perform, Step::ShowDetail],
    };
    assert(r@ =~= steps_of(*command));
    r
}

// ---------------------------------------------------------------------------
// Events
// ---------------------------------------------------------------------------

/// What comes in from the work in the background.
pub enum ConsoleEvent {
    Snapshot(HostSnapshot),
    Detail(String, PluginDetail),
    Progress(String),
    /// A thumbnail was made, which takes so many bytes.
    Thumbnail(String, usize),
    ThumbnailFailed(String),
    ShowWindow,
    Quit,
    Error(String),
    Idle,
}

/// The model of an event.
pub enum EventV {
    Snapshot(SnapshotV),
    Detail(Seq<char>, DetailV),
    Progress(Seq<char>),
    Thumbnail(Seq<char>, usize),
    ThumbnailFailed(Seq<char>),
    ShowWindow,
    Quit,
    Error(Seq<char>),
    Idle,
}

impl View for ConsoleEvent {
    type V = EventV;

    open spec fn view(&self) -> EventV {
        match self {
            ConsoleEvent::Snapshot(snapshot) => EventV::Snapshot(snapshot@),
            ConsoleEvent::Detail(id, detail) => EventV::Detail(id@, detail@),
            ConsoleEvent::Progress(text) => EventV::Progress(text@),
            ConsoleEvent::Thumbnail(key, bytes) => EventV::Thumbnail(key@, *bytes),
            ConsoleEvent::ThumbnailFailed(key) => EventV::ThumbnailFailed(key@),
            ConsoleEvent::ShowWindow => EventV::ShowWindow,
            ConsoleEvent::Quit => EventV::Quit,
            ConsoleEvent::Error(message) => EventV::Error(message@),
            ConsoleEvent::Idle => EventV::Idle,
        }
    }
}

/// What the window does about an event.
pub enum WindowAction {
    Nothing,
    /// Shows the state of the plugins in the tray: the line of its menu, and
    /// its hint.
    Tray(String, String),
    Show,
    Close,
}

/// The model of what the window does.
pub enum ActionV {
    Nothing,
    Tray(Seq<char>, Seq<char>),
    Show,
    Close,
}

impl View for WindowAction {
    type V = ActionV;

    open spec fn view(&self) -> ActionV {
        match self {
            WindowAction::Nothing => ActionV::Nothing,
            WindowAction::Tray(status, hint) => ActionV::Tray(status@, hint@),
            WindowAction::Show => ActionV::Show,
            WindowAction::Close => ActionV::Close,
        }
    }
}

/// What the window shows.
pub struct Console {
    pub snapshot: Option<HostSnapshot>,
    pub selected_plugin: Option<String>,
    pub detail: Option<PluginDetail>,
    pub display_draft: Json,
    pub busy_count: usize,
    pub progress: Option<String>,
    pub notice: Option<(String, bool)>,
    pub textures: TextureCache,
    pub quitting: bool,
}

/// The model of what the window shows.
pub struct ConsoleV {
    pub snapshot: Option<SnapshotV>,
    pub selected_plugin: Option<Seq<char>>,
    pub detail: Option<DetailV>,
    pub display_draft: JsonV,
    pub busy_count: usize,
    pub progress: Option<Seq<char>>,
    pub notice: Option<(Seq<char>, bool)>,
    pub textures: TexturesV,
    pub quitting: bool,
}

impl View for Console {
    type V = ConsoleV;

    open spec fn view(&self) -> ConsoleV {
        ConsoleV {
            snapshot: match self.snapshot {
                Some(snapshot) => Some(snapshot@),
                None => None,
            },
            selected_plugin: opt_view(self.selected_plugin),
            detail: match self.detail {
                Some(detail) => Some(detail@),
                None => None,
            },
            display_draft: self.display_draft@,
            busy_count: self.busy_count,
            progress: opt_view(self.progress),
            notice: match self.notice {
                Some((message, is_error)) => Some((message@, is_error)),
                None => None,
            },
            textures: self.textures@,
            quitting: self.quitting,
        }
    }
}

/// A window that shows nothing yet.
pub open spec fn blank_console(directory: Seq<char>) -> ConsoleV {
    ConsoleV {
        snapshot: None,
        selected_plugin: None,
        detail: None,
        display_draft: JsonV::Object(Seq::empty()),
        busy_count: 0,
        progress: None,
        notice: None,
        textures: empty_textures(directory),
        quitting: false,
    }
}

/// What the window shows after an event, and what it does about it.
pub open spec fn handled(console: ConsoleV, event: EventV) -> (ConsoleV, ActionV) {
    match event {
        EventV::Snapshot(snapshot) => (
            ConsoleV {
                textures: textures_in(console.textures, snapshot.data_directory),
                snapshot: Some(snapshot),
                ..console
            },
            ActionV::Tray(
                "状态："@ + summary_of(snapshot.plugins),
                "Background Studio · "@ + summary_of(snapshot.plugins),
            ),
        ),
        EventV::Detail(id, detail) => (
            if console.selected_plugin == Some(id) {
                ConsoleV {
                    display_draft: detail.profile.display,
                    detail: Some(detail),
                    ..console
                }
            } else {
                console
            },
            ActionV::Nothing,
        ),
        EventV::Progress(text) => (
            ConsoleV { progress: Some(text), ..console },
            ActionV::Nothing,
        ),
        EventV::Thumbnail(key, bytes) => (
            ConsoleV { textures: stored_texture(console.textures, key, bytes), ..console },
            ActionV::Nothing,
        ),
        EventV::ThumbnailFailed(key) => (
            ConsoleV {
                textures: TexturesV {
                    loading: without_text(console.textures.loading, key),
                    ..console.textures
                },
                ..console
            },
            ActionV::Nothing,
        ),
        EventV::ShowWindow => (console, ActionV::Show),
        EventV::Quit => (ConsoleV { quitting: true, ..console }, ActionV::Close),
        EventV::Error(message) => (
            ConsoleV { notice: Some((message, true)), ..console },
            ActionV::Nothing,
        ),
        EventV::Idle => (
            ConsoleV {
                busy_count: if console.busy_count > 0 {
                    (console.busy_count - 1) as usize
                } else {
                    0
                },
                progress: None,
                ..console
            },
            ActionV::Nothing,
        ),
    }
}

/// The window while one more command is carried out.
pub open spec fn begun(console: ConsoleV) -> ConsoleV {
    ConsoleV {
        busy_count: if console.busy_count < usize::MAX {
            (console.busy_count + 1) as usize
        } else {
            usize::MAX
        },
        ..console
    }
}

impl Console {
    /// A window that shows nothing yet.
    pub fn new(directory: String) -> (r: Console)
        ensures
            r@ == blank_console(directory@),
    {
        Console {
            snapshot: None,
            selected_plugin: None,
            detail: None,
            display_draft: Json::Object(Members::new()),
            busy_count: 0,
            progress: None,
            notice: None,
            textures: TextureCache::new(directory),
            quitting: false,
        }
    }

    /// Takes an event in.
    pub fn handle(&mut self, event: ConsoleEvent) -> (r: WindowAction)
        ensures
            (final(self)@, r@) == handled(old(self)@, event@),
    {
        match event {
            ConsoleEvent::Snapshot(snapshot) => {
                let words = summary(&snapshot.plugins);
                self.textures.move_to(snapshot.data_directory.as_str());
                self.snapshot = Some(snapshot);
                WindowAction::Tray(
                    "状态：".to_string().concat(words.as_str()),
                    "Background Studio · ".to_string().concat(words.as_str()),
                )
            },
            ConsoleEvent::Detail(id, detail) => {
                let selected = match &self.selected_plugin {
                    Some(chosen) => same(chosen.as_str(), id.as_str()),
                    None => false,
                };
                if selected {
                    self.display_draft = detail.profile.display.copy();
                    self.detail = Some(detail);
                }
                WindowAction::Nothing
            },
            ConsoleEvent::Progress(text) => {
                self.progress = Some(text);
                WindowAction::Nothing
            },
            ConsoleEvent::Thumbnail(key, bytes) => {
                self.textures.store(key, bytes);
                WindowAction::Nothing
            },
            ConsoleEvent::ThumbnailFailed(key) => {
                self.textures.fail(key.as_str());
                WindowAction::Nothing
            },
            ConsoleEvent::ShowWindow => WindowAction::Show,
            ConsoleEvent::Quit => {
                self.quitting = true;
                WindowAction::Close
            },
            ConsoleEvent::Error(message) => {
                self.notice = Some((message, true));
                WindowAction::Nothing
            },
            ConsoleEvent::Idle => {
                self.busy_count = self.busy_count.saturating_sub(1);
                self.progress = None;
                WindowAction::Nothing
            },
        }
    }

    /// Notes that a command was given.
    pub fn begin_command(&mut self)
        ensures
            final(self)@ == begun(old(self)@),
    {
        self.busy_count = self.busy_count.saturating_add(1);
    }

    /// Opens a plugin, of which nothing is shown until it was read.
    pub fn open_plugin(&mut self, id: &str)
        ensures
            final(self)@ == (ConsoleV {
                selected_plugin: Some(id@),
                detail: None,
                ..old(self)@
            }),
    {
        self.selected_plugin = Some(id.to_string());
        self.detail = None;
    }

    /// Goes back to the overview.
    pub fn open_overview(&mut self)
        ensures
            final(self)@ == (ConsoleV { selected_plugin: None, detail: None, ..old(self)@ }),
    {
        self.selected_plugin = None;
        self.detail = None;
    }

    /// The user can give a command that changes something.
    pub fn is_idle(&self) -> (r: bool)
        ensures
            r == (self@.busy_count == 0),
    {
        self.busy_count == 0
    }

    /// The display settings were changed and can be saved.
    pub fn can_save_display(&self) -> (r: bool)
        ensures
            r == (self@.detail matches Some(detail) && !same_json(
                self@.display_draft,
                detail.profile.display,
            ) && self@.busy_count == 0),
    {
        match &self.detail {
            Some(detail) => !equal_json(&self.display_draft, &detail.profile.display)
                && self.busy_count == 0,
            None => false,
        }
    }

    /// A window that is closed stays in the tray, until the program is to end.
    pub fn hides_on_close(&self) -> (r: bool)
        ensures
            r == !self@.quitting,
    {
        !self.quitting
    }
}

/// A command that was given and has ended leaves the window as busy as it was.
pub proof fn ended_command_is_counted_off(console: ConsoleV)
    requires
        console.busy_count < usize::MAX,
    ensures
        handled(
            ConsoleV { busy_count: (console.busy_count + 1) as usize, ..console },
            EventV::Idle,
        ).0.busy_count == console.busy_count,
{
}

/// What is shown of a plugin is not disturbed by what comes in of another one.
pub proof fn other_detail_is_ignored(console: ConsoleV, id: Seq<char>, detail: DetailV)
    requires
        console.selected_plugin != Some(id),
    ensures
        handled(console, EventV::Detail(id, detail)) == (console, ActionV::Nothing),
{
}

/// Whatever comes in, the thumbnails in memory keep to their limits. A
/// thumbnail so large that the bytes could not be counted is left out.
pub proof fn events_keep_texture_limits(console: ConsoleV, event: EventV)
    requires
        keeps_limits(console.textures),
        event matches EventV::Thumbnail(_, bytes) ==> TEXTURE_CACHE_BYTES + bytes <= usize::MAX,
    ensures
        keeps_limits(handled(console, event).0.textures),
{
    match event {
        EventV::Snapshot(snapshot) => {
            moved_textures_keep_limits(console.textures, snapshot.data_directory);
        },
        EventV::Thumbnail(key, bytes) => {
            textures_stay_within_limits(console.textures, key, bytes);
        },
        _ => {},
    }
}

} // verus!
