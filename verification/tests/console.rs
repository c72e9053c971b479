use background_studio::console::{
    count_plugins, entered_url, format_bytes, import_outcome, matches_search, phase_color,
    phase_dot, remote_outcome, steps_for, summary, toggle_playlist, Command, Console, ConsoleEvent,
    Step, Tone, WindowAction,
};
use background_studio::form::{form_fields, set_field, set_number, FieldInput};
use background_studio::host_core::PluginDetail;
use background_studio::json::{parse_json, text_json, write_json};
use background_studio::media::import_without;
use background_studio::models::ImportResult;
use background_studio::plugins::{HostSnapshot, PluginCard};
use background_studio::profile::PluginProfile;
use background_studio::proxy::ProxyMode;
use background_studio::textures::TextureStep;

fn card(id: &str, installed: bool, running: bool, outdated: bool) -> PluginCard {
    PluginCard {
        id: id.to_string(),
        display_name: id.to_string(),
        target_hint: String::new(),
        enabled: installed,
        installed_version: if installed { Some("1.0.0".to_string()) } else { None },
        latest_version: None,
        latest_asset_name: None,
        running,
        status_message: String::new(),
        phase: "idle".to_string(),
        plugin_protocol: 2,
        update_available: outdated,
        icon_path: None,
        icon_web: String::new(),
        capabilities: Vec::new(),
    }
}

fn snapshot(directory: &str) -> HostSnapshot {
    HostSnapshot {
        plugins: vec![
            card("a", true, true, false),
            card("b", true, false, true),
            card("c", false, false, false),
        ],
        auto_start_with_windows: false,
        start_minimized: false,
        data_directory: directory.to_string(),
        warning: None,
        host_version: "0.1.3".to_string(),
        host_latest_version: None,
        host_update_available: false,
        host_release_url: None,
        proxy_mode: ProxyMode::Off,
        proxy_url: String::new(),
    }
}

#[test]
fn states_have_colours_and_signs() {
    for (phase, tone, sign) in [
        ("active", Tone::Green, "●"),
        ("error", Tone::Red, "■"),
        ("paused", Tone::Amber, "▲"),
        ("waiting_manual", Tone::Amber, "▲"),
        ("starting", Tone::Blue, "◆"),
        ("takeover", Tone::Blue, "◆"),
        ("attaching", Tone::Blue, "◆"),
        ("other", Tone::Muted, "○"),
    ] {
        assert_eq!(phase_color(phase, true), tone);
        assert_eq!(phase_dot(phase, true), sign);
        assert_eq!(phase_dot(phase, false), "○");
    }
}

#[test]
fn plugins_are_counted() {
    let cards = snapshot("/d").plugins;
    let counts = count_plugins(&cards);
    assert_eq!((counts.installed, counts.running, counts.outdated), (2, 1, 1));
    assert_eq!(summary(&cards), "2 已装 / 1 运行中");
}

#[test]
fn sizes_are_shown_as_the_language_formats_them() {
    fn reference(bytes: u64) -> String {
        if bytes >= 1024 * 1024 {
            format!("{:.1} MiB", bytes as f64 / 1024.0 / 1024.0)
        } else if bytes >= 1024 {
            format!("{:.1} KiB", bytes as f64 / 1024.0)
        } else {
            format!("{bytes} B")
        }
    }
    let mut samples = vec![0, 1, 1023, 1024, 1025, 1536, 1048575, 1048576, 1310720, 1835008];
    for i in 0..2000u64 {
        samples.push(1024 + i * 13);
        samples.push(1048576 + i * 26214);
        samples.push(1280 + i * 512);
        samples.push(1048576 / 4 * (4 + i));
        samples.push(9007199254740992 + i * 7919);
        samples.push(u64::MAX - i * 104729);
        samples.push((1 << 60) + i * 524288);
    }
    for bytes in samples {
        assert_eq!(format_bytes(bytes), reference(bytes));
    }
    assert_eq!(format_bytes(1310720), "1.2 MiB");
}

#[test]
fn search_ignores_case_and_spaces() {
    assert!(matches_search("Night Sky.PNG", " sky "));
    assert!(matches_search("anything", "   "));
    assert!(!matches_search("Night", "day"));
    assert_eq!(entered_url("  "), None);
    assert_eq!(entered_url(" https://x ").as_deref(), Some("https://x"));
}

#[test]
fn playlist_is_toggled() {
    let ids = vec!["a".to_string(), "b".to_string()];
    assert_eq!(toggle_playlist(&ids, "a"), vec!["b"]);
    assert_eq!(toggle_playlist(&ids, "c"), vec!["a", "b", "c"]);
}

#[test]
fn failed_imports_are_reported() {
    let mut result = import_without("/a.txt", "类型不支持".to_string());
    result.skipped.extend(import_without("/b.txt", "损坏".to_string()).skipped);
    assert_eq!(
        import_outcome(&result).err().unwrap(),
        "/a.txt：类型不支持\n/b.txt：损坏"
    );
    assert_eq!(remote_outcome(&result).err().unwrap(), "类型不支持");
    assert!(import_outcome(&ImportResult::default()).is_ok());
    assert_eq!(
        remote_outcome(&ImportResult::default()).err().unwrap(),
        "远程媒体没有返回可导入内容。"
    );
}

#[test]
fn commands_are_carried_out_step_by_step() {
    assert_eq!(
        steps_for(&Command::Refresh),
        vec![Step::ReloadCatalog, Step::RefreshLatest, Step::GreetEnabled]
    );
    assert_eq!(
        steps_for(&Command::Install("a".to_string())),
        vec![Step::Perform, Step::Greet, Step::ShowDetail]
    );
    assert_eq!(
        steps_for(&Command::SetEnabled("a".to_string(), false)),
        vec![Step::Perform]
    );
    assert_eq!(
        steps_for(&Command::SetEnabled("a".to_string(), true)),
        vec![Step::Perform, Step::Greet]
    );
    assert_eq!(
        steps_for(&Command::RemoveMedia("a".to_string(), "m".to_string())),
        vec![Step::Perform, Step::ShowDetail]
    );
    assert_eq!(
        steps_for(&Command::InstallHostUpdate),
        vec![Step::Perform, Step::Quit]
    );
}

#[test]
fn events_change_what_is_shown() {
    let mut console = Console::new("/d".to_string());
    console.begin_command();
    assert!(!console.is_idle());
    console.handle(ConsoleEvent::Progress("下载".to_string()));
    assert_eq!(console.progress.as_deref(), Some("下载"));
    console.handle(ConsoleEvent::Idle);
    assert!(console.is_idle());
    assert_eq!(console.progress, None);
    console.handle(ConsoleEvent::Idle);
    assert_eq!(console.busy_count, 0);

    console.handle(ConsoleEvent::Thumbnail("k".to_string(), 4));
    assert!(console.textures.holds("k"));
    match console.handle(ConsoleEvent::Snapshot(snapshot("/d"))) {
        WindowAction::Tray(status, hint) => {
            assert_eq!(status, "状态：2 已装 / 1 运行中");
            assert_eq!(hint, "Background Studio · 2 已装 / 1 运行中");
        }
        _ => panic!("no tray"),
    }
    assert!(console.textures.holds("k"));
    console.handle(ConsoleEvent::Snapshot(snapshot("/e")));
    assert!(!console.textures.holds("k"));
    assert!(matches!(console.textures.ask("k"), TextureStep::Make));
    console.handle(ConsoleEvent::ThumbnailFailed("k".to_string()));
    assert!(matches!(console.textures.ask("k"), TextureStep::Make));

    console.handle(ConsoleEvent::Error("坏".to_string()));
    assert_eq!(console.notice, Some(("坏".to_string(), true)));
    assert!(matches!(
        console.handle(ConsoleEvent::ShowWindow),
        WindowAction::Show
    ));
    assert!(console.hides_on_close());
    assert!(matches!(console.handle(ConsoleEvent::Quit), WindowAction::Close));
    assert!(!console.hides_on_close());
    console.open_plugin("a");
    assert_eq!(console.selected_plugin.as_deref(), Some("a"));
    console.open_overview();
    assert_eq!(console.selected_plugin, None);
    assert!(!console.can_save_display());
}

#[test]
fn form_follows_the_schema() {
    let schema = parse_json(
        r#"{"properties":{
            "a":{"type":"boolean","title":"甲"},
            "b":{"type":"number","minimum":1,"maximum":5,"step":0.5},
            "c":{"type":"string","enum":["x",1,"y"],"enumLabels":["叉"]},
            "d":{"type":"string"},
            "e":{"type":"integer"},
            "f":{"type":"array"}}}"#,
    )
    .unwrap();
    let mut draft = parse_json(r#"{"a":true,"c":"y"}"#).unwrap();
    let fields = form_fields(&schema, &draft).unwrap();
    assert_eq!(fields.len(), 6);
    assert_eq!(fields[0].title, "甲");
    assert!(matches!(fields[0].input, FieldInput::Toggle(true)));
    match &fields[1].input {
        FieldInput::Slider(range, value) => {
            assert_eq!(fields[1].title, "b");
            assert_eq!(f64::from_bits(range.minimum), 1.0);
            assert_eq!(f64::from_bits(range.maximum), 5.0);
            assert_eq!(f64::from_bits(range.step), 0.5);
            assert_eq!(f64::from_bits(*value), 1.0);
        }
        _ => panic!("no slider"),
    }
    match &fields[2].input {
        FieldInput::Choice(current, options) => {
            assert_eq!(current, "y");
            assert_eq!(
                options,
                &vec![
                    ("x".to_string(), "叉".to_string()),
                    ("y".to_string(), "y".to_string())
                ]
            );
        }
        _ => panic!("no choice"),
    }
    assert!(matches!(&fields[3].input, FieldInput::Text(text) if text.is_empty()));
    match &fields[4].input {
        FieldInput::Slider(range, value) => {
            assert_eq!(f64::from_bits(range.minimum), 0.0);
            assert_eq!(f64::from_bits(range.maximum), 100.0);
            assert_eq!(f64::from_bits(range.step), 0.01);
            assert_eq!(f64::from_bits(*value), 0.0);
        }
        _ => panic!("no slider"),
    }
    assert!(matches!(fields[5].input, FieldInput::Nothing));

    set_field(&mut draft, "d", text_json("z"));
    set_number(&mut draft, "b", "2.5");
    set_number(&mut draft, "b", "inf");
    assert_eq!(write_json(&draft), r#"{"a":true,"b":2.5,"c":"y","d":"z"}"#);
    let mut nothing = parse_json("3").unwrap();
    set_field(&mut nothing, "d", text_json("z"));
    assert_eq!(write_json(&nothing), r#"{"d":"z"}"#);
    assert!(form_fields(&parse_json("{}").unwrap(), &draft).is_none());
}

fn detail(id: &str, display: &str) -> PluginDetail {
    let mut profile = PluginProfile::default();
    profile.display = parse_json(display).unwrap();
    PluginDetail {
        plugin: card(id, true, true, false),
        profile,
        library: Vec::new(),
        thumbnail_sources: Vec::new(),
        settings_schema: parse_json("{}").unwrap(),
        preview_url: None,
        capabilities: Vec::new(),
        plugin_protocol: 2,
    }
}

#[test]
fn only_the_chosen_plugin_is_shown() {
    let mut console = Console::new("/d".to_string());
    console.open_plugin("a");
    let other = detail("b", r#"{"opacity":0.25}"#);
    let action = console.handle(ConsoleEvent::Detail("b".to_string(), other));
    assert!(matches!(action, WindowAction::Nothing));
    assert!(console.detail.is_none());
    let chosen = detail("a", r#"{"opacity":0.5}"#);
    console.handle(ConsoleEvent::Detail("a".to_string(), chosen));
    assert_eq!(console.detail.as_ref().unwrap().plugin.id, "a");
    assert_eq!(write_json(&console.display_draft), r#"{"opacity":0.5}"#);
}

#[test]
fn made_setting_stands_in_the_form() {
    let schema = parse_json(r#"{"properties":{"d":{"type":"string"}}}"#).unwrap();
    let mut draft = parse_json("{}").unwrap();
    set_field(&mut draft, "d", text_json("z"));
    let fields = form_fields(&schema, &draft).unwrap();
    assert!(matches!(&fields[0].input, FieldInput::Text(text) if text == "z"));
}
