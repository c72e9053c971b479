use background_studio::json::{decimal_json, parse_json, write_json, write_pretty, Json};
use background_studio::models::SlideshowOrder;
use background_studio::profile::{
    apply_patch, check_bounds, default_display, default_settings_schema, interval_seconds,
    load_profile, normalize_profile, normalize_profile_with_schema, profile_path, profile_value,
    sanitize_display, sanitize_field, save_profile, try_load_profile, try_sanitize_display,
    PluginProfile, ProfilePatch, SlideshowPatch,
};

fn json(text: &str) -> Json {
    parse_json(text).unwrap()
}

fn number(value: &Json, key: &str) -> f64 {
    f64::from_bits(value.get(key).unwrap().as_double().unwrap().bits())
}

#[test]
fn clamps_and_round_trips_profile() {
    let profile = normalize_profile(&json(
        r##"{
            "activeMediaId": "背景-一号",
            "playlistIds": ["a", "a", "b"],
            "display": {
                "opacity": 9,
                "blur": -4,
                "overlayColor": "red",
                "fit": "cover"
            },
            "slideshow": { "intervalSeconds": 2, "order": "sideways" }
        }"##,
    ));
    assert_eq!(profile.active_media_id.as_deref(), Some("背景-一号"));
    assert_eq!(profile.playlist_ids, vec!["a", "b"]);
    assert_eq!(number(&profile.display, "opacity"), 1.0);
    assert_eq!(number(&profile.display, "blur"), 0.0);
    assert_eq!(profile.display.get_str("overlayColor").unwrap(), "#101416");
    assert_eq!(profile.slideshow.interval_seconds, 10);

    let stored = save_profile(&profile);
    let loaded = load_profile(Some(Ok(stored)), None).ok().unwrap();
    assert!(!loaded.is_new);
    assert_eq!(loaded.profile.active_media_id, profile.active_media_id);
    assert_eq!(number(&loaded.profile.display, "opacity"), 1.0);
}

#[test]
fn applies_display_patch_without_dropping_known_fields() {
    let mut profile = PluginProfile::default();
    apply_patch(
        &mut profile,
        ProfilePatch {
            display: Some(json(r#"{ "opacity": 0.2 }"#)),
            ..ProfilePatch::default()
        },
    );
    assert_eq!(number(&profile.display, "opacity"), 0.2);
    assert!(profile.display.get("fit").is_none());
}

#[test]
fn defaults_fill_what_is_missing() {
    let display = default_display();
    assert_eq!(number(&display, "opacity"), 0.72);
    assert_eq!(number(&display, "positionX"), 50.0);
    assert_eq!(display.get_str("fit").unwrap(), "cover");
    assert_eq!(display.as_object().unwrap().len(), 21);
    assert!(check_bounds(None));
    assert!(check_bounds(Some(&default_settings_schema())));
    let filled = sanitize_display(&json("{}"), Some(&default_settings_schema()));
    assert_eq!(number(&filled, "menuOpacity"), 0.9);
    assert_eq!(filled.get("videoMuted").unwrap().as_bool(), Some(true));
}

#[test]
fn schema_filters_and_clamps() {
    let schema = json(
        r##"{"type":"object","properties":{
            "a":{"type":"number","minimum":1,"maximum":5,"default":3},
            "b":{"type":"string","enum":["x","y"],"default":"y"},
            "c":{"type":"boolean","default":true},
            "d":{"type":"string","format":"color","default":"#112233"}}}"##,
    );
    let cleaned = sanitize_display(
        &json(r##"{"a":9,"b":"z","c":"no","d":"#zzzzzz","other":1}"##),
        Some(&schema),
    );
    assert_eq!(number(&cleaned, "a"), 5.0);
    assert_eq!(cleaned.get_str("b").unwrap(), "y");
    assert_eq!(cleaned.get("c").unwrap().as_bool(), Some(true));
    assert!(cleaned.get("other").is_none());
    let again = sanitize_display(&cleaned, Some(&schema));
    assert_eq!(write_json(&again), write_json(&cleaned));
    let kept = sanitize_display(&json(r#"{"a":2.5,"b":"x","c":false}"#), Some(&schema));
    assert_eq!(number(&kept, "a"), 2.5);
    assert_eq!(kept.get_str("b").unwrap(), "x");
    assert_eq!(kept.get("c").unwrap().as_bool(), Some(false));
}

#[test]
fn texts_count_as_numbers_where_they_denote_one() {
    let schema = json(r#"{"type":"number","minimum":0,"maximum":10}"#);
    let field = sanitize_field(
        Some(&json(r#""2.5""#)),
        Some(&schema),
        json("1"),
    );
    assert_eq!(f64::from_bits(field.as_double().unwrap().bits()), 2.5);
    let field = sanitize_field(Some(&json(r#""x""#)), Some(&schema), json("1"));
    assert_eq!(f64::from_bits(field.as_double().unwrap().bits()), 1.0);
}

#[test]
fn bounds_that_exclude_each_other_are_found() {
    let schema = json(
        r#"{"type":"object","properties":{"a":{"type":"number","minimum":5,"maximum":1}}}"#,
    );
    assert!(!check_bounds(Some(&schema)));
    assert!(try_sanitize_display(&json("{}"), Some(&schema)).is_none());
    assert!(try_load_profile(None, Some(&schema)).is_none());
    assert!(try_sanitize_display(&json("{}"), None).is_some());
}

#[test]
fn interval_is_rounded_and_limited() {
    for (given, kept) in [
        (2.0f64, 10),
        (10.4, 10),
        (10.5, 11),
        (11.5, 12),
        (59.499999999999993, 59),
        (59.5, 60),
        (86399.5, 86400),
        (86400.0, 86400),
        (86401.0, 86400),
        (1e300, 86400),
        (-1.0, 10),
        (-0.0, 10),
        (12345.0, 12345),
    ] {
        assert_eq!(given.clamp(10.0, 86_400.0).round() as u64, kept);
        assert_eq!(interval_seconds(given.to_bits()), kept);
    }
}

#[test]
fn interval_that_is_no_number_is_ignored() {
    for given in [f64::NAN, f64::INFINITY, f64::NEG_INFINITY] {
        let mut profile = PluginProfile::default();
        apply_patch(
            &mut profile,
            ProfilePatch {
                slideshow: Some(SlideshowPatch {
                    enabled: Some(true),
                    interval_seconds: Some(given.to_bits()),
                    order: None,
                }),
                ..ProfilePatch::default()
            },
        );
        assert_eq!(profile.slideshow.interval_seconds, 300);
        assert!(profile.slideshow.enabled);
    }
}

#[test]
fn patch_changes_only_what_it_names() {
    let mut profile = normalize_profile(&json(
        r#"{"activeMediaId":"a","playlistIds":["a","b"],"slideshow":{"enabled":true,"order":"random","intervalSeconds":60}}"#,
    ));
    apply_patch(
        &mut profile,
        ProfilePatch {
            slideshow: Some(SlideshowPatch {
                enabled: None,
                interval_seconds: Some(5.0f64.to_bits()),
                order: None,
            }),
            ..ProfilePatch::default()
        },
    );
    assert_eq!(profile.slideshow.interval_seconds, 10);
    assert!(profile.slideshow.enabled);
    assert!(matches!(profile.slideshow.order, SlideshowOrder::Random));
    assert_eq!(profile.active_media_id.as_deref(), Some("a"));
    apply_patch(
        &mut profile,
        ProfilePatch {
            active_media_id: Some(None),
            playlist_ids: Some(vec!["x".to_string(), "x".to_string(), "y".to_string()]),
            ..ProfilePatch::default()
        },
    );
    assert_eq!(profile.active_media_id, None);
    assert_eq!(profile.playlist_ids, vec!["x", "y"]);
}

#[test]
fn profile_without_file_is_new() {
    let loaded = load_profile(None, None).ok().unwrap();
    assert!(loaded.is_new);
    assert_eq!(loaded.profile.slideshow.interval_seconds, 300);
    assert!(load_profile(Some(Err("denied".to_string())), None).is_err());
    assert!(load_profile(Some(Ok("{".to_string())), None).is_err());
    assert_eq!(profile_path("codex"), vec!["profiles", "codex.json"]);
}

#[test]
fn stored_profile_reads_back() {
    let profile = normalize_profile_with_schema(
        &json(
            r#"{"activeMediaId":"m","playlistIds":["m","n"],"display":{"opacity":0.5},"slideshow":{"enabled":true,"intervalSeconds":45,"order":"random"}}"#,
        ),
        None,
    );
    let stored = save_profile(&profile);
    let again = load_profile(Some(Ok(stored.clone())), None).ok().unwrap().profile;
    assert_eq!(save_profile(&again), stored);
    assert_eq!(again.slideshow.interval_seconds, 45);
    assert_eq!(number(&again.display, "opacity"), 0.5);
}

#[test]
fn settings_without_a_schema_are_stable() {
    let schema = json("{}");
    let value = json(r#"{"display":{"zoom":3,"nested":{"a":1},"fit":"tile","note":"x","opacity":7}}"#);
    let once = normalize_profile_with_schema(&value, Some(&schema));
    assert_eq!(once.display.get_str("note").unwrap(), "x");
    assert_eq!(number(&once.display, "zoom"), 3.0);
    assert!(once.display.get("nested").is_none());
    let twice = normalize_profile_with_schema(&profile_value(&once), Some(&schema));
    assert_eq!(save_profile(&twice), save_profile(&once));
}

#[test]
fn whole_numbers_read_back_as_they_were() {
    for text in ["0.0", "1.0", "40.0", "86400.0", "100000000000000.0"] {
        let written = write_pretty(&decimal_json(text));
        assert_eq!(written, text);
        let read = parse_json(&written).unwrap();
        let bits = read.as_double().unwrap().bits();
        assert_eq!(f64::from_bits(bits), text.parse::<f64>().unwrap());
    }
}
