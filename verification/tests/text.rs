use background_studio::desktop::{
    activation_failure, autostart_command, check_activation, stop_script,
};
use background_studio::digest::{sha256, sha256_text};
use background_studio::json::{
    before, decimal_json, equal_json, int_json, parse_json, read_string, read_u32, write_json,
    Double, Json, Members,
};
use background_studio::paths::{extension, file_name, plain_name, sort_paths, split_path};
use background_studio::table::Table;
use background_studio::text::{
    alphanumeric, contains_text, control, decimal_text, digit, hex_digit, join, lowered,
    parse_numeral, remove_text, trim, untag, white_space, wide_decimal_text,
};

#[test]
fn characters_are_classified_as_the_language_does() {
    for code in 0..0x3100u32 {
        if let Some(c) = char::from_u32(code) {
            assert_eq!(white_space(c), c.is_whitespace());
            assert_eq!(control(c), c.is_control());
            assert_eq!(digit(c), c.is_ascii_digit());
            assert_eq!(alphanumeric(c), c.is_ascii_alphanumeric());
            assert_eq!(hex_digit(c), c.is_ascii_hexdigit());
            assert_eq!(lowered(c), c.to_ascii_lowercase());
        }
    }
}

#[test]
fn texts_are_trimmed_and_searched() {
    assert_eq!(trim("\u{3000} a b \n"), "a b");
    assert_eq!(trim(""), "");
    assert_eq!(untag("v1.2"), "1.2");
    assert_eq!(untag("1.2"), "1.2");
    assert!(contains_text("abc", ""));
    assert!(contains_text("abc", "bc"));
    assert!(!contains_text("abc", "cb"));
    let parts = vec!["a".to_string(), "b".to_string(), "a".to_string()];
    assert_eq!(join(&parts, ", "), "a, b, a");
    assert_eq!(remove_text(&parts, "a"), vec!["b"]);
}

#[test]
fn numerals_read_back() {
    for n in [0, 9, 10, 99, 12345, u64::MAX] {
        assert_eq!(decimal_text(n), n.to_string());
        assert_eq!(parse_numeral(&decimal_text(n)), Some(n));
    }
    assert_eq!(wide_decimal_text(u128::MAX), u128::MAX.to_string());
    assert_eq!(parse_numeral("18446744073709551616"), None);
    assert_eq!(parse_numeral(""), None);
    assert_eq!(parse_numeral("1a"), None);
}

#[test]
fn paths_are_taken_apart() {
    assert_eq!(split_path("a/b"), vec!["a", "b"]);
    assert_eq!(file_name("/x/y.PNG").as_deref(), Some("y.PNG"));
    assert_eq!(extension("/x/y.PNG"), ".png");
    assert_eq!(extension("/x/y"), "");
    assert!(plain_name("a.png"));
    assert!(!plain_name("a/b.png"));
    assert!(!plain_name(".."));
    let sorted = sort_paths(vec!["b".to_string(), "a".to_string(), "c".to_string()]);
    assert_eq!(sorted, vec!["a", "b", "c"]);
}

#[test]
fn digests_are_those_of_sha256() {
    let expected = "ba7816bf8f01cfea414140de5dae2223b00361a396177a9cb410ff61f20015ad";
    assert_eq!(sha256_text("abc"), expected);
    assert_eq!(sha256(&b"abc".to_vec()), expected);
}

#[test]
fn json_is_read_and_written() {
    let value = parse_json(r#"{"b":[1,-2,0.5,"x",null,true],"a":{}}"#).unwrap();
    assert_eq!(write_json(&value), r#"{"a":{},"b":[1,-2,0.5,"x",null,true]}"#);
    assert!(parse_json("{").is_err());
    assert!(equal_json(&value, &value.copy()));
    assert!(!equal_json(&value, &parse_json("{}").unwrap()));
    assert!(equal_json(
        &parse_json("0.0").unwrap(),
        &parse_json("-0.0").unwrap()
    ));
    assert!(!equal_json(&int_json(1), &decimal_json("1.0")));
    assert_eq!(write_json(&decimal_json("0.1")), "0.1");
    assert!(before("a", "b"));
    assert!(!before("b", "a"));
    assert_eq!(read_u32(&int_json(7)).unwrap(), 7);
    assert!(read_u32(&int_json(u64::MAX)).is_err());
    assert_eq!(read_string(&parse_json("\"x\"").unwrap()).unwrap(), "x");
    assert!(read_string(&int_json(1)).is_err());
}

#[test]
fn doubles_keep_their_bits() {
    for text in ["0", "1.5", "-2.25", "1e300", "123456789.125"] {
        let value: f64 = text.parse().unwrap();
        assert_eq!(Double::parse(text).unwrap().bits(), value.to_bits());
    }
    assert!(Double::parse("x").is_none());
    assert!(Double::parse("1").unwrap().less(&Double::parse("2").unwrap()));
    assert!(!Double::parse("-0").unwrap().less(&Double::parse("0").unwrap()));
    let n = parse_json("9007199254740993").unwrap();
    assert_eq!(
        f64::from_bits(n.as_double().unwrap().bits()),
        9007199254740993u64 as f64
    );
}

#[test]
fn members_stay_in_order() {
    let mut members = Members::new();
    members.insert("b".to_string(), Json::Null);
    members.insert("a".to_string(), Json::Bool(true));
    members.insert("b".to_string(), Json::Bool(false));
    assert_eq!(members.len(), 2);
    assert_eq!(members.key(0), "a");
    assert_eq!(members.get("b").unwrap().as_bool(), Some(false));
}

#[test]
fn table_holds_each_key_once() {
    let mut table: Table<u64> = Table::new();
    table.insert("a".to_string(), 1);
    table.insert("b".to_string(), 2);
    table.insert("a".to_string(), 3);
    assert_eq!(table.get("a"), Some(&3));
    assert_eq!(table.keys().len(), 2);
    table.remove("a");
    assert!(!table.contains("a"));
    assert!(table.contains("b"));
}

#[test]
fn desktop_commands_are_written() {
    assert_eq!(autostart_command(r"C:\a b.exe", true), r#""C:\a b.exe" --hidden"#);
    assert_eq!(autostart_command("x", false), "\"x\"");
    assert!(check_activation(" activate \n").is_ok());
    assert_eq!(check_activation("go").err().unwrap(), "收到无效的实例激活请求。");
    assert_eq!(
        activation_failure(None),
        "已有实例正在运行，但无法激活它：未知错误"
    );
    let script = stop_script(r"\\?\\\?\C:/It's", "a'b.exe");
    assert!(script.starts_with(
        r#"$root = 'c:\it''s'; Get-CimInstance Win32_Process -Filter "Name='a''b.exe'" | ForEach-Object"#
    ));
    assert!(script.contains(r"Replace('/','\').ToLower()"));
    assert!(script.contains(r"StartsWith('\\?\')"));
}
