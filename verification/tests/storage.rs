use background_studio::json::parse_json;
use background_studio::catalog::{find, load_catalog, parse_catalog, resolve_icon_path};
use background_studio::config::{
    data_directories, data_files, host_config_path, load_host_config, resolve_data_directory,
    save_host_config, set_data_root, takes_along, HostConfig,
};
use background_studio::proxy::{
    choose_mode, mode_from, mode_text, plan_client, plan_environment, proxy_value, proxy_variables,
    read_proxy, ClientPlan, EnvironmentPlan, ProxyMode, ProxySettings,
};

fn entry(id: &str, name: &str) -> String {
    format!(
        r#"{{"id":"{id}","displayName":"{name}","owner":"o","repo":"r","assetPrefix":"P-","exeName":"e.exe","pipeName":"p"}}"#
    )
}

fn listing(entries: &[String]) -> String {
    format!(r#"{{"plugins":[{}]}}"#, entries.join(","))
}

#[test]
fn overlay_replaces_and_extends_the_catalogue() {
    let builtin = listing(&[entry("b", "B"), entry("a", "A")]);
    let plain = load_catalog(&builtin, None).ok().unwrap();
    assert_eq!(plain.len(), 2);
    let overlay = listing(&[entry("a", "A2"), entry("c", "C")]);
    let merged = load_catalog(&builtin, Some(Ok(overlay))).ok().unwrap();
    assert_eq!(merged.len(), 3);
    assert_eq!(find(&merged, "a").unwrap().display_name, "A2");
    assert_eq!(find(&merged, "b").unwrap().display_name, "B");
    assert!(find(&merged, "d").is_none());
    assert!(parse_catalog("{").is_err());
    assert!(load_catalog(&builtin, Some(Err("denied".to_string()))).is_err());
}

#[test]
fn icons_are_found_by_plugin() {
    let mut plugins = load_catalog(&listing(&[entry("a", "A")]), None).ok().unwrap();
    assert_eq!(resolve_icon_path(&plugins[0], false, true), None);
    assert_eq!(
        resolve_icon_path(&plugins[0], true, false).as_deref(),
        Some("a.png")
    );
    plugins[0].icon = Some("own.png".to_string());
    assert_eq!(
        resolve_icon_path(&plugins[0], false, true).as_deref(),
        Some("own.png")
    );
    plugins[0].icon = Some("https://x/own.png".to_string());
    assert_eq!(resolve_icon_path(&plugins[0], false, true), None);
}

#[test]
fn stored_config_reads_back() {
    let blank = load_host_config(None).ok().unwrap();
    assert_eq!(resolve_data_directory(&blank), None);
    let config = set_data_root(blank, "D:\\data".to_string());
    assert_eq!(resolve_data_directory(&config).as_deref(), Some("D:\\data"));
    let stored = save_host_config(&config);
    assert_eq!(stored, "{\n  \"dataRoot\": \"D:\\\\data\"\n}");
    let again = load_host_config(Some(Ok(stored))).ok().unwrap();
    assert_eq!(again.data_root.as_deref(), Some("D:\\data"));
    let padded = HostConfig {
        data_root: Some("  ".to_string()),
    };
    assert_eq!(resolve_data_directory(&padded), None);
    assert!(load_host_config(Some(Ok("[1]".to_string()))).is_err());
    assert!(load_host_config(Some(Err("denied".to_string()))).is_err());
    assert_eq!(host_config_path().last().unwrap(), "host.json");
}

#[test]
fn data_that_is_there_stays() {
    assert!(takes_along(true, false));
    assert!(!takes_along(true, true));
    assert!(!takes_along(false, false));
    assert_eq!(data_files().len(), 3);
    assert!(data_directories().contains(&"profiles".to_string()));
}

fn settings(mode: ProxyMode, url: &str) -> ProxySettings {
    ProxySettings {
        mode,
        url: url.to_string(),
    }
}

#[test]
fn proxy_settings_are_checked_and_read_back() {
    let custom = settings(ProxyMode::Custom, " http://127.0.0.1:7890 ").normalized();
    assert_eq!(custom.url, "http://127.0.0.1:7890");
    let twice = custom.copy().normalized();
    assert_eq!(twice.url, custom.url);
    assert_eq!(twice.mode, custom.mode);
    assert!(custom.validate().is_ok());
    assert!(settings(ProxyMode::Custom, "  ").validate().is_err());
    assert!(settings(ProxyMode::Off, "").validate().is_ok());
    let again = read_proxy(&proxy_value(&custom)).unwrap();
    assert_eq!(again.mode, ProxyMode::Custom);
    assert_eq!(again.url, custom.url);
    assert_eq!(mode_from(mode_text(ProxyMode::System)), Some(ProxyMode::System));
    assert_eq!(choose_mode(" OFF ").unwrap(), ProxyMode::Off);
    assert_eq!(choose_mode("Tor").err().unwrap(), "未知代理模式：tor");
}

#[test]
fn proxy_decides_client_and_environment() {
    assert!(matches!(
        plan_client(&settings(ProxyMode::Off, "")),
        Ok(ClientPlan::Direct)
    ));
    assert!(matches!(
        plan_environment(&settings(ProxyMode::Off, "")),
        EnvironmentPlan::Clear
    ));
    assert!(matches!(
        plan_environment(&settings(ProxyMode::System, "")),
        EnvironmentPlan::Keep
    ));
    assert!(matches!(
        plan_environment(&settings(ProxyMode::Custom, "http://p:1")),
        EnvironmentPlan::Use(_)
    ));
    assert!(proxy_variables().contains(&"HTTPS_PROXY"));
}

#[test]
fn records_may_be_lists_of_their_fields() {
    let read = |text: &str| read_proxy(&parse_json(text).unwrap());
    assert_eq!(read("[]").unwrap().mode, ProxyMode::Off);
    let custom = read(r#"["custom","http://p"]"#).unwrap();
    assert_eq!(custom.mode, ProxyMode::Custom);
    assert_eq!(custom.url, "http://p");
    assert!(read(r#"["off","",1]"#).is_none());
    assert!(read("3").is_none());
    let fields = r#"["a","A","o","r","p","e.exe","\\\\.\\pipe\\a"]"#;
    assert_eq!(parse_catalog(&format!("[2,[{fields}]]")).ok().unwrap()[0].id, "a");
    assert!(parse_catalog(&format!("[[{fields}]]")).is_err());
    assert!(parse_catalog(&format!("[2,[{fields}],3]")).is_err());
}
