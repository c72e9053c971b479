//! The proxy through which the host reaches the network.
use vstd::prelude::*;

use crate::json::{
    check_record, collected, get_record_field, is_record, object_of, pairs_view, record_field,
    text_json, Json, JsonV,
};
use crate::text::{lower, lower_text, outcome, same, trim, trimmed};

verus! {

#[derive(Clone, Copy, Debug, PartialEq, Eq, Structural)]
pub enum ProxyMode {
    /// No proxy.
    Off,
    /// The proxy of the environment or of the system.
    System,
    /// The proxy at the given address.
    Custom,
}

impl Default for ProxyMode {
    fn default() -> (r: ProxyMode)
        ensures
            r == ProxyMode::Off,
    {
        ProxyMode::Off
    }
}

/// The proxy settings.
#[derive(Clone, Debug)]
pub struct ProxySettings {
    pub mode: ProxyMode,
    pub url: String,
}

/// The model of the proxy settings.
pub struct ProxyV {
    pub mode: ProxyMode,
    pub url: Seq<char>,
}

impl View for ProxySettings {
    type V = ProxyV;

    open spec fn view(&self) -> ProxyV {
        ProxyV { mode: self.mode, url: self.url@ }
    }
}

impl Default for ProxySettings {
    fn default() -> (r: ProxySettings)
        ensures
            r@ == (ProxyV { mode: ProxyMode::Off, url: Seq::empty() }),
    {
        ProxySettings { mode: ProxyMode::Off, url: String::new() }
    }
}

/// The settings can be used: a proxy of one's own has an address.
pub open spec fn proxy_check(settings: ProxyV) -> Result<(), Seq<char>> {
    if settings.mode == ProxyMode::Custom && trimmed(settings.url).len() == 0 {
        Err("自定义代理地址不能为空。"@)
    } else {
        Ok(())
    }
}

impl ProxySettings {
    pub fn copy(&self) -> (r: ProxySettings)
        ensures
            r@ == self@,
    {
        ProxySettings { mode: self.mode, url: self.url.clone() }
    }

    /// The settings without white space around the address.
    pub fn normalized(self) -> (r: ProxySettings)
        ensures
            r@ == (ProxyV { mode: self@.mode, url: trimmed(self@.url) }),
    {
        ProxySettings { mode: self.mode, url: trim(self.url.as_str()) }
    }

    pub fn validate(&self) -> (r: Result<(), String>)
        ensures
            outcome(r) == proxy_check(self@),
    {
        if matches!(self.mode, ProxyMode::Custom) && trim(self.url.as_str()).as_str().is_empty() {
            return Err("自定义代理地址不能为空。".to_string());
        }
        Ok(())
    }
}

/// How a client for the network is to be made.
pub enum ClientPlan {
    /// Without any proxy.
    Direct,
    /// With the proxy of the environment or of the system.
    System,
    /// With the proxy at this address.
    Proxy(String),
}

/// The address of the proxy that a client is to use; the outer option is `None`
/// where the system decides.
pub open spec fn client_plan(settings: ProxyV) -> Result<Option<Option<Seq<char>>>, Seq<char>> {
    match proxy_check(settings) {
        Err(message) => Err(message),
        Ok(_) => Ok(
            match settings.mode {
                ProxyMode::Off => Some(None),
                ProxyMode::System => None,
                ProxyMode::Custom => Some(Some(trimmed(settings.url))),
            },
        ),
    }
}

/// The model of a plan.
pub open spec fn plan_view(r: Result<ClientPlan, String>) -> Result<
    Option<Option<Seq<char>>>,
    Seq<char>,
> {
    match r {
        Err(message) => Err(message@),
        Ok(ClientPlan::Direct) => Ok(Some(None)),
        Ok(ClientPlan::System) => Ok(None),
        Ok(ClientPlan::Proxy(url)) => Ok(Some(Some(url@))),
    }
}

/// Decides how a client for the network is to be made.
pub fn plan_client(settings: &ProxySettings) -> (r: Result<ClientPlan, String>)
    ensures
        plan_view(r) == client_plan(settings@),
{
    match settings.validate() {
        Err(message) => Err(message),
        Ok(_) => Ok(
            match settings.mode {
                ProxyMode::Off => ClientPlan::Direct,
                ProxyMode::System => ClientPlan::System,
                ProxyMode::Custom => ClientPlan::Proxy(trim(settings.url.as_str())),
            },
        ),
    }
}

/// What a child process is to find in the environment: nothing of a proxy, what
/// is there, or a proxy at an address.
pub enum EnvironmentPlan {
    Clear,
    Keep,
    Use(String),
}

/// The model of what a child process is to find.
pub enum EnvironmentV {
    Clear,
    Keep,
    Use(Seq<char>),
}

impl View for EnvironmentPlan {
    type V = EnvironmentV;

    open spec fn view(&self) -> EnvironmentV {
        match self {
            EnvironmentPlan::Clear => EnvironmentV::Clear,
            EnvironmentPlan::Keep => EnvironmentV::Keep,
            EnvironmentPlan::Use(url) => EnvironmentV::Use(url@),
        }
    }
}

/// What a child process is to find of a proxy: nothing where there is none, the
/// address where there is one of one's own, and what is there in any other case.
pub open spec fn environment_of(settings: ProxyV) -> EnvironmentV {
    match settings.mode {
        ProxyMode::Off => EnvironmentV::Clear,
        ProxyMode::System => EnvironmentV::Keep,
        ProxyMode::Custom => if trimmed(settings.url).len() == 0 {
            EnvironmentV::Keep
        } else {
            EnvironmentV::Use(trimmed(settings.url))
        },
    }
}

/// The names under which the environment holds a proxy.
pub fn proxy_variables() -> (r: Vec<&'static str>)
    ensures
        r@.map_values(|name: &str| name@) == seq![
            "HTTP_PROXY"@,
            "HTTPS_PROXY"@,
            "ALL_PROXY"@,
            "http_proxy"@,
            "https_proxy"@,
            "all_proxy"@,
        ],
{
    let r: Vec<&'static str> = vec![
        "HTTP_PROXY",
        "HTTPS_PROXY",
        "ALL_PROXY",
        "http_proxy",
        "https_proxy",
        "all_proxy",
    ];
    assert(r@.map_values(|name: &str| name@) =~= seq![
        "HTTP_PROXY"@,
        "HTTPS_PROXY"@,
        "ALL_PROXY"@,
        "http_proxy"@,
        "https_proxy"@,
        "all_proxy"@,
    ]);
    r
}

/// Decides what a child process is to find in the environment.
pub fn plan_environment(settings: &ProxySettings) -> (r: EnvironmentPlan)
    ensures
        r@ == environment_of(settings@),
{
    match settings.mode {
        ProxyMode::Off => EnvironmentPlan::Clear,
        ProxyMode::System => EnvironmentPlan::Keep,
        ProxyMode::Custom => {
            let url = trim(settings.url.as_str());
            if url.as_str().is_empty() {
                EnvironmentPlan::Keep
            } else {
                EnvironmentPlan::Use(url)
            }
        },
    }
}

/// Settings that were normalized stay as they are, and can be used as often as
/// before.
pub proof fn normalized_proxy_is_stable(settings: ProxyV)
    ensures
        ({
            let normal = ProxyV { mode: settings.mode, url: trimmed(settings.url) };
            trimmed(normal.url) == normal.url && proxy_check(normal) == proxy_check(settings)
        }),
{
    crate::text::trimmed_twice(settings.url);
}

// ---------------------------------------------------------------------------
// The stored form
// ---------------------------------------------------------------------------

pub open spec fn mode_name(mode: ProxyMode) -> Seq<char> {
    match mode {
        ProxyMode::Off => "off"@,
        ProxyMode::System => "system"@,
        ProxyMode::Custom => "custom"@,
    }
}

pub open spec fn mode_named(name: Seq<char>) -> Option<ProxyMode> {
    if name == "off"@ {
        Some(ProxyMode::Off)
    } else if name == "system"@ {
        Some(ProxyMode::System)
    } else if name == "custom"@ {
        Some(ProxyMode::Custom)
    } else {
        None
    }
}

pub fn mode_text(mode: ProxyMode) -> (r: &'static str)
    ensures
        r@ == mode_name(mode),
{
    match mode {
        ProxyMode::Off => "off",
        ProxyMode::System => "system",
        ProxyMode::Custom => "custom",
    }
}

pub fn mode_from(name: &str) -> (r: Option<ProxyMode>)
    ensures
        r == mode_named(name@),
{
    if same(name, "off") {
        Some(ProxyMode::Off)
    } else if same(name, "system") {
        Some(ProxyMode::System)
    } else if same(name, "custom") {
        Some(ProxyMode::Custom)
    } else {
        None
    }
}

pub open spec fn proxy_json(settings: ProxyV) -> JsonV {
    JsonV::Object(
        collected(
            seq![
                ("mode"@, JsonV::Text(mode_name(settings.mode))),
                ("url"@, JsonV::Text(settings.url)),
            ],
        ),
    )
}

/// The stored form of proxy settings.
pub fn proxy_value(settings: &ProxySettings) -> (r: Json)
    ensures
        r@ == proxy_json(settings@),
{
    let pairs: Vec<(&str, Json)> = vec![
        ("mode", text_json(mode_text(settings.mode))),
        ("url", text_json(settings.url.as_str())),
    ];
    assert(pairs_view(pairs@) =~= seq![
        ("mode"@, JsonV::Text(mode_name(settings@.mode))),
        ("url"@, JsonV::Text(settings@.url)),
    ]);
    object_of(pairs)
}

/// The proxy settings that a stored value is; what is missing has its default.
pub open spec fn proxy_from(value: JsonV) -> Option<ProxyV> {
    if !is_record(value, 0, 2) {
        None
    } else {
        let mode = match record_field(value, "mode"@, 0) {
            None => Some(ProxyMode::Off),
            Some(field) => match crate::models::choice_name(field) {
                Some(name) => mode_named(name),
                None => None,
            },
        };
        let url = match record_field(value, "url"@, 1) {
            None => Some(Seq::empty()),
            Some(field) => field.as_str(),
        };
        if mode is Some && url is Some {
            Some(ProxyV { mode: mode->0, url: url->0 })
        } else {
            None
        }
    }
}

/// Reads stored proxy settings.
pub fn read_proxy(value: &Json) -> (r: Option<ProxySettings>)
    ensures
        match r {
            Some(settings) => proxy_from(value@) == Some(settings@),
            None => proxy_from(value@) is None,
        },
{
    if !check_record(value, 0, 2) {
        return None;
    }
    let mode = match get_record_field(value, "mode", 0) {
        None => ProxyMode::Off,
        Some(field) => {
            let name = crate::models::read_choice(field)?;
            mode_from(name.as_str())?
        },
    };
    let url = match get_record_field(value, "url", 1) {
        None => String::new(),
        Some(field) => field.as_str()?.clone(),
    };
    Some(ProxySettings { mode, url })
}

/// Stored proxy settings are read back as they were.
pub proof fn stored_proxy_reads_back(settings: ProxyV)
    ensures
        proxy_from(proxy_json(settings)) == Some(settings),
{
    let pairs = seq![
        ("mode"@, JsonV::Text(mode_name(settings.mode))),
        ("url"@, JsonV::Text(settings.url)),
    ];
    crate::json::lemma_collected_member(pairs, "mode"@);
    crate::json::lemma_collected_member(pairs, "url"@);
    reveal_strlit("mode");
    reveal_strlit("url");
    reveal_strlit("off");
    reveal_strlit("system");
    reveal_strlit("custom");
    assert("mode"@.len() == 4 && "url"@.len() == 3);
    assert("off"@.len() == 3);
    assert("system"@[0] == 's' && "custom"@[0] == 'c');
    assert(crate::json::names_differ(pairs));
    crate::json::lemma_pair_found(pairs, 0);
    crate::json::lemma_pair_found(pairs, 1);
}

/// The mode that the user chose by name.
pub open spec fn chosen_mode(text: Seq<char>) -> Result<ProxyMode, Seq<char>> {
    match mode_named(lower(trimmed(text))) {
        Some(mode) => Ok(mode),
        None => Err("未知代理模式："@ + lower(trimmed(text))),
    }
}

/// Reads the mode that the user chose by name.
pub fn choose_mode(text: &str) -> (r: Result<ProxyMode, String>)
    ensures
        (match r {
            Ok(mode) => Ok(mode),
            Err(message) => Err(message@),
        }) == chosen_mode(text@),
{
    let name = lower_text(trim(text).as_str());
    match mode_from(name.as_str()) {
        Some(mode) => Ok(mode),
        None => Err("未知代理模式：".to_string().concat(name.as_str())),
    }
}

} // verus!
