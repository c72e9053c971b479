//! Laws of the host's own updates, of its proxy and of where its data lies.
use vstd::prelude::*;

use crate::migrate::MIGRATION_MARKER;
use crate::desktop::{ACTIVATION_PIPE, AUTOSTART_NAME};
use crate::config::{config_from, config_json, stored_config, wanted_root};
use crate::host_update::{
    api_error, checked_reply, first_installer, host_release, http_reply, installer_parts,
    is_installer, is_installer_name, limit_check, program_reply, rate_limit_hint, release_version,
    update_parts, ReleaseV, HOST_OWNER, HOST_REPO,
};
use crate::json::{json_parsed, lemma_collected_member, lemma_pair_found, names_differ, JsonV};
use crate::laws::plugins::tag_without_its_letter;
use crate::proxy::{
    chosen_mode, client_plan, environment_of, mode_name, proxy_check, proxy_json, EnvironmentV,
    ProxyMode, ProxyV,
};
use crate::text::{decimal, has_part, lower, trimmed};

verus! {

// ---------------------------------------------------------------------------
// Releases of the host
// ---------------------------------------------------------------------------

/// An installer of the host is named after it and after the machine it is for.
pub proof fn installer_has_prefix_and_suffix(name: Seq<char>)
    ensures
        is_installer_name(name) <==> {
            &&& 18 <= name.len() && name.take(18) == "Background.Studio_"@
            &&& 14 <= name.len() && name.skip(name.len() - 14) == "_x64-setup.exe"@
        },
{
    reveal_strlit("Background.Studio_");
    reveal_strlit("_x64-setup.exe");
    assert("Background.Studio_"@.len() == 18 && "_x64-setup.exe"@.len() == 14);
    if 18 <= name.len() {
        assert(name.subrange(0, 18) =~= name.take(18));
    }
    if 14 <= name.len() {
        assert(name.subrange(name.len() - 14, name.len() as int) =~= name.skip(name.len() - 14));
    }
}

/// The first installer among the files of a release is taken.
pub proof fn first_installer_is_taken(assets: Seq<JsonV>, i: int)
    requires
        0 <= i < assets.len(),
        assets[i].get_str("name"@) matches Some(name) && is_installer_name(name),
        forall|k: int|
            0 <= k < i ==> ((#[trigger] assets[k]).get_str("name"@) matches Some(name)
                ==> !is_installer_name(name)),
    ensures
        first_installer(assets) == Some(assets[i]),
    decreases i,
{
    if i > 0 {
        let rest = assets.drop_first();
        assert(!is_installer(assets[0])) by {
            assert(assets[0].get_str("name"@) matches Some(name) ==> !is_installer_name(name));
        }
        assert(rest[i - 1] == assets[i]);
        assert forall|k: int| 0 <= k < i - 1 implies ((#[trigger] rest[k]).get_str("name"@) matches Some(
            name,
        ) ==> !is_installer_name(name)) by {
            assert(rest[k] == assets[k + 1]);
        }
        first_installer_is_taken(rest, i - 1);
    }
}

/// A release of the host that is tagged with `v` and a version and has an installer
/// gives that version, the name and the address of the installer, and the page of
/// the release.
pub proof fn host_release_is_read(
    value: JsonV,
    n: Seq<char>,
    assets: Seq<JsonV>,
    i: int,
    url: Seq<char>,
    page: Seq<char>,
)
    requires
        n.len() > 0 ==> n[0] != 'v',
        value.get_str("tag_name"@) == Some("v"@ + n) || value.get_str("tag_name"@) == Some(n),
        value.get("assets"@) == Some(JsonV::Array(assets)),
        0 <= i < assets.len(),
        assets[i].get_str("name"@) matches Some(name) && is_installer_name(name),
        forall|k: int|
            0 <= k < i ==> ((#[trigger] assets[k]).get_str("name"@) matches Some(name)
                ==> !is_installer_name(name)),
        assets[i].get_str("browser_download_url"@) == Some(url),
        value.get_str("html_url"@) == Some(page),
    ensures
        host_release(value) matches Ok(release) && {
            &&& release.latest_version == Some(n)
            &&& release.asset_name == assets[i].get_str("name"@)
            &&& release.download_url == Some(url)
            &&& release.release_url == Some(page)
        },
{
    tag_without_its_letter(n);
    first_installer_is_taken(assets, i);
}

/// A release without a tag or without files gives nothing.
pub proof fn incomplete_release_gives_nothing(value: JsonV)
    ensures
        value.get_str("tag_name"@) is None ==> host_release(value) is Err,
        !(value.get("assets"@) matches Some(JsonV::Array(_))) ==> host_release(value) is Err,
        value.get("assets"@) == Some(JsonV::Array(Seq::empty())) ==> host_release(value) is Err,
        host_release(value) is Ok && value.get_str("html_url"@) is None ==> host_release(
            value,
        )->Ok_0.release_url == Some(
            "https://github.com/background-studio/background-studio/releases"@,
        ),
{
}

/// The host is updated from the address and under the name that its release gives,
/// and only to a newer version.
pub proof fn host_is_updated_from_its_release(release: ReleaseV, newer: bool)
    ensures
        update_parts(release, newer) is Ok <==> newer && release.download_url is Some
            && release.asset_name is Some,
        update_parts(release, newer) matches Ok((name, url)) ==> release.asset_name == Some(name)
            && release.download_url == Some(url),
        installer_parts(release) is Ok <==> release.download_url is Some && release.asset_name
            is Some,
        installer_parts(release) matches Ok((name, url)) ==> release.asset_name == Some(name)
            && release.download_url == Some(url),
        release.latest_version matches Some(version) ==> release_version(release) == version,
{
}

// ---------------------------------------------------------------------------
// Replies of GitHub
// ---------------------------------------------------------------------------

/// A reply counts exactly where its status is one of success, it is JSON, and it
/// does not speak of a limit.
pub proof fn successful_reply_counts(status: u16, body: Seq<char>)
    ensures
        status < 200 || status >= 300 ==> http_reply(status, body) is Err,
        200 <= status < 300 ==> (json_parsed(body) matches Ok(value) ==> (value.get_str("message"@)
            is None ==> http_reply(status, body) == Ok::<JsonV, Seq<char>>(value))),
        200 <= status < 300 ==> (json_parsed(body) matches Ok(value) ==> (value.get_str(
            "message"@,
        ) matches Some(text) ==> (has_part(lower(text), "rate limit"@) <==> http_reply(status, body)
            is Err))),
        json_parsed(body) is Err ==> http_reply(status, body) is Err,
{
}

/// A reply of the GitHub program counts where the program succeeded, by the same
/// measure.
pub proof fn successful_program_counts(success: bool, stdout: Seq<char>, stderr: Seq<char>)
    ensures
        !success ==> program_reply(success, stdout, stderr) is Err,
        success ==> (json_parsed(trimmed(stdout)) matches Ok(value) ==> (value.get_str("message"@)
            is None ==> program_reply(success, stdout, stderr) == Ok::<JsonV, Seq<char>>(value))),
        json_parsed(trimmed(stdout)) is Err ==> program_reply(success, stdout, stderr) is Err,
{
}

/// A refusal says what the status and the reply say: that a limit was reached, that
/// there is no release, or the message itself.
pub proof fn refusal_is_explained(status: u16, body: Seq<char>, text: Seq<char>)
    ensures
        status == 403 && has_part(lower(body), "rate limit"@) ==> api_error(
            status,
            body,
            Some(text),
        ) == rate_limit_hint(),
        status == 404 ==> api_error(status, body, Some(text))
            == "GitHub 上找不到最新 Release（仓库可能尚未发布）。"@,
        status != 403 && status != 404 && !has_part(lower(text), "rate limit"@) ==> api_error(
            status,
            body,
            Some(text),
        ) == "GitHub API "@ + decimal(status as nat) + "："@ + text,
{
}

// ---------------------------------------------------------------------------
// The proxy
// ---------------------------------------------------------------------------

/// Settings of a proxy are accepted unless they ask for an address and give none.
pub proof fn own_proxy_needs_an_address(settings: ProxyV)
    ensures
        proxy_check(settings) is Err <==> settings.mode == ProxyMode::Custom && trimmed(
            settings.url,
        ).len() == 0,
        settings.mode == ProxyMode::Off ==> client_plan(settings) == Ok::<
            Option<Option<Seq<char>>>,
            Seq<char>,
        >(Some(None)),
        settings.mode == ProxyMode::System ==> client_plan(settings) == Ok::<
            Option<Option<Seq<char>>>,
            Seq<char>,
        >(None),
        settings.mode == ProxyMode::Custom && trimmed(settings.url).len() > 0 ==> client_plan(
            settings,
        ) == Ok::<Option<Option<Seq<char>>>, Seq<char>>(Some(Some(trimmed(settings.url)))),
{
}

/// The ways to use a proxy are named `off`, `system` and `custom`, in whatever case
/// and between whatever blanks the name is written.
pub proof fn proxy_modes_have_names(text: Seq<char>)
    ensures
        chosen_mode(text) == Ok::<ProxyMode, Seq<char>>(ProxyMode::Off) <==> lower(trimmed(text))
            == "off"@,
        chosen_mode(text) == Ok::<ProxyMode, Seq<char>>(ProxyMode::System) <==> lower(trimmed(text))
            == "system"@,
        chosen_mode(text) == Ok::<ProxyMode, Seq<char>>(ProxyMode::Custom) <==> lower(trimmed(text))
            == "custom"@,
{
    reveal_strlit("off");
    reveal_strlit("system");
    reveal_strlit("custom");
    assert("off"@.len() == 3 && "system"@[0] == 's' && "custom"@[0] == 'c');
    assert("system"@.len() == 6 && "custom"@.len() == 6);
}

/// Settings of a proxy are stored under their names.
pub proof fn proxy_is_stored_by_name(settings: ProxyV)
    ensures
        proxy_json(settings).get_str("mode"@) == Some(
            match settings.mode {
                ProxyMode::Off => "off"@,
                ProxyMode::System => "system"@,
                ProxyMode::Custom => "custom"@,
            },
        ),
        proxy_json(settings).get_str("url"@) == Some(settings.url),
{
    reveal_strlit("mode");
    reveal_strlit("url");
    let pairs = seq![
        ("mode"@, JsonV::Text(mode_name(settings.mode))),
        ("url"@, JsonV::Text(settings.url)),
    ];
    assert("mode"@.len() == 4 && "url"@.len() == 3);
    assert(names_differ(pairs));
    lemma_pair_found(pairs, 0);
    lemma_pair_found(pairs, 1);
    lemma_collected_member(pairs, "mode"@);
    lemma_collected_member(pairs, "url"@);
}

// ---------------------------------------------------------------------------
// Where the data lies
// ---------------------------------------------------------------------------

/// The configuration is stored and read under the name `dataRoot`.
pub proof fn configuration_is_stored_by_name(root: Seq<char>, value: JsonV)
    ensures
        config_json(Some(root)).get_str("dataRoot"@) == Some(root),
        config_json(None).get("dataRoot"@) is None,
        value is Object && value.get_str("dataRoot"@) == Some(root) ==> config_from(value) == Some(
            Some(root),
        ),
        value is Object && value.get("dataRoot"@) is None ==> config_from(value) == Some(
            None::<Seq<char>>,
        ),
{
    let pairs = seq![("dataRoot"@, JsonV::Text(root))];
    lemma_collected_member(pairs, "dataRoot"@);
    assert(pairs.last().0 == "dataRoot"@);
}

/// A data directory that is not blank is used, without the blanks around it.
pub proof fn named_directory_is_used(root: Seq<char>)
    ensures
        trimmed(root).len() > 0 ==> wanted_root(Some(root)) == Some(trimmed(root)),
        trimmed(root).len() == 0 ==> wanted_root(Some(root)) is None,
        wanted_root(None) is None,
{
}

/// Where no configuration was stored, no directory is named; one that cannot be read
/// is not passed over.
pub proof fn missing_configuration_names_nothing(message: Seq<char>)
    ensures
        stored_config(None) == Ok::<Option<Seq<char>>, Seq<char>>(None),
        stored_config(Some(Err(message))) == Err::<Option<Seq<char>>, Seq<char>>(message),
{
}

/// A child process finds no proxy where there is none, the address of one's own, and
/// in any other case what is there.
pub proof fn child_finds_the_proxy(url: Seq<char>)
    ensures
        environment_of(ProxyV { mode: ProxyMode::Off, url }) == EnvironmentV::Clear,
        environment_of(ProxyV { mode: ProxyMode::System, url }) == EnvironmentV::Keep,
        trimmed(url).len() > 0 ==> environment_of(ProxyV { mode: ProxyMode::Custom, url })
            == EnvironmentV::Use(trimmed(url)),
        trimmed(url).len() == 0 ==> environment_of(ProxyV { mode: ProxyMode::Custom, url })
            == EnvironmentV::Keep,
{
}

/// The names by which the host is found are these.
pub proof fn host_has_these_names()
    ensures
        HOST_OWNER@ == "background-studio"@,
        HOST_REPO@ == "background-studio"@,
        AUTOSTART_NAME@ == "Background Studio"@,
        ACTIVATION_PIPE@ == "\\\\.\\pipe\\background-studio-host-activate"@,
        MIGRATION_MARKER@ == "migration-standalone-v1.marker"@,
{
}

/// An answer that speaks of the limit of requests is no answer, whatever its status;
/// any other is passed on.
pub proof fn limit_is_no_answer(value: JsonV, body: Seq<char>)
    ensures
        limit_check(value, body) is Err <==> (value.get_str("message"@) matches Some(text)
            && has_part(lower(text), "rate limit"@)),
        limit_check(value, body) is Err && has_part(lower(body), "rate limit"@) ==> limit_check(
            value,
            body,
        )->Err_0
            == "GitHub API 限流（未登录约 60 次/小时/IP）。若本机已安装 GitHub CLI，可先执行 gh auth login 后再点「检查更新」"@,
        checked_reply(value, body) is Ok <==> limit_check(value, body) is Ok,
        checked_reply(value, body) matches Ok(given) ==> given == value,
{
}

} // verus!
