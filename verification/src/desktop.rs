//! Commands for the desktop: starting with the system, ending old processes,
//! and waking the running program.
use vstd::prelude::*;

use crate::text::{
    chars_of, has_prefix, lower, lower_text, replace_char, replaced, same, text_of, trim, trimmed,
};

verus! {

/// The name under which the program starts with the system.
pub const AUTOSTART_NAME: &'static str = "Background Studio";

/// The pipe over which the running program is woken.
pub const ACTIVATION_PIPE: &'static str = "\\\\.\\pipe\\background-studio-host-activate";

/// The command with which Windows starts the host.
pub open spec fn startup_command(exe: Seq<char>, start_hidden: bool) -> Seq<char> {
    "\""@ + exe + "\""@ + (if start_hidden {
        " --hidden"@
    } else {
        Seq::empty()
    })
}

/// The command with which the program starts with the system.
pub fn autostart_command(exe: &str, start_hidden: bool) -> (r: String)
    ensures
        r@ == startup_command(exe@, start_hidden),
{
    let quoted = "\"".to_string().concat(exe).concat("\"");
    if start_hidden {
        quoted.concat(" --hidden")
    } else {
        assert(quoted@ + Seq::<char>::empty() =~= quoted@);
        quoted
    }
}

/// The line asks the running program to show itself.
pub fn check_activation(line: &str) -> (r: Result<(), String>)
    ensures
        match r {
            Ok(_) => trimmed(line@) == "activate"@,
            Err(message) => trimmed(line@) != "activate"@ && message@
                == "收到无效的实例激活请求。"@,
        },
{
    if same(trim(line).as_str(), "activate") {
        Ok(())
    } else {
        Err("收到无效的实例激活请求。".to_string())
    }
}

/// What is said where the running program could not be woken.
pub fn activation_failure(last_error: Option<&str>) -> (r: String)
    ensures
        r@ == "已有实例正在运行，但无法激活它："@ + (match last_error {
            Some(message) => message@,
            None => "未知错误"@,
        }),
{
    "已有实例正在运行，但无法激活它：".to_string().concat(
        match last_error {
            Some(message) => message,
            None => "未知错误",
        },
    )
}

// ---------------------------------------------------------------------------
// Ending the processes of a plugin
// ---------------------------------------------------------------------------

/// A text without the marks of a verbatim path at its front.
pub open spec fn without_verbatim(s: Seq<char>) -> Seq<char>
    decreases s.len(),
{
    if has_prefix(s, "\\\\?\\"@) && "\\\\?\\"@.len() > 0 {
        without_verbatim(s.skip("\\\\?\\"@.len() as int))
    } else {
        s
    }
}

/// A text in which every quotation mark stands twice.
pub open spec fn doubled_quotes(s: Seq<char>) -> Seq<char>
    decreases s.len(),
{
    if s.len() == 0 {
        Seq::empty()
    } else if s.last() == '\'' {
        doubled_quotes(s.drop_last()).push('\'').push('\'')
    } else {
        doubled_quotes(s.drop_last()).push(s.last())
    }
}

fn strip_verbatim(s: &str) -> (r: String)
    ensures
        r@ == without_verbatim(s@),
{
    proof {
        reveal_strlit("\\\\?\\");
    }
    let chars = chars_of(s);
    let mark = chars_of("\\\\?\\");
    let mut from: usize = 0;
    assert(s@.skip(0) =~= s@);
    while crate::text::stands_at(&chars, &mark, from)
        invariant
            from <= chars.len(),
            chars@ == s@,
            mark@ == "\\\\?\\"@,
            mark@.len() == 4,
            without_verbatim(s@) == without_verbatim(s@.skip(from as int)),
        decreases chars.len() - from,
    {
        proof {
            let rest = s@.skip(from as int);
            assert(rest.subrange(0, mark@.len() as int) =~= s@.subrange(
                from as int,
                from + mark@.len(),
            ));
            assert(rest.skip(mark@.len() as int) =~= s@.skip(from + mark@.len()));
        }
        from += mark.len();
    }
    proof {
        let rest = s@.skip(from as int);
        if has_prefix(rest, mark@) {
            assert(rest.subrange(0, mark@.len() as int) =~= s@.subrange(
                from as int,
                from + mark@.len(),
            ));
        }
    }
    let r = text_of(&chars, from, chars.len());
    assert(r@ =~= s@.skip(from as int));
    r
}

fn double_quotes(s: &str) -> (r: String)
    ensures
        r@ == doubled_quotes(s@),
{
    let mut out = String::new();
    for c in it: s.chars()
        invariant
            it.seq() == s@,
            out@ == doubled_quotes(s@.take(it.index() as int)),
    {
        let ghost at = it.index() as int;
        assert(s@.take(at + 1).drop_last() =~= s@.take(at));
        assert(s@.take(at + 1).last() == c);
        if c == '\'' {
            out.push('\'');
        }
        out.push(c);
    }
    assert(s@.take(s@.len() as int) =~= s@);
    out
}

/// The directory of a plugin as the script compares it: with turned slashes,
/// without the marks of a verbatim path, and in lower case.
pub open spec fn compared_root(root: Seq<char>) -> Seq<char> {
    lower(without_verbatim(replaced(root, '/', '\\')))
}

/// The script that ends the processes of a plugin, and only those that lie in
/// its directory.
pub open spec fn ending_script(root: Seq<char>, exe_name: Seq<char>) -> Seq<char> {
    "$root = '"@ + doubled_quotes(compared_root(root))
        + "'; Get-CimInstance Win32_Process -Filter \"Name='"@ + doubled_quotes(exe_name)
        + "'\" | ForEach-Object { if ($_.ExecutablePath) { $p = $_.ExecutablePath.Replace('/','\\').ToLower(); if ($p.StartsWith('\\\\?\\')) { $p = $p.Substring(4) }; if ($p.StartsWith($root)) { Stop-Process -Id $_.ProcessId -Force -ErrorAction SilentlyContinue } } }"@
}

/// The script that ends the processes of a plugin.
pub fn stop_script(root: &str, exe_name: &str) -> (r: String)
    ensures
        r@ == ending_script(root@, exe_name@),
{
    let turned = replace_char(root, '/', '\\');
    let compared = lower_text(strip_verbatim(turned.as_str()).as_str());
    "$root = '".to_string().concat(double_quotes(compared.as_str()).as_str()).concat(
        "'; Get-CimInstance Win32_Process -Filter \"Name='",
    ).concat(double_quotes(exe_name).as_str()).concat(
        "'\" | ForEach-Object { if ($_.ExecutablePath) { $p = $_.ExecutablePath.Replace('/','\\').ToLower(); if ($p.StartsWith('\\\\?\\')) { $p = $p.Substring(4) }; if ($p.StartsWith($root)) { Stop-Process -Id $_.ProcessId -Force -ErrorAction SilentlyContinue } } }",
    )
}

} // verus!
