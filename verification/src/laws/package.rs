//! Laws of packages, of the order in which they are installed, and of what is sent
//! over a pipe.
use vstd::prelude::*;

use crate::json::JsonV;
use crate::package::{
    stays_inside, unpacked_archive, unpacked_entry, unpacked_first, zip_content, zip_count,
    zip_entry, PackedV,
};
use crate::procedures::{
    greeting_after, installation_after, installation_run, sent_command, GreetingStep, GreetingV,
    InstallStep, InstallationV,
};
use crate::protocol::{line_verdict, response_parsed};
use crate::transport::{answer_verdict, plain_verdict, timeout_of};
use crate::text::decimal;

verus! {

// ---------------------------------------------------------------------------
// Unpacking
// ---------------------------------------------------------------------------

/// How many bytes the first entries of a package have in all.
pub open spec fn size_in_all(bytes: Seq<u8>, count: nat) -> nat
    decreases count,
{
    if count == 0 {
        0
    } else {
        size_in_all(bytes, (count - 1) as nat) + (match zip_entry(bytes, (count - 1) as usize) {
            Ok(entry) => entry.size as nat,
            Err(_) => 0,
        })
    }
}

/// A package with up to 128 entries, each of up to 134217728 bytes, inside the
/// directory and readable, and 268435456 bytes in all, is unpacked whole: each
/// entry under its path, with its content, and directories with none.
pub proof fn sound_package_is_unpacked(bytes: Seq<u8>, enclosed: Seq<bool>, count: usize)
    requires
        zip_count(bytes) == Ok::<usize, Seq<char>>(count),
        count <= 128,
        enclosed.len() == count,
        forall|k: int| 0 <= k < count ==> #[trigger] enclosed[k],
        forall|k: usize|
            k < count ==> ((#[trigger] zip_entry(bytes, k)) matches Ok(entry) && entry.size
                <= 134217728),
        forall|k: usize| k < count ==> (#[trigger] zip_content(bytes, k)) is Ok,
        size_in_all(bytes, count as nat) <= 268435456,
    ensures
        unpacked_archive(bytes, enclosed) matches Ok(files) && files.len() == count && forall|
            k: usize,
        |
            k < count ==> {
                let entry = (#[trigger] zip_entry(bytes, k))->Ok_0;
                &&& files[k as int].path == entry.path
                &&& entry.is_directory ==> files[k as int].content is None
                &&& !entry.is_directory ==> files[k as int].content == Some(
                    zip_content(bytes, k)->Ok_0,
                )
            },
{
    lemma_unpacked(bytes, enclosed, count, count as nat);
}

proof fn lemma_unpacked(bytes: Seq<u8>, enclosed: Seq<bool>, count: usize, n: nat)
    requires
        n <= count <= 128,
        enclosed.len() == count,
        forall|k: int| 0 <= k < count ==> #[trigger] enclosed[k],
        forall|k: usize|
            k < count ==> ((#[trigger] zip_entry(bytes, k)) matches Ok(entry) && entry.size
                <= 134217728),
        forall|k: usize| k < count ==> (#[trigger] zip_content(bytes, k)) is Ok,
        size_in_all(bytes, n) <= 268435456,
    ensures
        unpacked_first(bytes, enclosed, n) matches Ok((total, files)) && total == size_in_all(
            bytes,
            n,
        )
            && files.len() == n && forall|k: usize|
            k < n ==> {
                let entry = (#[trigger] zip_entry(bytes, k))->Ok_0;
                &&& files[k as int].path == entry.path
                &&& entry.is_directory ==> files[k as int].content is None
                &&& !entry.is_directory ==> files[k as int].content == Some(
                    zip_content(bytes, k)->Ok_0,
                )
            },
    decreases n,
{
    if n > 0 {
        lemma_unpacked(bytes, enclosed, count, (n - 1) as nat);
        let k = (n - 1) as usize;
        assert(zip_entry(bytes, k) is Ok);
        assert(zip_content(bytes, k) is Ok);
        assert(enclosed[k as int]);
    }
}

/// A package with more than 128 entries, or one that cannot be opened, is refused.
pub proof fn large_package_is_refused(bytes: Seq<u8>, enclosed: Seq<bool>)
    ensures
        zip_count(bytes) matches Ok(count) ==> count > 128 ==> unpacked_archive(bytes, enclosed)
            is Err && unpacked_archive(bytes, enclosed)->Err_0 == "插件包文件数超过 "@ + decimal(128)
            + " 项上限。"@,
        zip_count(bytes) is Err ==> unpacked_archive(bytes, enclosed) is Err,
{
}

/// An entry is unpacked exactly where it is inside the directory, within the limits,
/// and can be read.
pub proof fn sound_entry_is_unpacked(
    total: u64,
    entry: Result<PackedV, Seq<char>>,
    enclosed: bool,
    content: Result<Seq<u8>, Seq<char>>,
)
    ensures
        unpacked_entry(total, entry, enclosed, content) is Ok <==> (entry matches Ok(found)
            && enclosed && found.size <= 134217728 && total + found.size <= 268435456 && (
        found.is_directory || content is Ok)),
        unpacked_entry(total, entry, enclosed, content) matches Ok((sum, made)) ==> {
            &&& sum == total + entry->Ok_0.size
            &&& made.path == entry->Ok_0.path
            &&& entry->Ok_0.is_directory ==> made.content is None
            &&& !entry->Ok_0.is_directory ==> made.content == Some(content->Ok_0)
        },
{
}

// ---------------------------------------------------------------------------
// The order of an installation
// ---------------------------------------------------------------------------

proof fn lemma_run_step(outcomes: Seq<Result<(), Seq<char>>>, done: Result<(), Seq<char>>)
    ensures
        installation_run(outcomes.push(done)) == installation_after(
            installation_run(outcomes),
            done,
        ),
{
    assert(outcomes.push(done).drop_last() =~= outcomes);
}

/// An installation in which everything succeeds goes through its steps in this
/// order.
pub proof fn installation_goes_in_this_order()
    ensures
        ({
            let ok = Ok::<(), Seq<char>>(());
            let run = |n: nat| installation_run(Seq::new(n, |i: int| ok)).step;
            &&& run(0) == InstallStep::Download
            &&& run(1) == InstallStep::MakeStaging
            &&& run(2) == InstallStep::Unpack
            &&& run(3) == InstallStep::RemovePackage
            &&& run(4) == InstallStep::Check
            &&& run(5) == InstallStep::Stop
            &&& run(6) == InstallStep::SetAside
            &&& run(7) == InstallStep::Place
            &&& run(8) == InstallStep::RemoveBackup
            &&& run(9) == InstallStep::Note
            &&& run(10) == InstallStep::Save
            &&& run(11) == InstallStep::Start
            &&& run(12) == InstallStep::Done
            &&& installation_run(Seq::new(12, |i: int| ok)).failure is None
        }),
{
    let ok = Ok::<(), Seq<char>>(());
    lemma_successes(0);
    lemma_successes(1);
    lemma_successes(2);
    lemma_successes(3);
    lemma_successes(4);
    lemma_successes(5);
    lemma_successes(6);
    lemma_successes(7);
    lemma_successes(8);
    lemma_successes(9);
    lemma_successes(10);
    lemma_successes(11);
}

proof fn lemma_successes(n: nat)
    ensures
        ({
            let ok = Ok::<(), Seq<char>>(());
            installation_run(Seq::new((n + 1) as nat, |i: int| ok)) == installation_after(
                installation_run(Seq::new(n, |i: int| ok)),
                ok,
            )
        }),
{
    let ok = Ok::<(), Seq<char>>(());
    assert(Seq::new((n + 1) as nat, |i: int| ok) =~= Seq::new(n, |i: int| ok).push(ok));
    lemma_run_step(Seq::new(n, |i: int| ok), ok);
}

/// A failed check clears away what was unpacked and touches nothing else; the
/// complaint is kept to the end.
pub proof fn failed_check_clears_up(message: Seq<char>, cleared: Result<(), Seq<char>>)
    ensures
        ({
            let checked = InstallationV { step: InstallStep::Check, failure: None };
            let failed = installation_after(checked, Err(message));
            &&& failed.step == InstallStep::RemoveStaging
            &&& failed.failure == Some(message)
            &&& installation_after(failed, cleared) == (InstallationV {
                step: InstallStep::Done,
                failure: Some(message),
            })
        }),
{
}

/// A package that cannot be unpacked is removed, and what was unpacked of it with
/// it.
pub proof fn failed_unpacking_clears_up(message: Seq<char>, done: Result<(), Seq<char>>)
    ensures
        ({
            let unpacking = InstallationV { step: InstallStep::Unpack, failure: None };
            let failed = installation_after(unpacking, Err(message));
            let removed = installation_after(failed, done);
            &&& failed.step == InstallStep::RemovePackage
            &&& removed.step == InstallStep::RemoveStaging
            &&& removed.failure == Some(message)
        }),
{
}

/// A download that fails ends the installation.
pub proof fn failed_download_ends(message: Seq<char>)
    ensures
        installation_after(
            InstallationV { step: InstallStep::Download, failure: None },
            Err(message),
        ) == (InstallationV { step: InstallStep::Done, failure: Some(message) }),
{
}

// ---------------------------------------------------------------------------
// Greeting
// ---------------------------------------------------------------------------

/// A plugin that is ready is greeted, then sent its settings where it has any, and
/// nothing after that.
pub proof fn greeting_goes_in_this_order(found: bool)
    ensures
        ({
            let at = |step: GreetingStep| GreetingV { step, failure: None };
            &&& greeting_after(at(GreetingStep::Wait), Ok(true)) == at(GreetingStep::Hello)
            &&& greeting_after(at(GreetingStep::Wait), Ok(false)) == at(GreetingStep::Done)
            &&& greeting_after(at(GreetingStep::Hello), Ok(found)) == at(GreetingStep::Build)
            &&& greeting_after(at(GreetingStep::Build), Ok(true)) == at(GreetingStep::Configure)
            &&& greeting_after(at(GreetingStep::Build), Ok(false)) == at(GreetingStep::Done)
            &&& greeting_after(at(GreetingStep::Configure), Ok(found)) == at(GreetingStep::Done)
        }),
        sent_command(GreetingStep::Hello) == Some("hello"@),
        sent_command(GreetingStep::Configure) == Some("configure"@),
        sent_command(GreetingStep::Wait) is None && sent_command(GreetingStep::Build) is None
            && sent_command(GreetingStep::Done) is None,
{
}

// ---------------------------------------------------------------------------
// The pipe
// ---------------------------------------------------------------------------

/// A question about the state is waited for 800 milliseconds, a greeting or an end 5
/// seconds, a change of what is shown 75 seconds, and anything else 15.
pub proof fn answers_are_waited_for(cmd: Seq<char>)
    ensures
        timeout_of(cmd) == 800 <==> cmd == "status"@,
        timeout_of(cmd) == 5000 <==> cmd == "hello"@ || cmd == "open-ui"@ || cmd
            == "quit-keep-target"@ || cmd == "shutdown"@,
        timeout_of(cmd) == 75000 <==> cmd == "apply"@ || cmd == "restore"@,
        cmd == "configure"@ || cmd == "pause"@ ==> timeout_of(cmd) == 15000,
        timeout_of(cmd) == 800 || timeout_of(cmd) == 5000 || timeout_of(cmd) == 75000 || timeout_of(
            cmd,
        ) == 15000,
{
    reveal_strlit("status");
    reveal_strlit("hello");
    reveal_strlit("open-ui");
    reveal_strlit("quit-keep-target");
    reveal_strlit("shutdown");
    reveal_strlit("apply");
    reveal_strlit("restore");
    reveal_strlit("configure");
    reveal_strlit("pause");
    assert("status"@.len() == 6 && "shutdown"@.len() == 8 && "quit-keep-target"@.len() == 16);
    assert("hello"@.len() == 5 && "hello"@[0] == 'h');
    assert("apply"@.len() == 5 && "apply"@[0] == 'a');
    assert("pause"@.len() == 5 && "pause"@[0] == 'p');
    assert("open-ui"@.len() == 7 && "open-ui"@[0] == 'o');
    assert("restore"@.len() == 7 && "restore"@[0] == 'r');
    assert("configure"@.len() == 9);
}

/// An answer of up to 65536 bytes of text is what its line says; any other is
/// refused.
pub proof fn answer_is_one_line(bytes: Seq<u8>, id: Seq<char>)
    ensures
        bytes.len() == 0 || bytes.len() > 65536 || !vstd::utf8::valid_utf8(bytes)
            ==> answer_verdict(bytes, id) is Err,
        0 < bytes.len() <= 65536 && vstd::utf8::valid_utf8(bytes) ==> answer_verdict(bytes, id)
            == line_verdict(
            vstd::utf8::decode_utf8(bytes),
            response_parsed(vstd::utf8::decode_utf8(bytes)),
            Some(id),
        ),
{
}

/// A plain answer counts where it carries the identifier of the request and says
/// that all went well; it then gives its result.
pub proof fn plain_answer_is_read_by_name(value: JsonV, id: Seq<char>)
    requires
        id.len() > 0,
    ensures
        plain_verdict(value, id) is Ok <==> value.get_str("id"@) == Some(id) && value.get("ok"@)
            == Some(JsonV::Bool(true)),
        plain_verdict(value, id) matches Ok(result) ==> (value.get("result"@) matches Some(given)
            ==> result == given) && (value.get("result"@) is None ==> result == JsonV::Null),
        value.get_str("id"@) == Some(id) && value.get("ok"@) != Some(JsonV::Bool(true)) ==> (
        value.get_str("error"@) matches Some(message) ==> plain_verdict(value, id) == Err::<
            JsonV,
            Seq<char>,
        >(message)),
{
}

/// A plugin that cannot be put in its place has the one before it put back; one that
/// could not be set aside is left as it is. What was unpacked is cleared away either
/// way, and the complaint is kept to the end.
pub proof fn failed_placing_puts_back(
    message: Seq<char>,
    back: Result<(), Seq<char>>,
    cleared: Result<(), Seq<char>>,
)
    ensures
        ({
            let placing = InstallationV { step: InstallStep::Place, failure: None };
            let failed = installation_after(placing, Err(message));
            let put_back = installation_after(failed, back);
            &&& failed == (InstallationV { step: InstallStep::PutBack, failure: Some(message) })
            &&& put_back == (InstallationV {
                step: InstallStep::RemoveStaging,
                failure: Some(message),
            })
            &&& installation_after(put_back, cleared) == (InstallationV {
                step: InstallStep::Done,
                failure: Some(message),
            })
        }),
        installation_after(
            InstallationV { step: InstallStep::SetAside, failure: None },
            Err(message),
        ) == (InstallationV { step: InstallStep::RemoveStaging, failure: Some(message) }),
{
}

/// What is only cleared away or noted does not stop an installation; anything else
/// that fails ends it with the complaint.
pub proof fn clearing_up_does_not_stop_it(message: Seq<char>)
    ensures
        ({
            let after = |step: InstallStep|
                installation_after(InstallationV { step, failure: None }, Err(message));
            let goes_on = |step: InstallStep| InstallationV { step, failure: None };
            let ended = InstallationV { step: InstallStep::Done, failure: Some(message) };
            &&& after(InstallStep::RemovePackage) == goes_on(InstallStep::Check)
            &&& after(InstallStep::RemoveBackup) == goes_on(InstallStep::Note)
            &&& after(InstallStep::Note) == goes_on(InstallStep::Save)
            &&& after(InstallStep::MakeStaging) == ended
            &&& after(InstallStep::Stop) == ended
            &&& after(InstallStep::Save) == ended
            &&& after(InstallStep::Start) == ended
            &&& after(InstallStep::Done) == goes_on(InstallStep::Done)
        }),
{
}

/// A greeting that fails at any step ends there with the complaint, and one that has
/// ended stays as it is.
pub proof fn failed_greeting_ends(state: GreetingV, message: Seq<char>)
    ensures
        state.step != GreetingStep::Done ==> greeting_after(state, Err(message)) == (GreetingV {
            step: GreetingStep::Done,
            failure: Some(message),
        }),
        state.step == GreetingStep::Done ==> greeting_after(state, Err(message)) == state,
        state.step == GreetingStep::Done ==> greeting_after(state, Ok(true)) == state,
{
}

/// An entry lies inside the directory where it was found to, and not where nothing was
/// found of it.
pub proof fn entry_lies_where_it_was_found(enclosed: Seq<bool>, index: int)
    requires
        0 <= index,
    ensures
        index < enclosed.len() ==> stays_inside(enclosed, index) == enclosed[index],
        index >= enclosed.len() ==> !stays_inside(enclosed, index),
{
}

} // verus!
