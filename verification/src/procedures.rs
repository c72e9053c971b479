//! In what order a plugin is installed and greeted. Each step is done outside;
//! what came of it decides which one is next.
use vstd::prelude::*;

use crate::text::{opt_view, outcome};

verus! {

// ---------------------------------------------------------------------------
// Installing a plugin
// ---------------------------------------------------------------------------

/// A step of an installation.
#[derive(Clone, Copy, Debug, PartialEq, Eq, Structural)]
pub enum InstallStep {
    /// Fetch the package.
    Download,
    /// Make the directory that it is unpacked to, beside the installed version.
    MakeStaging,
    /// Unpack the package there.
    Unpack,
    /// Remove the package.
    RemovePackage,
    /// Check the manifest and the executable of what was unpacked.
    Check,
    /// Stop the plugin.
    Stop,
    /// Move the installed version aside, where there is one.
    SetAside,
    /// Move what was unpacked to its place.
    Place,
    /// Move what was set aside back, where there is something.
    PutBack,
    /// Remove the directory that the package was unpacked to.
    RemoveStaging,
    /// Remove what was set aside, where there is something.
    RemoveBackup,
    /// Note the new version.
    Note,
    /// Write the state of the plugins.
    Save,
    /// Start the plugin.
    Start,
    /// Nothing is left to be done.
    Done,
}

/// An installation under way: the step that is to be done, and what went wrong.
pub struct Installation {
    step: InstallStep,
    failure: Option<String>,
}

/// The model of an installation.
pub struct InstallationV {
    pub step: InstallStep,
    pub failure: Option<Seq<char>>,
}

impl View for Installation {
    type V = InstallationV;

    closed spec fn view(&self) -> InstallationV {
        InstallationV { step: self.step, failure: opt_view(self.failure) }
    }
}

/// An installation that has done nothing yet.
pub open spec fn fresh_installation() -> InstallationV {
    InstallationV { step: InstallStep::Download, failure: None }
}

/// The step that follows one that succeeded.
pub open spec fn step_after(step: InstallStep) -> InstallStep {
    match step {
        InstallStep::Download => InstallStep::MakeStaging,
        InstallStep::MakeStaging => InstallStep::Unpack,
        InstallStep::Unpack => InstallStep::RemovePackage,
        InstallStep::RemovePackage => InstallStep::Check,
        InstallStep::Check => InstallStep::Stop,
        InstallStep::Stop => InstallStep::SetAside,
        InstallStep::SetAside => InstallStep::Place,
        InstallStep::Place => InstallStep::RemoveBackup,
        InstallStep::PutBack => InstallStep::RemoveStaging,
        InstallStep::RemoveStaging => InstallStep::Done,
        InstallStep::RemoveBackup => InstallStep::Note,
        InstallStep::Note => InstallStep::Save,
        InstallStep::Save => InstallStep::Start,
        InstallStep::Start => InstallStep::Done,
        InstallStep::Done => InstallStep::Done,
    }
}

/// Whether the installation goes on where the step failed, as if it had not.
pub open spec fn is_optional(step: InstallStep) -> bool {
    step == InstallStep::RemovePackage || step == InstallStep::PutBack || step
        == InstallStep::RemoveStaging || step == InstallStep::RemoveBackup || step
        == InstallStep::Note || step == InstallStep::Done
}

/// The step that follows one that failed: what was made is removed, and what was
/// set aside is put back.
pub open spec fn step_after_failure(step: InstallStep) -> InstallStep {
    match step {
        InstallStep::Unpack => InstallStep::RemovePackage,
        InstallStep::Check => InstallStep::RemoveStaging,
        InstallStep::SetAside => InstallStep::RemoveStaging,
        InstallStep::Place => InstallStep::PutBack,
        _ => InstallStep::Done,
    }
}

/// The installation once a step was done, with or without success.
pub open spec fn installation_after(
    state: InstallationV,
    done: Result<(), Seq<char>>,
) -> InstallationV {
    if state.step == InstallStep::RemovePackage && state.failure is Some {
        InstallationV { step: InstallStep::RemoveStaging, ..state }
    } else if done is Ok || is_optional(state.step) {
        InstallationV { step: step_after(state.step), ..state }
    } else {
        InstallationV { step: step_after_failure(state.step), failure: Some(done->Err_0) }
    }
}

fn next_step(step: InstallStep) -> (r: InstallStep)
    ensures
        r == step_after(step),
{
    match step {
        InstallStep::Download => InstallStep::MakeStaging,
        InstallStep::MakeStaging => InstallStep::Unpack,
        InstallStep::Unpack => InstallStep::RemovePackage,
        InstallStep::RemovePackage => InstallStep::Check,
        InstallStep::Check => InstallStep::Stop,
        InstallStep::Stop => InstallStep::SetAside,
        InstallStep::SetAside => InstallStep::Place,
        InstallStep::Place => InstallStep::RemoveBackup,
        InstallStep::PutBack => InstallStep::RemoveStaging,
        InstallStep::RemoveStaging => InstallStep::Done,
        InstallStep::RemoveBackup => InstallStep::Note,
        InstallStep::Note => InstallStep::Save,
        InstallStep::Save => InstallStep::Start,
        InstallStep::Start => InstallStep::Done,
        InstallStep::Done => InstallStep::Done,
    }
}

impl Installation {
    pub fn begin() -> (r: Installation)
        ensures
            r@ == fresh_installation(),
    {
        Installation { step: InstallStep::Download, failure: None }
    }

    /// The step that is to be done.
    pub fn step(&self) -> (r: InstallStep)
        ensures
            r == self@.step,
    {
        self.step
    }

    /// Goes on, given what came of the step.
    pub fn next_install(&mut self, done: Result<(), String>)
        ensures
            final(self)@ == installation_after(old(self)@, outcome(done)),
    {
        if matches!(self.step, InstallStep::RemovePackage) && self.failure.is_some() {
            self.step = InstallStep::RemoveStaging;
            return ;
        }
        let optional = matches!(
            self.step,
            InstallStep::RemovePackage
            | InstallStep::PutBack
            | InstallStep::RemoveStaging
            | InstallStep::RemoveBackup
            | InstallStep::Note
            | InstallStep::Done
        );
        match done {
            Err(message) => {
                if optional {
                    self.step = next_step(self.step);
                } else {
                    self.step = match self.step {
                        InstallStep::Unpack => InstallStep::RemovePackage,
                        InstallStep::Check => InstallStep::RemoveStaging,
                        InstallStep::SetAside => InstallStep::RemoveStaging,
                        InstallStep::Place => InstallStep::PutBack,
                        _ => InstallStep::Done,
                    };
                    self.failure = Some(message);
                }
            },
            Ok(_) => {
                self.step = next_step(self.step);
            },
        }
    }

    /// How the installation ended.
    pub fn result(self) -> (r: Result<(), String>)
        ensures
            outcome(r) == (match self@.failure {
                Some(message) => Err(message),
                None => Ok(()),
            }),
    {
        match self.failure {
            Some(message) => Err(message),
            None => Ok(()),
        }
    }
}

/// The installation after these steps were done.
pub open spec fn installation_run(outcomes: Seq<Result<(), Seq<char>>>) -> InstallationV
    decreases outcomes.len(),
{
    if outcomes.len() == 0 {
        fresh_installation()
    } else {
        installation_after(installation_run(outcomes.drop_last()), outcomes.last())
    }
}

/// The step stops the plugin, touches the installed version, or tells of the new
/// one.
pub open spec fn is_decisive(step: InstallStep) -> bool {
    step == InstallStep::Stop || step == InstallStep::SetAside || step == InstallStep::Place || step
        == InstallStep::PutBack || step == InstallStep::RemoveBackup || step == InstallStep::Note
        || step == InstallStep::Save || step == InstallStep::Start
}

/// Some step of the run was the check of the package, and it succeeded.
pub open spec fn was_checked(outcomes: Seq<Result<(), Seq<char>>>) -> bool {
    exists|k: int|
        0 <= k < outcomes.len() && (#[trigger] installation_run(outcomes.take(k))).step
            == InstallStep::Check && outcomes[k] is Ok
}

/// Some step of the run was to move the package to its place, and it succeeded.
pub open spec fn was_placed(outcomes: Seq<Result<(), Seq<char>>>) -> bool {
    exists|k: int|
        0 <= k < outcomes.len() && (#[trigger] installation_run(outcomes.take(k))).step
            == InstallStep::Place && outcomes[k] is Ok
}

proof fn lemma_longer_run(outcomes: Seq<Result<(), Seq<char>>>)
    requires
        outcomes.len() > 0,
    ensures
        was_checked(outcomes.drop_last()) ==> was_checked(outcomes),
        was_placed(outcomes.drop_last()) ==> was_placed(outcomes),
{
    let rest = outcomes.drop_last();
    if was_checked(rest) {
        let k = choose|k: int|
            0 <= k < rest.len() && (#[trigger] installation_run(rest.take(k))).step
                == InstallStep::Check && rest[k] is Ok;
        assert(rest.take(k) =~= outcomes.take(k));
        assert(installation_run(outcomes.take(k)).step == InstallStep::Check);
    }
    if was_placed(rest) {
        let k = choose|k: int|
            0 <= k < rest.len() && (#[trigger] installation_run(rest.take(k))).step
                == InstallStep::Place && rest[k] is Ok;
        assert(rest.take(k) =~= outcomes.take(k));
        assert(installation_run(outcomes.take(k)).step == InstallStep::Place);
    }
}

proof fn lemma_run(outcomes: Seq<Result<(), Seq<char>>>)
    ensures
        is_decisive(installation_run(outcomes).step) ==> was_checked(outcomes),
        installation_run(outcomes).step == InstallStep::RemoveBackup || installation_run(
            outcomes,
        ).step == InstallStep::Note || installation_run(outcomes).step == InstallStep::Save
            || installation_run(outcomes).step == InstallStep::Start ==> was_placed(outcomes),
        installation_run(outcomes).step == InstallStep::Done && installation_run(
            outcomes,
        ).failure is None ==> was_placed(outcomes) && was_checked(outcomes),
        installation_run(outcomes).step == InstallStep::RemoveStaging || installation_run(
            outcomes,
        ).step == InstallStep::PutBack ==> installation_run(outcomes).failure is Some,
        installation_run(outcomes).failure is Some ==> (installation_run(outcomes).step
            == InstallStep::RemoveStaging || installation_run(outcomes).step
            == InstallStep::PutBack || installation_run(outcomes).step
            == InstallStep::RemovePackage || installation_run(outcomes).step
            == InstallStep::Done),
    decreases outcomes.len(),
{
    if outcomes.len() > 0 {
        let rest = outcomes.drop_last();
        lemma_run(rest);
        lemma_longer_run(outcomes);
        assert(outcomes.take(outcomes.len() - 1) =~= rest);
        assert(outcomes[outcomes.len() - 1] == outcomes.last());
        let before = installation_run(rest);
        if before.step == InstallStep::Check && outcomes.last() is Ok {
            assert(installation_run(outcomes.take(outcomes.len() - 1)).step == InstallStep::Check);
            assert(was_checked(outcomes));
        }
        if before.step == InstallStep::Place && outcomes.last() is Ok {
            assert(installation_run(outcomes.take(outcomes.len() - 1)).step == InstallStep::Place);
            assert(was_placed(outcomes));
        }
    }
}

/// Nothing is stopped and nothing installed is touched before the package that
/// was unpacked aside passed its check.
pub proof fn package_is_checked_first(outcomes: Seq<Result<(), Seq<char>>>)
    requires
        is_decisive(installation_run(outcomes).step),
    ensures
        was_checked(outcomes),
{
    lemma_run(outcomes);
}

/// An installation that ends well put a checked package in its place, and only
/// then is the new version noted or started.
pub proof fn installed_version_is_in_its_place(outcomes: Seq<Result<(), Seq<char>>>)
    requires
        ({
            let state = installation_run(outcomes);
            ||| state.step == InstallStep::Note
            ||| state.step == InstallStep::Save
            ||| state.step == InstallStep::Start
            ||| state.step == InstallStep::Done && state.failure is None
        }),
    ensures
        was_placed(outcomes),
{
    lemma_run(outcomes);
}

/// Where the package cannot be moved to its place, the old version is put back,
/// what was unpacked is removed, and the failure is told, whatever comes of these
/// steps.
pub proof fn failed_placement_is_undone(
    outcomes: Seq<Result<(), Seq<char>>>,
    message: Seq<char>,
    put_back: Result<(), Seq<char>>,
    removed: Result<(), Seq<char>>,
)
    requires
        installation_run(outcomes).step == InstallStep::Place,
    ensures
        ({
            let failed = outcomes.push(Err(message));
            let restored = failed.push(put_back);
            let cleared = restored.push(removed);
            &&& installation_run(failed).step == InstallStep::PutBack
            &&& installation_run(restored).step == InstallStep::RemoveStaging
            &&& installation_run(cleared) == (InstallationV {
                step: InstallStep::Done,
                failure: Some(message),
            })
        }),
{
    let failed = outcomes.push(Err(message));
    let restored = failed.push(put_back);
    let cleared = restored.push(removed);
    assert(failed.drop_last() =~= outcomes);
    assert(restored.drop_last() =~= failed);
    assert(cleared.drop_last() =~= restored);
    assert(installation_run(failed) == installation_after(installation_run(outcomes), Err(message)));
    assert(installation_run(restored) == installation_after(installation_run(failed), put_back));
    assert(installation_run(cleared) == installation_after(installation_run(restored), removed));
}

// ---------------------------------------------------------------------------
// Greeting a plugin
// ---------------------------------------------------------------------------

/// A step of a greeting.
#[derive(Clone, Copy, Debug, PartialEq, Eq, Structural)]
pub enum GreetingStep {
    /// Wait until the plugin answers, and see whether it is one that is greeted.
    Wait,
    /// Send `hello`, and see whether the answer is accepted.
    Hello,
    /// Make the settings that are to be sent, and see whether there are any.
    Build,
    /// Send `configure`.
    Configure,
    /// Nothing is left to be done.
    Done,
}

/// A greeting under way: the step that is to be done, and what went wrong.
pub struct Greeting {
    step: GreetingStep,
    failure: Option<String>,
}

/// The model of a greeting.
pub struct GreetingV {
    pub step: GreetingStep,
    pub failure: Option<Seq<char>>,
}

impl View for Greeting {
    type V = GreetingV;

    closed spec fn view(&self) -> GreetingV {
        GreetingV { step: self.step, failure: opt_view(self.failure) }
    }
}

/// A greeting that has done nothing yet.
pub open spec fn fresh_greeting() -> GreetingV {
    GreetingV { step: GreetingStep::Wait, failure: None }
}

/// The outcome of a step: whether what it looks for is so, or why it failed.
pub open spec fn finding(r: Result<bool, String>) -> Result<bool, Seq<char>> {
    match r {
        Ok(found) => Ok(found),
        Err(message) => Err(message@),
    }
}

/// The greeting once a step was done. A plugin that is not greeted gets nothing,
/// and after a failure nothing more is sent.
pub open spec fn greeting_after(state: GreetingV, done: Result<bool, Seq<char>>) -> GreetingV {
    match done {
        Err(message) => if state.step == GreetingStep::Done {
            state
        } else {
            GreetingV { step: GreetingStep::Done, failure: Some(message) }
        },
        Ok(found) => GreetingV {
            step: match state.step {
                GreetingStep::Wait => if found {
                    GreetingStep::Hello
                } else {
                    GreetingStep::Done
                },
                GreetingStep::Hello => GreetingStep::Build,
                GreetingStep::Build => if found {
                    GreetingStep::Configure
                } else {
                    GreetingStep::Done
                },
                GreetingStep::Configure => GreetingStep::Done,
                GreetingStep::Done => GreetingStep::Done,
            },
            ..state
        },
    }
}

/// The command that a step sends, besides those by which it waits.
pub open spec fn sent_command(step: GreetingStep) -> Option<Seq<char>> {
    match step {
        GreetingStep::Hello => Some("hello"@),
        GreetingStep::Configure => Some("configure"@),
        _ => None,
    }
}

impl Greeting {
    pub fn begin() -> (r: Greeting)
        ensures
            r@ == fresh_greeting(),
    {
        Greeting { step: GreetingStep::Wait, failure: None }
    }

    /// The step that is to be done.
    pub fn step(&self) -> (r: GreetingStep)
        ensures
            r == self@.step,
    {
        self.step
    }

    /// The command that is to be sent now.
    pub fn command(&self) -> (r: Option<&'static str>)
        ensures
            (match r {
                Some(command) => Some(command@),
                None => None,
            }) == sent_command(self@.step),
    {
        match self.step {
            GreetingStep::Hello => Some("hello"),
            GreetingStep::Configure => Some("configure"),
            _ => None,
        }
    }

    /// Goes on, given what came of the step.
    pub fn next_greeting(&mut self, done: Result<bool, String>)
        ensures
            final(self)@ == greeting_after(old(self)@, finding(done)),
    {
        match done {
            Err(message) => {
                if !matches!(self.step, GreetingStep::Done) {
                    self.step = GreetingStep::Done;
                    self.failure = Some(message);
                }
            },
            Ok(found) => {
                self.step = match self.step {
                    GreetingStep::Wait => if found {
                        GreetingStep::Hello
                    } else {
                        GreetingStep::Done
                    },
                    GreetingStep::Hello => GreetingStep::Build,
                    GreetingStep::Build => if found {
                        GreetingStep::Configure
                    } else {
                        GreetingStep::Done
                    },
                    GreetingStep::Configure => GreetingStep::Done,
                    GreetingStep::Done => GreetingStep::Done,
                };
            },
        }
    }

    /// How the greeting ended.
    pub fn result(self) -> (r: Result<(), String>)
        ensures
            outcome(r) == (match self@.failure {
                Some(message) => Err(message),
                None => Ok(()),
            }),
    {
        match self.failure {
            Some(message) => Err(message),
            None => Ok(()),
        }
    }
}

/// The greeting after these steps were done.
pub open spec fn greeting_run(outcomes: Seq<Result<bool, Seq<char>>>) -> GreetingV
    decreases outcomes.len(),
{
    if outcomes.len() == 0 {
        fresh_greeting()
    } else {
        greeting_after(greeting_run(outcomes.drop_last()), outcomes.last())
    }
}

proof fn lemma_greeting(outcomes: Seq<Result<bool, Seq<char>>>)
    ensures
        ({
            let step = greeting_run(outcomes).step;
            &&& step == GreetingStep::Wait ==> outcomes.len() == 0
            &&& step == GreetingStep::Hello ==> outcomes.len() == 1 && outcomes[0] == Ok::<
                bool,
                Seq<char>,
            >(true)
            &&& step == GreetingStep::Build ==> outcomes.len() == 2 && outcomes[0] == Ok::<
                bool,
                Seq<char>,
            >(true) && outcomes[1] is Ok
            &&& step == GreetingStep::Configure ==> outcomes.len() == 3 && outcomes[0] == Ok::<
                bool,
                Seq<char>,
            >(true) && outcomes[1] is Ok && outcomes[2] == Ok::<bool, Seq<char>>(true)
        }),
    decreases outcomes.len(),
{
    if outcomes.len() > 0 {
        let rest = outcomes.drop_last();
        lemma_greeting(rest);
        assert forall|i: int| 0 <= i < rest.len() implies rest[i] == outcomes[i] by {}
    }
}

/// A plugin is sent nothing before it answered and was found to be one that is
/// greeted. `hello` comes first; `configure` comes only after an answer to it that
/// was accepted, and only where there is something to send.
pub proof fn hello_comes_first(outcomes: Seq<Result<bool, Seq<char>>>)
    ensures
        sent_command(greeting_run(outcomes).step) is Some ==> outcomes.len() >= 1 && outcomes[0]
            == Ok::<bool, Seq<char>>(true),
        greeting_run(outcomes).step == GreetingStep::Configure ==> outcomes.len() == 3
            && greeting_run(outcomes.take(1)).step == GreetingStep::Hello && outcomes[1] is Ok
            && outcomes[2] == Ok::<bool, Seq<char>>(true),
{
    lemma_greeting(outcomes);
    if greeting_run(outcomes).step == GreetingStep::Configure {
        let first = outcomes.take(1);
        assert(first.drop_last() =~= Seq::<Result<bool, Seq<char>>>::empty());
        assert(first.last() == outcomes[0]);
        assert(greeting_run(first.drop_last()) == fresh_greeting());
        assert(greeting_run(first) == greeting_after(fresh_greeting(), outcomes[0]));
    }
}

/// After a failure nothing more is sent, and the failure is told.
pub proof fn refused_greeting_ends(
    outcomes: Seq<Result<bool, Seq<char>>>,
    message: Seq<char>,
    later: Result<bool, Seq<char>>,
)
    requires
        greeting_run(outcomes).step != GreetingStep::Done,
    ensures
        ({
            let failed = outcomes.push(Err(message));
            &&& greeting_run(failed) == (GreetingV {
                step: GreetingStep::Done,
                failure: Some(message),
            })
            &&& greeting_run(failed.push(later)) == greeting_run(failed)
        }),
{
    let failed = outcomes.push(Err(message));
    assert(failed.drop_last() =~= outcomes);
    assert(failed.push(later).drop_last() =~= failed);
}

} // verus!
