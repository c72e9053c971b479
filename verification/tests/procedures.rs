use background_studio::procedures::{Greeting, GreetingStep, InstallStep, Installation};

fn failed() -> Result<(), String> {
    Err("no".to_string())
}

#[test]
fn installation_goes_through_its_steps() {
    let mut installation = Installation::begin();
    for step in [
        InstallStep::Download,
        InstallStep::MakeStaging,
        InstallStep::Unpack,
        InstallStep::RemovePackage,
        InstallStep::Check,
        InstallStep::Stop,
        InstallStep::SetAside,
        InstallStep::Place,
        InstallStep::RemoveBackup,
        InstallStep::Note,
        InstallStep::Save,
        InstallStep::Start,
        InstallStep::Done,
    ] {
        assert_eq!(installation.step(), step);
        installation.next_install(Ok(()));
    }
    assert!(installation.result().is_ok());
}

#[test]
fn refused_package_touches_nothing() {
    let mut installation = Installation::begin();
    for _ in 0..4 {
        installation.next_install(Ok(()));
    }
    assert_eq!(installation.step(), InstallStep::Check);
    installation.next_install(failed());
    assert_eq!(installation.step(), InstallStep::RemoveStaging);
    installation.next_install(failed());
    assert_eq!(installation.step(), InstallStep::Done);
    assert_eq!(installation.result().unwrap_err(), "no");

    let mut broken = Installation::begin();
    broken.next_install(Ok(()));
    broken.next_install(Ok(()));
    broken.next_install(failed());
    assert_eq!(broken.step(), InstallStep::RemovePackage);
    broken.next_install(Ok(()));
    assert_eq!(broken.step(), InstallStep::RemoveStaging);
}

#[test]
fn old_version_is_put_back() {
    let mut installation = Installation::begin();
    while installation.step() != InstallStep::Place {
        installation.next_install(Ok(()));
    }
    installation.next_install(failed());
    assert_eq!(installation.step(), InstallStep::PutBack);
    installation.next_install(Ok(()));
    assert_eq!(installation.step(), InstallStep::RemoveStaging);
    installation.next_install(Ok(()));
    assert_eq!(installation.step(), InstallStep::Done);
    assert_eq!(installation.result().unwrap_err(), "no");
}

#[test]
fn plugin_is_greeted_before_it_is_configured() {
    let mut greeting = Greeting::begin();
    assert_eq!(greeting.command(), None);
    greeting.next_greeting(Ok(true));
    assert_eq!(greeting.command(), Some("hello"));
    greeting.next_greeting(Ok(true));
    assert_eq!(greeting.step(), GreetingStep::Build);
    greeting.next_greeting(Ok(true));
    assert_eq!(greeting.command(), Some("configure"));
    greeting.next_greeting(Ok(true));
    assert_eq!(greeting.step(), GreetingStep::Done);
    assert!(greeting.result().is_ok());
}

#[test]
fn nothing_is_sent_where_nothing_is_due() {
    let mut old = Greeting::begin();
    old.next_greeting(Ok(false));
    assert_eq!(old.step(), GreetingStep::Done);
    assert!(old.result().is_ok());

    let mut refused = Greeting::begin();
    refused.next_greeting(Ok(true));
    refused.next_greeting(Err("no".to_string()));
    assert_eq!(refused.step(), GreetingStep::Done);
    assert_eq!(refused.command(), None);
    assert_eq!(refused.result().unwrap_err(), "no");

    let mut idle = Greeting::begin();
    idle.next_greeting(Ok(true));
    idle.next_greeting(Ok(true));
    idle.next_greeting(Ok(false));
    assert_eq!(idle.step(), GreetingStep::Done);
}
