use openmk3::platform::{
    current, Backend, ClaimAction, ClaimError, ClaimEvent, ClaimGuard, DeviceClaim, LinuxClaim,
    MacOsClaim, RestoreStep, Suspended, WindowsClaim, AGENT_SERVICE,
};

#[test]
fn linux_and_windows_are_not_supported_yet() {
    let e = LinuxClaim.prepare().unwrap_err();
    assert_eq!(e, ClaimError::UnsupportedPlatform("linux"));
    assert_eq!(e.message(), "v0.1 only supports macOS; linux lands in v0.2");
    assert_eq!(WindowsClaim.prepare().unwrap_err(), ClaimError::UnsupportedPlatform("windows"));
    assert_eq!(ClaimError::Command("x".into()).message(), "claim subcommand failed: x");
}

#[test]
fn backend_follows_the_target_system() {
    assert_eq!(current("macos"), Some(Backend::MacOs));
    assert_eq!(current("linux"), Some(Backend::Linux));
    assert_eq!(current("windows"), Some(Backend::Windows));
    assert_eq!(current("freebsd"), None);
}

#[test]
fn macos_claim_suspends_and_records_what_to_restore() {
    let (mut c, a) = MacOsClaim::start();
    assert_eq!(a, ClaimAction::Find("NIHostIntegrationAgent"));
    assert_eq!(c.step(ClaimEvent::Found(Some(100))), ClaimAction::Bootout(AGENT_SERVICE));
    assert_eq!(c.step(ClaimEvent::BootedOut(false)), ClaimAction::Stop(100));
    assert_eq!(c.step(ClaimEvent::Stopped), ClaimAction::Find("NIHardwareAgent"));
    assert_eq!(c.step(ClaimEvent::Found(None)), ClaimAction::Find("Maschine 2"));
    assert_eq!(c.step(ClaimEvent::Found(Some(200))), ClaimAction::Stop(200));
    assert_eq!(c.step(ClaimEvent::Stopped), ClaimAction::Find("Maschine"));
    assert_eq!(c.step(ClaimEvent::Found(None)), ClaimAction::Find("Komplete Kontrol"));
    assert_eq!(c.step(ClaimEvent::Found(None)), ClaimAction::Find("MIDIServer"));
    assert_eq!(c.step(ClaimEvent::Found(Some(300))), ClaimAction::Kill(300));
    assert_eq!(c.step(ClaimEvent::Killed), ClaimAction::Find("usbaudiod"));
    let done = c.step(ClaimEvent::Found(None));
    let guard = match done {
        ClaimAction::Done(g) => g,
        other => panic!("got {other:?}"),
    };
    assert_eq!(guard.suspended, Some(Suspended { agent_was_bootable: false, stopped_pids: vec![100, 200] }));
    assert_eq!(guard.restore_steps(), vec![RestoreStep::Resume(100), RestoreStep::Resume(200)]);
}

#[test]
fn macos_claim_bootout_and_failed_stop() {
    let (mut c, _) = MacOsClaim::start();
    c.step(ClaimEvent::Found(Some(1)));
    assert_eq!(c.step(ClaimEvent::BootedOut(true)), ClaimAction::Find("NIHardwareAgent"));
    assert!(c.agent_was_bootable);
    assert_eq!(c.step(ClaimEvent::Found(Some(-7))), ClaimAction::Stop(-7));
    let failed = c.step(ClaimEvent::StopFailed("Operation not permitted".into()));
    assert_eq!(
        failed,
        ClaimAction::Failed(
            ClaimError::Command("kill(-7, SIGSTOP) failed: Operation not permitted".into()),
            vec![RestoreStep::Bootstrap],
        )
    );
    let g = ClaimGuard::new(Suspended { agent_was_bootable: true, stopped_pids: vec![] });
    assert_eq!(g.restore_steps(), vec![RestoreStep::Bootstrap]);
    assert!(ClaimGuard::none().restore_steps().is_empty());
}

#[test]
fn macos_claim_failed_stop_resumes_what_was_stopped() {
    let (mut c, _) = MacOsClaim::start();
    c.step(ClaimEvent::Found(Some(7)));
    assert_eq!(c.step(ClaimEvent::BootedOut(false)), ClaimAction::Stop(7));
    assert_eq!(c.step(ClaimEvent::Stopped), ClaimAction::Find("NIHardwareAgent"));
    assert_eq!(c.step(ClaimEvent::Found(Some(8))), ClaimAction::Stop(8));
    match c.step(ClaimEvent::StopFailed("No such process".into())) {
        ClaimAction::Failed(ClaimError::Command(m), undo) => {
            assert_eq!(m, "kill(8, SIGSTOP) failed: No such process");
            assert_eq!(undo, vec![RestoreStep::Resume(7)]);
        }
        other => panic!("got {other:?}"),
    }
}
