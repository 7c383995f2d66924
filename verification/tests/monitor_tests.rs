use sidecar_supervisor::monitor::{classify, CrashCause, ExitOutcome, ExitStatus};

#[test]
fn exit_code_zero_is_a_clean_exit() {
    let status = ExitStatus { code: Some(0), signal: None };
    assert_eq!(classify(false, status), ExitOutcome::CleanExit);
}

#[test]
fn non_zero_exit_code_is_a_crash() {
    let status = ExitStatus { code: Some(3), signal: None };
    assert_eq!(classify(false, status), ExitOutcome::CrashExit(CrashCause::Code(3)));
    let status = ExitStatus { code: Some(-1), signal: None };
    assert_eq!(classify(false, status), ExitOutcome::CrashExit(CrashCause::Code(-1)));
}

#[test]
fn signal_is_a_crash() {
    let status = ExitStatus { code: None, signal: Some(9) };
    assert_eq!(classify(false, status), ExitOutcome::CrashExit(CrashCause::Signal(9)));
}

#[test]
fn signal_wins_over_exit_code() {
    let status = ExitStatus { code: Some(0), signal: Some(11) };
    assert_eq!(classify(false, status), ExitOutcome::CrashExit(CrashCause::Signal(11)));
}

#[test]
fn missing_code_and_signal_is_a_crash() {
    let status = ExitStatus { code: None, signal: None };
    assert_eq!(classify(false, status), ExitOutcome::CrashExit(CrashCause::Unknown));
}

#[test]
fn stop_flag_is_looked_at_first() {
    let crash = ExitStatus { code: Some(137), signal: None };
    assert_eq!(classify(true, crash), ExitOutcome::KilledByRequest);
    let killed = ExitStatus { code: None, signal: Some(15) };
    assert_eq!(classify(true, killed), ExitOutcome::KilledByRequest);
    let clean = ExitStatus { code: Some(0), signal: None };
    assert_eq!(classify(true, clean), ExitOutcome::KilledByRequest);
    let nothing = ExitStatus { code: None, signal: None };
    assert_eq!(classify(true, nothing), ExitOutcome::KilledByRequest);
}
