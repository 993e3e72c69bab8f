use hotline_tracker::admission::{
    effective_require_password, startup_warning, Admission, Rejection, RegistrationGate,
    StartupWarning,
};

#[test]
fn steps_without_password_requirement() {
    let gate = RegistrationGate::new(false);
    assert_eq!(gate.first_step(), Admission::CheckBanlist);
    assert_eq!(gate.next_step(Admission::CheckBanlist, Some(false)), Admission::Register);
    assert_eq!(
        gate.next_step(Admission::CheckBanlist, Some(true)),
        Admission::Reject(Rejection::Banned)
    );
    assert_eq!(gate.decide(None, Some(false)), Admission::Register);
}

#[test]
fn steps_with_password_requirement() {
    let gate = RegistrationGate::new(true);
    assert_eq!(gate.first_step(), Admission::CheckPassword);
    assert_eq!(gate.next_step(Admission::CheckPassword, Some(true)), Admission::CheckBanlist);
    assert_eq!(
        gate.next_step(Admission::CheckPassword, Some(false)),
        Admission::Reject(Rejection::BadCredentials)
    );
    assert_eq!(gate.decide(Some(true), Some(false)), Admission::Register);
    assert_eq!(gate.decide(Some(true), Some(true)), Admission::Reject(Rejection::Banned));
}

#[test]
fn storage_failures_skip_the_registration() {
    let gate = RegistrationGate::new(true);
    assert_eq!(gate.decide(None, Some(false)), Admission::Reject(Rejection::StorageFailure));
    assert_eq!(gate.decide(Some(true), None), Admission::Reject(Rejection::StorageFailure));
    assert_eq!(
        gate.next_step(Admission::Register, None),
        Admission::Register
    );
}

#[test]
fn startup_warnings() {
    assert_eq!(startup_warning(true, 0), Some(StartupWarning::NoPasswords));
    assert_eq!(startup_warning(false, 2), Some(StartupWarning::UnusedPasswords(2)));
    assert_eq!(startup_warning(true, 1), None);
    assert_eq!(startup_warning(false, 0), None);
}

#[test]
fn command_line_overrides_configuration() {
    assert!(effective_require_password(true, false, false));
    assert!(!effective_require_password(false, true, true));
    assert!(effective_require_password(false, false, true));
    assert!(!effective_require_password(false, false, false));
}
