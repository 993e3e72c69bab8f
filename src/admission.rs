//! The tracker's rules for admitting a registration to its listing: the
//! password check (when passwords are required), then the banlist.
use vstd::prelude::*;

verus! {

#[derive(Debug, Clone, Copy, PartialEq, Eq, Structural)]
pub enum Rejection {
    /// Passwords are required and this one is not among them.
    BadCredentials,
    /// The address is on the banlist.
    Banned,
    /// A lookup in storage failed; the registration is skipped.
    StorageFailure,
}

/// What to do next with a registration.
#[derive(Debug, Clone, Copy, PartialEq, Eq, Structural)]
pub enum Admission {
    /// Look its password up among the authorized ones.
    CheckPassword,
    /// Look its address up on the banlist.
    CheckBanlist,
    /// List it.
    Register,
    Reject(Rejection),
}

/// The admission rules of a running tracker.
#[derive(Debug, Clone, Copy, PartialEq, Eq, Structural)]
pub struct RegistrationGate {
    pub require_password: bool,
}

/// Where a registration ends up, from whether its password is authorized and
/// whether its address is banned (`None`: the lookup failed). The password
/// is only consulted when passwords are required.
pub open spec fn verdict(require_password: bool, authorized: Option<bool>, banned: Option<bool>) -> Admission {
    if require_password && authorized != Some(true) {
        if authorized is None {
            Admission::Reject(Rejection::StorageFailure)
        } else {
            Admission::Reject(Rejection::BadCredentials)
        }
    } else {
        match banned {
            None => Admission::Reject(Rejection::StorageFailure),
            Some(true) => Admission::Reject(Rejection::Banned),
            Some(false) => Admission::Register,
        }
    }
}

impl RegistrationGate {
    pub fn new(require_password: bool) -> (r: Self)
        ensures
            r.require_password == require_password,
    {
        RegistrationGate { require_password }
    }

    /// The first step for a new registration.
    pub fn first_step(&self) -> (r: Admission)
        ensures
            r == (if self.require_password {
                Admission::CheckPassword
            } else {
                Admission::CheckBanlist
            }),
    {
        if self.require_password {
            Admission::CheckPassword
        } else {
            Admission::CheckBanlist
        }
    }

    /// The step after `current`, given the answer to the lookup it asked for
    /// (`None`: the lookup failed). `Register` and `Reject` are final.
    pub fn next_step(&self, current: Admission, answer: Option<bool>) -> (r: Admission)
        ensures
            current is CheckPassword ==> r == (match answer {
                None => Admission::Reject(Rejection::StorageFailure),
                Some(true) => Admission::CheckBanlist,
                Some(false) => Admission::Reject(Rejection::BadCredentials),
            }),
            current is CheckBanlist ==> r == (match answer {
                None => Admission::Reject(Rejection::StorageFailure),
                Some(true) => Admission::Reject(Rejection::Banned),
                Some(false) => Admission::Register,
            }),
            (current is Register || current is Reject) ==> r == current,
    {
        match current {
            Admission::CheckPassword => match answer {
                None => Admission::Reject(Rejection::StorageFailure),
                Some(true) => Admission::CheckBanlist,
                Some(false) => Admission::Reject(Rejection::BadCredentials),
            },
            Admission::CheckBanlist => match answer {
                None => Admission::Reject(Rejection::StorageFailure),
                Some(true) => Admission::Reject(Rejection::Banned),
                Some(false) => Admission::Register,
            },
            _ => current,
        }
    }

    /// Runs the steps with both answers at hand: the outcome is `verdict`.
    pub fn decide(&self, authorized: Option<bool>, banned: Option<bool>) -> (r: Admission)
        ensures
            r == verdict(self.require_password, authorized, banned),
    {
        let mut step = self.first_step();
        if step == Admission::CheckPassword {
            step = self.next_step(step, authorized);
        }
        if step == Admission::CheckBanlist {
            step = self.next_step(step, banned);
        }
        step
    }
}

/// A warning about the password setup, given at startup.
#[derive(Debug, Clone, Copy, PartialEq, Eq, Structural)]
pub enum StartupWarning {
    /// Passwords are required, but none is stored: nobody can register.
    NoPasswords,
    /// Passwords are stored, but not required: they have no effect.
    UnusedPasswords(i64),
}

/// The warning for `password_count` stored passwords, if any is due.
pub fn startup_warning(require_password: bool, password_count: i64) -> (r: Option<StartupWarning>)
    ensures
        r == (if require_password && password_count == 0 {
            Some(StartupWarning::NoPasswords)
        } else if !require_password && password_count > 0 {
            Some(StartupWarning::UnusedPasswords(password_count))
        } else {
            None
        }),
{
    if require_password && password_count == 0 {
        Some(StartupWarning::NoPasswords)
    } else if !require_password && password_count > 0 {
        Some(StartupWarning::UnusedPasswords(password_count))
    } else {
        None
    }
}

/// Whether passwords are required: a command-line demand wins, then a
/// command-line waiver, then the configuration.
pub fn effective_require_password(demanded: bool, waived: bool, configured: bool) -> (r: bool)
    ensures
        r == (demanded || (!waived && configured)),
{
    if demanded {
        true
    } else if waived {
        false
    } else {
        configured
    }
}

} // verus!
