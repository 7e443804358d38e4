//! The steps of an interactive login. The program around the library talks
//! to Telegram and reads the code and password; after each answer it asks
//! [`login_step`] what to do next.

use vstd::prelude::*;

verus! {

/// Where a login stands.
#[derive(Clone, Copy, Debug, PartialEq, Eq, Structural)]
pub enum LoginState {
    /// Nothing done yet.
    Begin,
    /// Connected; waiting to learn whether the session is authorized.
    CheckingAuthorization,
    /// A login code was asked for; waiting for it to be sent.
    RequestingCode,
    /// The code was entered; waiting for the sign-in answer.
    SigningIn,
    /// The 2FA password was entered; waiting for its answer.
    CheckingPassword,
    /// The login is over.
    Finished,
}

/// What happened since the last step.
#[derive(Clone, Copy, Debug, PartialEq, Eq, Structural)]
pub enum LoginEvent {
    /// The login was asked for; `has_phone` tells whether the account has a
    /// phone number configured.
    Start { has_phone: bool },
    /// Whether the session is already authorized.
    Authorized(bool),
    /// The login code was sent.
    CodeSent,
    /// Signing in with the code succeeded.
    SignedIn,
    /// Signing in needs the 2FA password.
    PasswordRequired,
    /// Signing in with the code failed otherwise.
    SignInFailed,
    /// The 2FA password was accepted.
    PasswordAccepted,
    /// The 2FA password was rejected.
    PasswordRejected,
}

/// What to do next.
#[derive(Clone, Copy, Debug, PartialEq, Eq, Structural)]
pub enum LoginAction {
    /// Fail: the account has no phone number to log in with.
    RejectNoPhone,
    /// Connect and ask whether the session is authorized.
    CheckAuthorization,
    /// Report that the account is already logged in; done.
    ReportAlreadyLoggedIn,
    /// Ask Telegram to send a login code.
    RequestCode,
    /// Read the code and sign in with it.
    PromptCode,
    /// Read the 2FA password and check it.
    PromptPassword,
    /// Report a successful login; done.
    ReportLoggedIn,
    /// Report a successful login with 2FA; done.
    ReportLoggedInWithPassword,
    /// Fail: signing in was refused.
    FailSignIn,
    /// Fail: the 2FA password was refused.
    FailPassword,
    /// The event does not belong to this state; nothing to do.
    Ignore,
}

/// The login's next state and action after `event` in state `s`.
pub open spec fn spec_login_step(s: LoginState, event: LoginEvent) -> (LoginState, LoginAction) {
    match (s, event) {
        (LoginState::Begin, LoginEvent::Start { has_phone }) => if has_phone {
            (LoginState::CheckingAuthorization, LoginAction::CheckAuthorization)
        } else {
            (LoginState::Finished, LoginAction::RejectNoPhone)
        },
        (LoginState::CheckingAuthorization, LoginEvent::Authorized(yes)) => if yes {
            (LoginState::Finished, LoginAction::ReportAlreadyLoggedIn)
        } else {
            (LoginState::RequestingCode, LoginAction::RequestCode)
        },
        (LoginState::RequestingCode, LoginEvent::CodeSent) => (
            LoginState::SigningIn,
            LoginAction::PromptCode,
        ),
        (LoginState::SigningIn, LoginEvent::SignedIn) => (
            LoginState::Finished,
            LoginAction::ReportLoggedIn,
        ),
        (LoginState::SigningIn, LoginEvent::PasswordRequired) => (
            LoginState::CheckingPassword,
            LoginAction::PromptPassword,
        ),
        (LoginState::SigningIn, LoginEvent::SignInFailed) => (
            LoginState::Finished,
            LoginAction::FailSignIn,
        ),
        (LoginState::CheckingPassword, LoginEvent::PasswordAccepted) => (
            LoginState::Finished,
            LoginAction::ReportLoggedInWithPassword,
        ),
        (LoginState::CheckingPassword, LoginEvent::PasswordRejected) => (
            LoginState::Finished,
            LoginAction::FailPassword,
        ),
        _ => (s, LoginAction::Ignore),
    }
}

/// Decides the next step of a login: a login needs a phone number; an
/// authorized session needs nothing more; otherwise a code is requested and
/// entered, and the 2FA password is asked for when signing in needs it.
pub fn login_step(s: LoginState, event: LoginEvent) -> (r: (LoginState, LoginAction))
    ensures
        r == spec_login_step(s, event),
{
    match (s, event) {
        (LoginState::Begin, LoginEvent::Start { has_phone }) => if has_phone {
            (LoginState::CheckingAuthorization, LoginAction::CheckAuthorization)
        } else {
            (LoginState::Finished, LoginAction::RejectNoPhone)
        },
        (LoginState::CheckingAuthorization, LoginEvent::Authorized(yes)) => if yes {
            (LoginState::Finished, LoginAction::ReportAlreadyLoggedIn)
        } else {
            (LoginState::RequestingCode, LoginAction::RequestCode)
        },
        (LoginState::RequestingCode, LoginEvent::CodeSent) => (
            LoginState::SigningIn,
            LoginAction::PromptCode,
        ),
        (LoginState::SigningIn, LoginEvent::SignedIn) => (
            LoginState::Finished,
            LoginAction::ReportLoggedIn,
        ),
        (LoginState::SigningIn, LoginEvent::PasswordRequired) => (
            LoginState::CheckingPassword,
            LoginAction::PromptPassword,
        ),
        (LoginState::SigningIn, LoginEvent::SignInFailed) => (
            LoginState::Finished,
            LoginAction::FailSignIn,
        ),
        (LoginState::CheckingPassword, LoginEvent::PasswordAccepted) => (
            LoginState::Finished,
            LoginAction::ReportLoggedInWithPassword,
        ),
        (LoginState::CheckingPassword, LoginEvent::PasswordRejected) => (
            LoginState::Finished,
            LoginAction::FailPassword,
        ),
        _ => (s, LoginAction::Ignore),
    }
}

/// A finished login stays finished, and a login ends after at most five
/// steps that are not ignored: every real step moves forward along
/// Begin → CheckingAuthorization → RequestingCode → SigningIn →
/// CheckingPassword → Finished.
pub proof fn lemma_login_moves_forward(s: LoginState, event: LoginEvent)
    ensures
        s == LoginState::Finished ==> spec_login_step(s, event).0 == LoginState::Finished,
        spec_login_step(s, event).1 != LoginAction::Ignore ==> stage(spec_login_step(s, event).0)
            > stage(s),
{
}

/// The position of a state along the login.
pub open spec fn stage(s: LoginState) -> int {
    match s {
        LoginState::Begin => 0,
        LoginState::CheckingAuthorization => 1,
        LoginState::RequestingCode => 2,
        LoginState::SigningIn => 3,
        LoginState::CheckingPassword => 4,
        LoginState::Finished => 5,
    }
}

} // verus!
