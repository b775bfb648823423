//! How many times the caller is asked for a password, and what each answer
//! of the authentication stack leads to.
//!
//! Asking and checking are done by the program; the rules are here. The
//! caller is asked at most [`RETRIES`] times. The first accepted password
//! ends the asking with success. A refused one is followed by a warning and
//! another prompt, except the last, which ends it with
//! `AuthenticationError`.

use vstd::prelude::*;
use crate::error::RudoError;

verus! {

/// How many times the caller may try.
pub const RETRIES: u32 = 3;

/// What to do next while authenticating.
#[derive(Debug, Clone, Copy, PartialEq, Eq, Structural)]
pub enum AuthAction {
    /// Ask for the password and hand it to the authentication stack.
    Prompt,
    /// Say that the password was wrong, then ask again.
    WarnAndPrompt,
    /// The caller is authenticated.
    Granted,
    /// The caller is not authenticated: `AuthenticationError`.
    Denied,
}

/// The progress of one authentication: how many answers were given so far.
#[derive(Debug, Clone, Copy, PartialEq, Eq, Structural)]
pub struct AuthAttempts {
    /// The number of passwords checked so far.
    pub made: u32,
    /// The number of passwords that may be checked.
    pub allowed: u32,
}

/// What to do before any password was asked for.
pub open spec fn first_action_spec(allowed: u32) -> AuthAction {
    if allowed == 0 {
        AuthAction::Denied
    } else {
        AuthAction::Prompt
    }
}

/// What to do once the authentication stack has answered the attempt that
/// follows `made` earlier ones.
pub open spec fn action_after_spec(made: u32, allowed: u32, accepted: bool) -> AuthAction {
    if accepted {
        AuthAction::Granted
    } else if made + 1 < allowed {
        AuthAction::WarnAndPrompt
    } else {
        AuthAction::Denied
    }
}

/// Whether an authentication succeeds in which the stack would answer the
/// attempts, as far as they are made, with `verdicts`: it does where one of
/// the first `retries` verdicts accepts.
pub open spec fn check_auth_spec(retries: u32, verdicts: Seq<bool>) -> Result<(), RudoError> {
    if exists|i: int| 0 <= i < verdicts.len() && i < retries && verdicts[i] {
        Ok(())
    } else {
        Err(RudoError::AuthenticationError)
    }
}

/// The number of passwords asked for when the stack answers with
/// `verdicts`: all up to the first accepted one, and no more than `retries`
/// nor than there are verdicts.
pub open spec fn prompts_spec(retries: u32, verdicts: Seq<bool>) -> nat
    decreases verdicts.len(),
{
    if retries == 0 || verdicts.len() == 0 {
        0
    } else if verdicts[0] {
        1
    } else {
        1 + prompts_spec((retries - 1) as u32, verdicts.drop_first())
    }
}

impl AuthAttempts {
    /// An authentication that may check `allowed` passwords and has checked
    /// none.
    pub fn new(allowed: u32) -> (attempts: Self)
        ensures
            attempts.made == 0,
            attempts.allowed == allowed,
    {
        AuthAttempts { made: 0, allowed }
    }

    /// What to do first.
    pub fn start(&self) -> (action: AuthAction)
        ensures
            action == first_action_spec(self.allowed),
    {
        if self.allowed == 0 {
            AuthAction::Denied
        } else {
            AuthAction::Prompt
        }
    }

    /// Takes note of the stack's answer to one more password and says what
    /// to do next.
    ///
    /// An answer that comes after the last allowed attempt changes nothing
    /// and is refused.
    pub fn record(&mut self, accepted: bool) -> (action: AuthAction)
        ensures
            final(self).allowed == old(self).allowed,
            old(self).made < old(self).allowed ==> final(self).made == old(self).made + 1 && action
                == action_after_spec(old(self).made, old(self).allowed, accepted),
            old(self).made >= old(self).allowed ==> *final(self) == *old(self) && action
                == AuthAction::Denied,
    {
        if self.made >= self.allowed {
            return AuthAction::Denied;
        }
        let before = self.made;
        self.made = before + 1;
        if accepted {
            AuthAction::Granted
        } else if before + 1 < self.allowed {
            AuthAction::WarnAndPrompt
        } else {
            AuthAction::Denied
        }
    }
}

/// Decides an authentication in which the stack answers the attempts with
/// `verdicts`, one verdict per password asked for.
///
/// Returns `Ok` where one of the first `retries` verdicts accepts, and
/// `AuthenticationError` where none does.
pub fn check_auth(retries: u32, verdicts: &[bool]) -> (outcome: Result<(), RudoError>)
    ensures
        outcome == check_auth_spec(retries, verdicts@),
{
    let mut attempts = AuthAttempts::new(retries);
    let mut action = attempts.start();
    let mut i: usize = 0;
    while i < verdicts.len() && (action == AuthAction::Prompt || action == AuthAction::WarnAndPrompt)
        invariant
            i <= verdicts@.len(),
            attempts.allowed == retries,
            attempts.made == i,
            i <= retries,
            forall|j: int| 0 <= j < i ==> !verdicts@[j] || action == AuthAction::Granted,
            action == AuthAction::Granted ==> exists|j: int|
                0 <= j < i && j < retries && verdicts@[j],
            action == AuthAction::Denied ==> i >= retries,
            (action == AuthAction::Prompt || action == AuthAction::WarnAndPrompt) ==> i < retries,
        decreases verdicts@.len() - i,
    {
        action = attempts.record(verdicts[i]);
        i += 1;
    }
    match action {
        AuthAction::Granted => Ok(()),
        _ => Err(RudoError::AuthenticationError),
    }
}

/// No more passwords are asked for than are allowed, and none after one was
/// accepted.
pub proof fn lemma_prompts_bounded(retries: u32, verdicts: Seq<bool>)
    ensures
        prompts_spec(retries, verdicts) <= retries,
        prompts_spec(retries, verdicts) <= verdicts.len(),
        forall|j: int| 0 <= j < prompts_spec(retries, verdicts) - 1 ==> !verdicts[j],
        check_auth_spec(retries, verdicts) is Ok ==> prompts_spec(retries, verdicts) > 0
            && verdicts[prompts_spec(retries, verdicts) - 1],
    decreases verdicts.len(),
{
    if retries == 0 || verdicts.len() == 0 {
    } else if verdicts[0] {
    } else {
        let rest = verdicts.drop_first();
        let fewer = (retries - 1) as u32;
        lemma_prompts_bounded(fewer, rest);
        let n = prompts_spec(fewer, rest) as int;
        assert forall|j: int| 0 <= j < prompts_spec(retries, verdicts) - 1 implies !verdicts[j] by {
            if j > 0 {
                assert(verdicts[j] == rest[j - 1]);
            }
        }
        if check_auth_spec(retries, verdicts) is Ok {
            let w = choose|i: int| 0 <= i < verdicts.len() && i < retries && verdicts[i];
            assert(w > 0);
            assert(rest[w - 1]);
            assert(check_auth_spec(fewer, rest) is Ok);
            assert(verdicts[n] == rest[n - 1]);
        }
    }
}

/// With every password refused, the caller is asked `retries` times and
/// then turned away.
pub proof fn lemma_all_refused(retries: u32, verdicts: Seq<bool>)
    requires
        verdicts.len() >= retries,
        forall|j: int| 0 <= j < retries ==> !verdicts[j],
    ensures
        check_auth_spec(retries, verdicts) == Err::<(), RudoError>(RudoError::AuthenticationError),
        prompts_spec(retries, verdicts) == retries,
    decreases verdicts.len(),
{
    if retries > 0 {
        let rest = verdicts.drop_first();
        assert forall|j: int| 0 <= j < retries - 1 implies !rest[j] by {
            assert(rest[j] == verdicts[j + 1]);
        }
        lemma_all_refused((retries - 1) as u32, rest);
    }
}

} // verus!
