//! The course of one invocation: which step follows which, and what is
//! handed to the system to run.
//!
//! The steps are: judge the request by the policy; where a password may be
//! needed, look at the cache; authenticate where needed; refresh the cache;
//! start the session watcher; run the command. A refusal by the policy or
//! a failed authentication ends the invocation before any later step.

use vstd::prelude::*;
use vstd::string::StringExecFns;
use crate::cache::needs_password_spec;
use crate::error::RudoError;
use crate::request::App;
use crate::user_info::texts;

verus! {

/// The step an invocation is at.
#[derive(Debug, Clone, Copy, PartialEq, Eq, Structural)]
pub enum Stage {
    /// Judge the request by the policy.
    CheckPolicy,
    /// Read the cache to see whether a recent authentication counts.
    CheckCache,
    /// Ask the caller for their password.
    Authenticate,
    /// Write the cache record anew.
    RefreshCache,
    /// Create the session marker and start the watcher where it is new.
    StartSession,
    /// Run the command.
    Execute,
    /// The command was run.
    Finished,
    /// The invocation was refused or failed; the error is to be reported.
    Aborted(RudoError),
    /// The cache could not be written: report it and end with status 1.
    Terminated,
}

/// What the program reports back after a step.
#[derive(Debug, Clone, Copy, PartialEq, Eq)]
pub enum RunEvent {
    /// The policy's decision: whether a password is required, or a refusal.
    Policy(Result<bool, RudoError>),
    /// Whether the cache holds an authentication that still counts.
    Cache { valid: bool },
    /// How the authentication ended.
    Authenticated(Result<(), RudoError>),
    /// Whether the cache record could be written.
    CacheRefreshed { ok: bool },
    /// The session marker was tried and the watcher started where due.
    SessionStarted,
    /// How running the command ended.
    Executed(Result<(), RudoError>),
}

/// The step that follows `stage` on `event`, for a request whose
/// `validate` flag is as given. An event that does not answer the step
/// changes nothing.
pub open spec fn run_spec(stage: Stage, event: RunEvent, validate: bool) -> Stage {
    match (stage, event) {
        (Stage::CheckPolicy, RunEvent::Policy(Err(e))) => Stage::Aborted(e),
        (Stage::CheckPolicy, RunEvent::Policy(Ok(required))) => {
            if required {
                Stage::CheckCache
            } else if needs_password_spec(false, false, validate) {
                Stage::Authenticate
            } else {
                Stage::RefreshCache
            }
        },
        (Stage::CheckCache, RunEvent::Cache { valid }) => {
            if needs_password_spec(true, valid, validate) {
                Stage::Authenticate
            } else {
                Stage::RefreshCache
            }
        },
        (Stage::Authenticate, RunEvent::Authenticated(Ok(_))) => Stage::RefreshCache,
        (Stage::Authenticate, RunEvent::Authenticated(Err(e))) => Stage::Aborted(e),
        (Stage::RefreshCache, RunEvent::CacheRefreshed { ok }) => {
            if ok {
                Stage::StartSession
            } else {
                Stage::Terminated
            }
        },
        (Stage::StartSession, RunEvent::SessionStarted) => Stage::Execute,
        (Stage::Execute, RunEvent::Executed(Ok(_))) => Stage::Finished,
        (Stage::Execute, RunEvent::Executed(Err(e))) => Stage::Aborted(e),
        _ => stage,
    }
}

/// The step an invocation is at after `events`, starting from the policy.
pub open spec fn run_all_spec(events: Seq<RunEvent>, validate: bool) -> Stage
    decreases events.len(),
{
    if events.len() == 0 {
        Stage::CheckPolicy
    } else {
        run_spec(run_all_spec(events.drop_last(), validate), events.last(), validate)
    }
}

/// The invocation has ended at `stage`.
pub open spec fn is_final(stage: Stage) -> bool {
    stage == Stage::Finished || stage is Aborted || stage == Stage::Terminated
}

/// Moves an invocation from `stage` on `event`.
pub fn run(stage: Stage, event: RunEvent, validate: bool) -> (next: Stage)
    ensures
        next == run_spec(stage, event, validate),
{
    match stage {
        Stage::CheckPolicy => match event {
            RunEvent::Policy(Err(e)) => Stage::Aborted(e),
            RunEvent::Policy(Ok(required)) => {
                if required {
                    Stage::CheckCache
                } else if validate {
                    Stage::Authenticate
                } else {
                    Stage::RefreshCache
                }
            },
            _ => stage,
        },
        Stage::CheckCache => match event {
            RunEvent::Cache { valid } => {
                if !valid || validate {
                    Stage::Authenticate
                } else {
                    Stage::RefreshCache
                }
            },
            _ => stage,
        },
        Stage::Authenticate => match event {
            RunEvent::Authenticated(Ok(_)) => Stage::RefreshCache,
            RunEvent::Authenticated(Err(e)) => Stage::Aborted(e),
            _ => stage,
        },
        Stage::RefreshCache => match event {
            RunEvent::CacheRefreshed { ok } => {
                if ok {
                    Stage::StartSession
                } else {
                    Stage::Terminated
                }
            },
            _ => stage,
        },
        Stage::StartSession => match event {
            RunEvent::SessionStarted => Stage::Execute,
            _ => stage,
        },
        Stage::Execute => match event {
            RunEvent::Executed(Ok(_)) => Stage::Finished,
            RunEvent::Executed(Err(e)) => Stage::Aborted(e),
            _ => stage,
        },
        _ => stage,
    }
}

/// What is handed to the system to run.
#[derive(Debug, Clone, PartialEq, Eq)]
pub struct ExecPlan {
    /// The account whose identity the command gets.
    pub run_as: String,
    /// The file to run.
    pub program: String,
    /// The arguments of the command.
    pub arguments: Vec<String>,
    /// Whether to leave at once instead of waiting for the command.
    pub background: bool,
}

/// Lays out what to run for the request `app`, whose command resolved to
/// `command_path`.
///
/// Returns `NoCommandSpecified` exactly where the request names no
/// program. Else the command runs as the requested account, `root` where
/// none was asked for, with every token after the first as its arguments.
pub fn execute(app: &App, command_path: String) -> (plan: Result<ExecPlan, RudoError>)
    ensures
        match plan {
            Ok(laid) => {
                &&& app.has_command()
                &&& laid.run_as@ == app.alias_spec()
                &&& laid.program@ == command_path@
                &&& texts(laid.arguments@) == app.arguments_spec()
                &&& laid.background == app.background
            },
            Err(e) => !app.has_command() && e == RudoError::NoCommandSpecified,
        },
{
    match &app.cmd {
        Some(tokens) => {
            if tokens.len() == 0 {
                return Err(RudoError::NoCommandSpecified);
            }
            let mut arguments: Vec<String> = Vec::new();
            let mut i: usize = 1;
            while i < tokens.len()
                invariant
                    1 <= i <= tokens@.len(),
                    arguments@.len() == i - 1,
                    forall|j: int| 0 <= j < i - 1 ==> (#[trigger] arguments@[j])@ == tokens@[j + 1]@,
                decreases tokens@.len() - i,
            {
                arguments.push(tokens[i].clone());
                i += 1;
            }
            assert(texts(arguments@) =~= app.arguments_spec());
            Ok(
                ExecPlan {
                    run_as: String::from_str(app.alias()),
                    program: command_path,
                    arguments,
                    background: app.background,
                },
            )
        },
        None => Err(RudoError::NoCommandSpecified),
    }
}

/// A request that the policy refuses ends there, with the policy's error:
/// whatever is reported afterwards, nothing is authenticated, written or
/// run.
pub proof fn lemma_refusal_ends_invocation(refusal: RudoError, later: Seq<RunEvent>, validate: bool)
    ensures
        run_all_spec(seq![RunEvent::Policy(Err(refusal))] + later, validate) == Stage::Aborted(
            refusal,
        ),
    decreases later.len(),
{
    let events = seq![RunEvent::Policy(Err(refusal))] + later;
    if later.len() == 0 {
        assert(events.drop_last() =~= Seq::<RunEvent>::empty());
    } else {
        assert(events.drop_last() =~= seq![RunEvent::Policy(Err(refusal))] + later.drop_last());
        assert(events.last() == later.last());
        lemma_refusal_ends_invocation(refusal, later.drop_last(), validate);
    }
}

/// A step is entered from the step before it only: the cache is refreshed
/// only after the policy allowed the request and the caller authenticated
/// where that was needed, the session is started only after the cache was
/// refreshed, and the command runs only after the session was started.
pub proof fn lemma_stage_order(stage: Stage, event: RunEvent, validate: bool)
    ensures
        ({
            let next = run_spec(stage, event, validate);
            &&& next == Stage::CheckCache && stage != next ==> stage == Stage::CheckPolicy
            &&& next == Stage::Authenticate && stage != next ==> stage == Stage::CheckPolicy || stage
                == Stage::CheckCache
            &&& next == Stage::RefreshCache && stage != next ==> stage == Stage::CheckPolicy || stage
                == Stage::CheckCache || stage == Stage::Authenticate
            &&& next == Stage::StartSession && stage != next ==> stage == Stage::RefreshCache
            &&& next == Stage::Execute && stage != next ==> stage == Stage::StartSession
            &&& next == Stage::Finished && stage != next ==> stage == Stage::Execute
            &&& is_final(stage) ==> next == stage
        }),
{
}

/// With the `validate` flag set, the caller is asked for their password
/// whatever the policy requires and whatever the cache holds.
pub proof fn lemma_validate_always_authenticates(valid: bool)
    ensures
        run_spec(Stage::CheckPolicy, RunEvent::Policy(Ok(false)), true) == Stage::Authenticate,
        run_spec(Stage::CheckPolicy, RunEvent::Policy(Ok(true)), true) == Stage::CheckCache,
        run_spec(Stage::CheckCache, RunEvent::Cache { valid }, true) == Stage::Authenticate,
{
}

/// Without the `validate` flag, the caller is asked exactly where the
/// policy requires a password and the cache holds no authentication that
/// counts; else the invocation goes on to refresh the cache.
pub proof fn lemma_password_asked_when_needed(valid: bool)
    ensures
        run_spec(Stage::CheckPolicy, RunEvent::Policy(Ok(false)), false) == Stage::RefreshCache,
        run_spec(Stage::CheckPolicy, RunEvent::Policy(Ok(true)), false) == Stage::CheckCache,
        run_spec(Stage::CheckCache, RunEvent::Cache { valid }, false) == (if valid {
            Stage::RefreshCache
        } else {
            Stage::Authenticate
        }),
{
}

/// The cache is refreshed after every successful authentication and
/// whenever none was needed; a refresh that fails ends the invocation
/// before the command is run.
pub proof fn lemma_cache_refresh(validate: bool)
    ensures
        run_spec(Stage::Authenticate, RunEvent::Authenticated(Ok(())), validate)
            == Stage::RefreshCache,
        run_spec(Stage::RefreshCache, RunEvent::CacheRefreshed { ok: true }, validate)
            == Stage::StartSession,
        run_spec(Stage::RefreshCache, RunEvent::CacheRefreshed { ok: false }, validate)
            == Stage::Terminated,
{
}

} // verus!
