use rudo::config::Config;
use rudo::error::RudoError;
use rudo::invocation::{execute, run, ExecPlan, RunEvent, Stage};
use rudo::request::App;

fn request(user: Option<&str>, cmd: Option<Vec<&str>>, background: bool) -> App {
    App {
        background,
        user: user.map(|u| u.to_string()),
        validate: false,
        cmd: cmd.map(|tokens| tokens.into_iter().map(|t| t.to_string()).collect()),
    }
}

fn follow(events: &[RunEvent], validate: bool) -> Vec<Stage> {
    let mut stage = Stage::CheckPolicy;
    let mut seen = vec![stage];
    for event in events {
        stage = run(stage, *event, validate);
        seen.push(stage);
    }
    seen
}

#[test]
fn policy_denial_aborts_before_any_later_step() {
    let events = [
        RunEvent::Policy(Err(RudoError::PermissionDenied)),
        RunEvent::Cache { valid: true },
        RunEvent::Authenticated(Ok(())),
        RunEvent::CacheRefreshed { ok: true },
        RunEvent::SessionStarted,
        RunEvent::Executed(Ok(())),
    ];
    let aborted = Stage::Aborted(RudoError::PermissionDenied);
    assert_eq!(
        follow(&events, false),
        vec![Stage::CheckPolicy, aborted, aborted, aborted, aborted, aborted, aborted]
    );
}

#[test]
fn uncached_required_password_is_asked_for() {
    let events = [
        RunEvent::Policy(Ok(true)),
        RunEvent::Cache { valid: false },
        RunEvent::Authenticated(Ok(())),
        RunEvent::CacheRefreshed { ok: true },
        RunEvent::SessionStarted,
        RunEvent::Executed(Ok(())),
    ];
    assert_eq!(
        follow(&events, false),
        vec![
            Stage::CheckPolicy,
            Stage::CheckCache,
            Stage::Authenticate,
            Stage::RefreshCache,
            Stage::StartSession,
            Stage::Execute,
            Stage::Finished,
        ]
    );
}

#[test]
fn valid_cache_skips_the_prompt_but_is_refreshed() {
    let events = [RunEvent::Policy(Ok(true)), RunEvent::Cache { valid: true }];
    assert_eq!(
        follow(&events, false),
        vec![Stage::CheckPolicy, Stage::CheckCache, Stage::RefreshCache]
    );
    assert_eq!(
        follow(&[RunEvent::Policy(Ok(false))], false),
        vec![Stage::CheckPolicy, Stage::RefreshCache]
    );
}

#[test]
fn validate_flag_asks_despite_cache_and_policy() {
    let events = [RunEvent::Policy(Ok(true)), RunEvent::Cache { valid: true }];
    assert_eq!(
        follow(&events, true),
        vec![Stage::CheckPolicy, Stage::CheckCache, Stage::Authenticate]
    );
    assert_eq!(
        follow(&[RunEvent::Policy(Ok(false))], true),
        vec![Stage::CheckPolicy, Stage::Authenticate]
    );
}

#[test]
fn failed_authentication_aborts() {
    assert_eq!(
        run(
            Stage::Authenticate,
            RunEvent::Authenticated(Err(RudoError::AuthenticationError)),
            false
        ),
        Stage::Aborted(RudoError::AuthenticationError)
    );
}

#[test]
fn failed_cache_write_terminates() {
    assert_eq!(
        run(Stage::RefreshCache, RunEvent::CacheRefreshed { ok: false }, false),
        Stage::Terminated
    );
    assert_eq!(run(Stage::Terminated, RunEvent::SessionStarted, false), Stage::Terminated);
}

#[test]
fn failed_execution_is_reported() {
    assert_eq!(
        run(Stage::Execute, RunEvent::Executed(Err(RudoError::NoCommandSpecified)), true),
        Stage::Aborted(RudoError::NoCommandSpecified)
    );
}

#[test]
fn steps_are_not_skipped() {
    assert_eq!(run(Stage::CheckPolicy, RunEvent::Executed(Ok(())), false), Stage::CheckPolicy);
    assert_eq!(run(Stage::CheckCache, RunEvent::SessionStarted, false), Stage::CheckCache);
    assert_eq!(
        run(Stage::RefreshCache, RunEvent::Authenticated(Ok(())), false),
        Stage::RefreshCache
    );
    assert_eq!(run(Stage::StartSession, RunEvent::Policy(Ok(false)), false), Stage::StartSession);
    assert_eq!(run(Stage::Execute, RunEvent::Cache { valid: true }, false), Stage::Execute);
    assert_eq!(run(Stage::Finished, RunEvent::Policy(Ok(true)), false), Stage::Finished);
}

#[test]
fn plan_runs_command_as_requested_account() {
    let app = request(Some("bob"), Some(vec!["cat", "-n", "file"]), true);
    assert_eq!(
        execute(&app, "/bin/cat".to_string()),
        Ok(ExecPlan {
            run_as: "bob".to_string(),
            program: "/bin/cat".to_string(),
            arguments: vec!["-n".to_string(), "file".to_string()],
            background: true,
        })
    );
}

#[test]
fn plan_defaults_to_root_and_no_arguments() {
    let app = request(None, Some(vec!["id"]), false);
    assert_eq!(
        execute(&app, "id".to_string()),
        Ok(ExecPlan {
            run_as: "root".to_string(),
            program: "id".to_string(),
            arguments: vec![],
            background: false,
        })
    );
    assert_eq!(app.alias(), "root");
    assert_eq!(app.program(), Some("id"));
}

#[test]
fn plan_without_command_is_refused() {
    assert_eq!(
        execute(&request(None, None, false), String::new()),
        Err(RudoError::NoCommandSpecified)
    );
    assert_eq!(
        execute(&request(None, Some(vec![]), false), String::new()),
        Err(RudoError::NoCommandSpecified)
    );
    assert_eq!(request(None, Some(vec![]), false).program(), None);
    assert_eq!(request(None, None, false).program(), None);
}

#[test]
fn standard_places_and_limits() {
    let config = Config::standard();
    assert_eq!(config.rudoers_path, "/etc/rudoers.toml");
    assert_eq!(config.auth_service, "system-auth");
    assert_eq!(config.retries, 3);
    assert_eq!(config.auth_cache_duration, 900);
    assert_eq!(config.auth_cache_dir("4242"), "/var/db/rudo/cache/auth/4242");
    assert_eq!(config.auth_cache_file("4242", "root"), "/var/db/rudo/cache/auth/4242/root");
    assert_eq!(config.session_marker("4242"), "/var/db/rudo/cache/session/4242");
}
