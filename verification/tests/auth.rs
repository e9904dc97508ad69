use audiobookbay::auth::{
    after_check, check_session, first_step, start_auth, step_after_check, step_after_login,
    AuthAction, HomeReply, SessionCheck,
};
use audiobookbay::progress::Progress;

const LOUD: Progress = Progress { quiet: false, is_terminal: false };
const QUIET: Progress = Progress { quiet: true, is_terminal: true };

fn text(s: &str) -> Option<String> {
    Some(s.to_string())
}

/// What is said and done by a run whose home page is answered with `reply` and whose login opens
/// the session `new`.
fn run(
    progress: &Progress,
    force_login: bool,
    saved: Option<String>,
    reply: fn() -> HomeReply,
) -> (String, Vec<String>) {
    let mut said = String::new();
    let mut done = Vec::new();
    let mut step = first_step(progress, force_login, saved);
    loop {
        said.push_str(&step.text);
        step = match step.action {
            AuthAction::CheckSession(session) => {
                done.push(format!("check {}", session));
                step_after_check(progress, session, reply())
            }
            AuthAction::LogIn => {
                done.push("log in".to_string());
                step_after_login(progress, "new".to_string())
            }
            AuthAction::UseSession(session) => {
                done.push(format!("use {}", session));
                return (said, done);
            }
        };
    }
}

#[test]
fn the_first_step() {
    assert_eq!(start_auth(false, text("abc")), AuthAction::CheckSession("abc".to_string()));
    assert_eq!(start_auth(true, text("abc")), AuthAction::LogIn);
    assert_eq!(start_auth(false, text(" ")), AuthAction::LogIn);
    assert_eq!(start_auth(false, None), AuthAction::LogIn);
}

#[test]
fn what_the_home_page_says() {
    assert_eq!(check_session(HomeReply::Unreachable), SessionCheck::Failed);
    assert_eq!(check_session(HomeReply::Page(None)), SessionCheck::Expired);
    assert_eq!(check_session(HomeReply::Page(text("Log in"))), SessionCheck::Expired);
    assert_eq!(check_session(HomeReply::Page(text("member/logout"))), SessionCheck::Valid);
    assert_eq!(SessionCheck::Valid.message(), "ok");
    assert_eq!(SessionCheck::Expired.message(), "expired");
    assert_eq!(SessionCheck::Failed.message(), "failed");
}

#[test]
fn a_saved_session_is_used_only_if_good() {
    let session = "abc".to_string();
    let used = AuthAction::UseSession("abc".to_string());
    assert_eq!(after_check(session.clone(), SessionCheck::Valid), used);
    assert_eq!(after_check(session.clone(), SessionCheck::Expired), AuthAction::LogIn);
    assert_eq!(after_check(session, SessionCheck::Failed), AuthAction::LogIn);
}

#[test]
fn a_good_session_is_used() {
    let (said, done) = run(&LOUD, false, text("abc"), || HomeReply::Page(text("member/logout")));
    assert_eq!(said, "Checking session... ok\n");
    assert_eq!(done, ["check abc", "use abc"]);
}

#[test]
fn a_bad_session_leads_to_a_login() {
    let (said, done) = run(&LOUD, false, text("abc"), || HomeReply::Page(None));
    assert_eq!(said, "Checking session... expired\nLogging in... ok\n");
    assert_eq!(done, ["check abc", "log in", "use new"]);
    let (said, done) = run(&LOUD, false, text("abc"), || HomeReply::Unreachable);
    assert_eq!(said, "Checking session... failed\nLogging in... ok\n");
    assert_eq!(done, ["check abc", "log in", "use new"]);
}

#[test]
fn a_login_that_is_wanted_comes_first() {
    let good = || HomeReply::Page(text("member/logout"));
    for (force_login, saved) in [(true, text("abc")), (false, None), (false, text(" "))] {
        let (said, done) = run(&LOUD, force_login, saved, good);
        assert_eq!(said, "Logging in... ok\n");
        assert_eq!(done, ["log in", "use new"]);
    }
}

#[test]
fn a_quiet_login_does_the_same() {
    for force_login in [false, true] {
        for saved in [None, text("abc")] {
            let replies: [fn() -> HomeReply; 3] = [
                || HomeReply::Unreachable,
                || HomeReply::Page(None),
                || HomeReply::Page(text("You are logged in")),
            ];
            for reply in replies {
                let loud = run(&LOUD, force_login, saved.clone(), reply);
                let quiet = run(&QUIET, force_login, saved.clone(), reply);
                assert_eq!(quiet.0, "");
                assert_ne!(loud.0, "");
                assert_eq!(quiet.1, loud.1);
            }
        }
    }
}
