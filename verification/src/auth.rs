//! How a run gets its session: one that was saved, if it is still good, or a new login.

use vstd::prelude::*;
use vstd::string::*;

use crate::progress::Progress;
use crate::session::{body_text, is_logged_in, load_session, shows_login, usable_session};
use crate::text::{all_in, contains, is_stripped, law_trim_leaves_the_middle, text_view, CharClass};

verus! {

/// What is to be done next to get a session.
#[derive(Debug, PartialEq, Eq)]
pub enum AuthAction {
    /// Fetch the home page with this session, to see whether it is still good.
    CheckSession(String),
    /// Log in, and save the session.
    LogIn,
    /// Go on with this session.
    UseSession(String),
}

/// The model of an [`AuthAction`].
#[verifier::ext_equal]
pub enum AuthActionView {
    CheckSession(Seq<char>),
    LogIn,
    UseSession(Seq<char>),
}

impl View for AuthAction {
    type V = AuthActionView;

    open spec fn view(&self) -> AuthActionView {
        match self {
            AuthAction::CheckSession(s) => AuthActionView::CheckSession(s@),
            AuthAction::LogIn => AuthActionView::LogIn,
            AuthAction::UseSession(s) => AuthActionView::UseSession(s@),
        }
    }
}

/// The reply to the request for the home page.
#[derive(Debug, PartialEq, Eq)]
pub enum HomeReply {
    /// There was none.
    Unreachable,
    /// The page, or nothing where it could not be read.
    Page(Option<String>),
}

/// What a look at the home page says of a saved session.
#[derive(Clone, Copy, PartialEq, Eq, Structural, Debug)]
pub enum SessionCheck {
    /// The site knows the session.
    Valid,
    /// The site does not know the session any more.
    Expired,
    /// The site could not be asked.
    Failed,
}

impl SessionCheck {
    /// What the user is told.
    pub open spec fn text(self) -> Seq<char> {
        match self {
            SessionCheck::Valid => "ok"@,
            SessionCheck::Expired => "expired"@,
            SessionCheck::Failed => "failed"@,
        }
    }

    /// What the user is told.
    pub fn message(&self) -> (r: String)
        ensures
            r@ == self.text(),
    {
        match self {
            SessionCheck::Valid => "ok".to_owned(),
            SessionCheck::Expired => "expired".to_owned(),
            SessionCheck::Failed => "failed".to_owned(),
        }
    }
}

/// The first thing to do, given the content of the file with the saved session: check that
/// session, or log in where a login is wanted or no session is saved.
pub open spec fn first_action(force_login: bool, saved: Option<Seq<char>>) -> AuthActionView {
    match usable_session(saved) {
        Some(s) => if force_login {
            AuthActionView::LogIn
        } else {
            AuthActionView::CheckSession(s)
        },
        None => AuthActionView::LogIn,
    }
}

/// The first thing to do, given the content of the file with the saved session.
pub fn start_auth(force_login: bool, saved: Option<String>) -> (r: AuthAction)
    ensures
        r@ == first_action(force_login, text_view(saved)),
{
    if force_login {
        return AuthAction::LogIn;
    }
    match load_session(saved) {
        Some(s) => AuthAction::CheckSession(s),
        None => AuthAction::LogIn,
    }
}

/// What the reply to the request for the home page says of the session it was sent with.
pub open spec fn checked(reply: HomeReply) -> SessionCheck {
    match reply {
        HomeReply::Unreachable => SessionCheck::Failed,
        HomeReply::Page(body) => if shows_login(body_text(text_view(body))) {
            SessionCheck::Valid
        } else {
            SessionCheck::Expired
        },
    }
}

/// What the reply to the request for the home page says of the session it was sent with.
pub fn check_session(reply: HomeReply) -> (r: SessionCheck)
    ensures
        r == checked(reply),
{
    match reply {
        HomeReply::Unreachable => SessionCheck::Failed,
        HomeReply::Page(body) => {
            let html = match body {
                Some(html) => html,
                None => String::new(),
            };
            if is_logged_in(html.as_str()) {
                SessionCheck::Valid
            } else {
                SessionCheck::Expired
            }
        },
    }
}

/// What to do once a session has been checked: use it, or log in.
pub open spec fn action_after_check(session: Seq<char>, check: SessionCheck) -> AuthActionView {
    match check {
        SessionCheck::Valid => AuthActionView::UseSession(session),
        SessionCheck::Expired => AuthActionView::LogIn,
        SessionCheck::Failed => AuthActionView::LogIn,
    }
}

/// What to do once `session` has been checked.
pub fn after_check(session: String, check: SessionCheck) -> (r: AuthAction)
    ensures
        r@ == action_after_check(session@, check),
{
    match check {
        SessionCheck::Valid => AuthAction::UseSession(session),
        SessionCheck::Expired => AuthAction::LogIn,
        SessionCheck::Failed => AuthAction::LogIn,
    }
}

/// A step on the way to a session.
#[derive(Debug, PartialEq, Eq)]
pub struct AuthStep {
    /// What the user is told. It is said before a request is sent, and once the session is in use.
    pub text: String,
    /// What is to be done.
    pub action: AuthAction,
}

/// The model of an [`AuthStep`].
#[verifier::ext_equal]
pub struct AuthStepView {
    pub text: Seq<char>,
    pub action: AuthActionView,
}

impl View for AuthStep {
    type V = AuthStepView;

    open spec fn view(&self) -> AuthStepView {
        AuthStepView { text: self.text@, action: self.action@ }
    }
}

/// What the user is told before a request is sent.
pub open spec fn request_text(progress: Progress, action: AuthActionView) -> Seq<char> {
    match action {
        AuthActionView::CheckSession(_) => progress.checking_text(),
        AuthActionView::LogIn => progress.logging_in_text(),
        AuthActionView::UseSession(_) => Seq::empty(),
    }
}

/// The first step.
pub open spec fn step_at_start(
    progress: Progress,
    force_login: bool,
    saved: Option<Seq<char>>,
) -> AuthStepView {
    let action = first_action(force_login, saved);
    AuthStepView { text: request_text(progress, action), action }
}

/// The step after the home page was asked for with a saved session.
pub open spec fn step_past_check(
    progress: Progress,
    session: Seq<char>,
    reply: HomeReply,
) -> AuthStepView {
    let action = action_after_check(session, checked(reply));
    AuthStepView {
        text: progress.checked_text(checked(reply)) + request_text(progress, action),
        action,
    }
}

/// The step after a login that has opened `session`.
pub open spec fn step_past_login(progress: Progress, session: Seq<char>) -> AuthStepView {
    AuthStepView {
        text: progress.logged_in_text(),
        action: AuthActionView::UseSession(session),
    }
}

fn text_before_request(progress: &Progress, action: &AuthAction) -> (r: String)
    ensures
        r@ == request_text(*progress, action@),
{
    match action {
        AuthAction::CheckSession(_) => progress.checking(),
        AuthAction::LogIn => progress.logging_in(),
        AuthAction::UseSession(_) => String::new(),
    }
}

/// The first step, given the content of the file with the saved session.
pub fn first_step(progress: &Progress, force_login: bool, saved: Option<String>) -> (r: AuthStep)
    ensures
        r@ == step_at_start(*progress, force_login, text_view(saved)),
{
    let action = start_auth(force_login, saved);
    AuthStep { text: text_before_request(progress, &action), action }
}

/// The step after the home page was asked for with `session`.
pub fn step_after_check(progress: &Progress, session: String, reply: HomeReply) -> (r: AuthStep)
    ensures
        r@ == step_past_check(*progress, session@, reply),
{
    let check = check_session(reply);
    let action = after_check(session, check);
    let mut text = progress.checked(check);
    text.append(text_before_request(progress, &action).as_str());
    AuthStep { text, action }
}

/// The step after a login that has opened `session`.
pub fn step_after_login(progress: &Progress, session: String) -> (r: AuthStep)
    ensures
        r@ == step_past_login(*progress, session@),
{
    AuthStep { text: progress.logged_in(), action: AuthAction::UseSession(session) }
}

/// The steps of a run, where the home page is answered with `reply` and a login opens the session
/// `fresh`, or fails where that is nothing.
pub open spec fn auth_run(
    progress: Progress,
    force_login: bool,
    saved: Option<Seq<char>>,
    reply: HomeReply,
    fresh: Option<Seq<char>>,
) -> Seq<AuthStepView> {
    let first = step_at_start(progress, force_login, saved);
    let asked = match first.action {
        AuthActionView::CheckSession(s) => seq![first, step_past_check(progress, s, reply)],
        _ => seq![first],
    };
    match (asked.last().action, fresh) {
        (AuthActionView::LogIn, Some(s)) => asked.push(step_past_login(progress, s)),
        _ => asked,
    }
}

/// The session that a run ends with; nothing where it has none.
pub open spec fn session_of_run(run: Seq<AuthStepView>) -> Option<Seq<char>> {
    match run.last().action {
        AuthActionView::UseSession(s) => Some(s),
        _ => None,
    }
}

/// A saved session is used only where no login is wanted, the session is not blank, and the home
/// page shows that it is logged in. In every other case the run logs in, and has a session exactly
/// where that works.
pub proof fn law_saved_session_is_used_only_if_good(
    progress: Progress,
    force_login: bool,
    saved: Option<Seq<char>>,
    reply: HomeReply,
    fresh: Option<Seq<char>>,
)
    ensures
        session_of_run(auth_run(progress, force_login, saved, reply, fresh)) == (if !force_login
            && usable_session(saved) is Some && checked(reply) == SessionCheck::Valid {
            saved
        } else {
            fresh
        }),
{
}

/// A user who wants to hear nothing gets the same session in the same way: the steps of the run
/// are the same, with the same requests, and the program says nothing on the way.
pub proof fn law_quiet_login_is_the_same(
    quiet: Progress,
    other: Progress,
    force_login: bool,
    saved: Option<Seq<char>>,
    reply: HomeReply,
    fresh: Option<Seq<char>>,
)
    requires
        quiet.quiet,
    ensures
        ({
            let a = auth_run(quiet, force_login, saved, reply, fresh);
            let b = auth_run(other, force_login, saved, reply, fresh);
            &&& a.len() == b.len()
            &&& forall|i: int| 0 <= i < a.len() ==> (#[trigger] a[i]).action == b[i].action
            &&& forall|i: int| 0 <= i < a.len() ==> (#[trigger] a[i]).text.len() == 0
            &&& session_of_run(a) == session_of_run(b)
        }),
{
}

/// Where no login is wanted and a session is saved, the home page decides: the run goes on with the
/// whole saved session where the page holds `member/logout` or `You are logged in`, and logs in
/// where it holds neither, could not be read, or did not come.
pub proof fn law_home_page_decides(
    progress: Progress,
    w1: Seq<char>,
    middle: Seq<char>,
    w2: Seq<char>,
    reply: HomeReply,
    fresh: Option<Seq<char>>,
)
    requires
        all_in(w1, CharClass::Whitespace),
        all_in(w2, CharClass::Whitespace),
        is_stripped(middle, CharClass::Whitespace),
        middle.len() > 0,
    ensures
        ({
            let saved = w1 + middle + w2;
            let run = auth_run(progress, false, Some(saved), reply, fresh);
            let known = match reply {
                HomeReply::Unreachable => false,
                HomeReply::Page(page) => match page {
                    Some(html) => contains(html@, "member/logout"@) || contains(
                        html@,
                        "You are logged in"@,
                    ),
                    None => false,
                },
            };
            &&& run.len() >= 2
            &&& run[0].action == AuthActionView::CheckSession(saved)
            &&& known ==> run.len() == 2 && run[1].action == AuthActionView::UseSession(saved)
                && session_of_run(run) == Some(saved)
            &&& !known ==> run[1].action == AuthActionView::LogIn && session_of_run(run) == fresh
            &&& !known && fresh is Some ==> run.len() == 3 && run[2].action
                == AuthActionView::UseSession(fresh->0)
        }),
{
    law_trim_leaves_the_middle(w1, middle, w2, CharClass::Whitespace);
    let none = Seq::<char>::empty();
    reveal_strlit("member/logout");
    reveal_strlit("You are logged in");
    assert(!contains(none, "member/logout"@));
    assert(!contains(none, "You are logged in"@));
}

/// Where a login is wanted, or no session is saved but whitespace, the run logs in at once, without
/// a look at the home page, and goes on with the session that the login opens.
pub proof fn law_login_comes_first_where_it_must(
    progress: Progress,
    force_login: bool,
    saved: Option<Seq<char>>,
    reply: HomeReply,
    fresh: Option<Seq<char>>,
)
    requires
        force_login || saved is None || all_in(saved->0, CharClass::Whitespace),
    ensures
        ({
            let run = auth_run(progress, force_login, saved, reply, fresh);
            &&& run[0].action == AuthActionView::LogIn
            &&& fresh is None ==> run.len() == 1
            &&& fresh is Some ==> run.len() == 2 && run[1].action == AuthActionView::UseSession(
                fresh->0,
            )
            &&& session_of_run(run) == fresh
        }),
{
    if !force_login && saved is Some {
        let none = Seq::<char>::empty();
        law_trim_leaves_the_middle(saved->0, none, none, CharClass::Whitespace);
        assert(saved->0 + none + none =~= saved->0);
    }
}

/// What the user hears of a run that is not quiet: that the session is checked and what came of it,
/// and that the run logs in and that it worked.
pub proof fn law_run_tells_what_it_does(
    progress: Progress,
    force_login: bool,
    saved: Option<Seq<char>>,
    reply: HomeReply,
    fresh: Option<Seq<char>>,
)
    requires
        !progress.quiet,
    ensures
        ({
            let run = auth_run(progress, force_login, saved, reply, fresh);
            let verdict = match reply {
                HomeReply::Unreachable => "failed\n"@,
                HomeReply::Page(_) => "expired\n"@,
            };
            &&& run[0].action is CheckSession ==> run[0].text == "Checking session... "@
            &&& run[0].action is LogIn ==> run[0].text == "Logging in... "@
            &&& run[0].action is CheckSession && run[1].action is UseSession ==> run[1].text
                == "ok\n"@
            &&& run[0].action is CheckSession && run[1].action is LogIn ==> run[1].text == verdict
                + "Logging in... "@
            &&& forall|i: int|
                #![trigger run[i]]
                1 <= i < run.len() && run[i - 1].action is LogIn ==> run[i].text == "ok\n"@
        }),
{
    reveal_strlit("ok");
    reveal_strlit("ok\n");
    reveal_strlit("expired");
    reveal_strlit("expired\n");
    reveal_strlit("failed");
    reveal_strlit("failed\n");
    reveal_strlit("\n");
    assert("ok"@ + "\n"@ =~= "ok\n"@);
    assert("expired"@ + "\n"@ =~= "expired\n"@);
    assert("failed"@ + "\n"@ =~= "failed\n"@);
    assert("ok\n"@ + Seq::<char>::empty() =~= "ok\n"@);
}

} // verus!
