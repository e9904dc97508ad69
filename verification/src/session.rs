//! Logging in, and the session that a login opens.

use vstd::prelude::*;
use vstd::slice::slice_subrange;
use vstd::string::*;

use crate::encoding::{law_encoded_text_is_url_safe, urlencoded, urlencoding};
use crate::text::{all_in, is_stripped, law_trim_leaves_the_middle, CharClass};
use crate::text::{before, before_chars, chars_of, contains, contains_str, first_at};
use crate::text::{lemma_find, lemma_split_one, lemma_split_step, occurs_at, split_at_char};
use crate::text::{starts_with, starts_with_str, string_of, text_view, trim, trim_str};

verus! {

/// The page is one that only a user who is logged in gets to see.
pub open spec fn shows_login(html: Seq<char>) -> bool {
    contains(html, "member/logout"@) || contains(html, "You are logged in"@)
}

/// Whether the page is one that only a user who is logged in gets to see.
pub fn is_logged_in(html: &str) -> (r: bool)
    ensures
        r == shows_login(html@),
{
    contains_str(html, "member/logout") || contains_str(html, "You are logged in")
}

/// The session in a saved file: its content, where that is not blank.
pub open spec fn usable_session(content: Option<Seq<char>>) -> Option<Seq<char>> {
    match content {
        Some(s) => if trim(s).len() == 0 {
            None
        } else {
            Some(s)
        },
        None => None,
    }
}

/// The session in a saved file with the given content.
pub fn load_session(content: Option<String>) -> (r: Option<String>)
    ensures
        text_view(r) == usable_session(text_view(content)),
{
    match content {
        Some(s) => if trim_str(s.as_str()).as_str().is_empty() {
            None
        } else {
            Some(s)
        },
        None => None,
    }
}

/// The cookie that carries a session.
pub open spec fn cookie_of(session: Seq<char>) -> Seq<char> {
    "PHPSESSID="@ + session
}

/// The cookie that carries `session`.
pub fn session_cookie(session: &str) -> (r: String)
    ensures
        r@ == cookie_of(session@),
{
    let mut cookie = "PHPSESSID=".to_owned();
    cookie.append(session);
    cookie
}

/// The address that a login is sent to.
pub open spec fn login_address(base_url: Seq<char>) -> Seq<char> {
    base_url + "/member/login.php"@
}

/// The address that a login is sent to.
pub fn login_url(base_url: &str) -> (r: String)
    ensures
        r@ == login_address(base_url@),
{
    let mut url = base_url.to_owned();
    url.append("/member/login.php");
    url
}

/// The address of the home page.
pub open spec fn home_address(base_url: Seq<char>) -> Seq<char> {
    base_url + "/"@
}

/// The address of the home page.
pub fn home_url(base_url: &str) -> (r: String)
    ensures
        r@ == home_address(base_url@),
        r@ == base_url@ + "/"@,
{
    let mut url = base_url.to_owned();
    url.append("/");
    url
}

/// The form that a login sends.
pub open spec fn login_form(username: Seq<char>, password: Seq<char>) -> Seq<char> {
    "username="@ + urlencoded(username) + "&password="@ + urlencoded(password)
}

/// The form that a login sends.
pub fn login_body(username: &str, password: &str) -> (r: String)
    ensures
        r@ == login_form(username@, password@),
{
    let mut body = "username=".to_owned();
    body.append(urlencoding(username).as_str());
    body.append("&password=");
    body.append(urlencoding(password).as_str());
    body
}

/// A login sends its two fields and nothing else, whatever characters they hold.
pub proof fn law_login_form_has_its_fields(username: Seq<char>, password: Seq<char>)
    ensures
        split_at_char(login_form(username, password), '&') == seq![
            "username="@ + urlencoded(username),
            "password="@ + urlencoded(password),
        ],
{
    let user = "username="@ + urlencoded(username);
    let pass = "password="@ + urlencoded(password);
    reveal_strlit("username=");
    reveal_strlit("&password=");
    reveal_strlit("password=");
    law_encoded_text_is_url_safe(username);
    law_encoded_text_is_url_safe(password);
    assert("&password="@ =~= seq!['&'] + "password="@);
    assert(login_form(username, password) =~= user + seq!['&'] + pass);
    assert forall|i: int| 0 <= i < user.len() implies #[trigger] user[i] != '&' by {
        if i >= 9 {
            assert(user[i] == urlencoded(username)[i - 9]);
        }
    }
    assert forall|i: int| 0 <= i < pass.len() implies #[trigger] pass[i] != '&' by {
        if i >= 9 {
            assert(pass[i] == urlencoded(password)[i - 9]);
        }
    }
    lemma_split_step(user, '&', pass);
    lemma_split_one(pass, '&');
}

/// The models of the values of the `Set-Cookie` headers of a reply. A value that is no text has
/// none.
pub open spec fn header_views(headers: Seq<Option<String>>) -> Seq<Option<Seq<char>>> {
    headers.map_values(|h: Option<String>| text_view(h))
}

/// The header sets the session cookie.
pub open spec fn sets_session(header: Option<Seq<char>>) -> bool {
    header matches Some(h) && starts_with(h, "PHPSESSID="@)
}

/// The session that a header sets: the cookie's value, without the attributes behind it.
pub open spec fn session_in_header(header: Seq<char>) -> Seq<char> {
    before(header.skip("PHPSESSID="@.len() as int), ";"@)
}

/// The session that the headers of a reply set. Where several do, the first one counts.
pub open spec fn session_in(headers: Seq<Option<Seq<char>>>) -> Option<Seq<char>>
    decreases headers.len(),
{
    if headers.len() == 0 {
        None
    } else if sets_session(headers[0]) {
        Some(session_in_header(headers[0]->0))
    } else {
        session_in(headers.skip(1))
    }
}

/// The session that the `Set-Cookie` headers of a reply set.
pub fn session_from_headers(headers: &Vec<Option<String>>) -> (r: Option<String>)
    ensures
        text_view(r) == session_in(header_views(headers@)),
{
    let ghost all = header_views(headers@);
    let mut i: usize = 0;
    assert(all.skip(0) =~= all);
    while i < headers.len()
        invariant
            all == header_views(headers@),
            i <= headers@.len(),
            session_in(all.skip(i as int)) == session_in(all),
        decreases headers.len() - i,
    {
        assert(all.skip(i as int)[0] == text_view(headers@[i as int]));
        assert(all.skip(i as int).skip(1) =~= all.skip(i + 1));
        if let Some(header) = &headers[i] {
            if starts_with_str(header.as_str(), "PHPSESSID=") {
                let chars = chars_of(header.as_str());
                let from: usize = chars_of("PHPSESSID=").len();
                assert(chars@.subrange(from as int, chars@.len() as int) =~= chars@.skip(
                    from as int,
                ));
                let value = slice_subrange(&chars, from, chars.len());
                return Some(string_of(before_chars(value, &chars_of(";"))));
            }
        }
        i += 1;
    }
    None
}

/// The session that a header sets is the one that the session cookie then carries: what stands
/// between the name and the first semicolon, with or without attributes behind it.
pub proof fn law_header_gives_session_back(session: Seq<char>, attributes: Seq<char>)
    requires
        forall|i: int| 0 <= i < session.len() ==> #[trigger] session[i] != ';',
    ensures
        session_in(seq![Some(cookie_of(session))]) == Some(session),
        session_in(seq![Some(cookie_of(session) + ";"@ + attributes)]) == Some(session),
{
    let n = "PHPSESSID="@.len() as int;
    let bare = cookie_of(session);
    let full = bare + ";"@ + attributes;
    reveal_strlit(";");
    assert(bare.subrange(0, n) =~= "PHPSESSID="@);
    assert(full.subrange(0, n) =~= "PHPSESSID="@);
    assert(bare.skip(n) =~= session);
    assert(full.skip(n) =~= session + ";"@ + attributes);
    lemma_find(session, ";"@);
    assert forall|i: int| !occurs_at(session, ";"@, i) by {
        if occurs_at(session, ";"@, i) {
            assert(session.subrange(i, i + 1)[0] == ';');
        }
    }
    let value = session + ";"@ + attributes;
    let m = session.len() as int;
    lemma_find(value, ";"@);
    assert(value.subrange(m, m + 1) =~= ";"@);
    assert forall|i: int| 0 <= i < m implies !occurs_at(value, ";"@, i) by {
        if occurs_at(value, ";"@, i) {
            assert(value.subrange(i, i + 1)[0] == ';');
            assert(value[i] == session[i]);
        }
    }
    assert(first_at(value, ";"@, m));
    assert(value.take(m) =~= session);
}

/// Why a login failed.
#[derive(Clone, Copy, PartialEq, Eq, Structural, Debug)]
pub enum LoginError {
    /// The site shows the login form again.
    BadCredentials,
    /// The reply sets no session.
    NoSession,
}

impl LoginError {
    /// What the user is told.
    pub open spec fn text(self, config_path: Seq<char>, status: Seq<char>) -> Seq<char> {
        match self {
            LoginError::BadCredentials => "Login failed — check credentials in "@ + config_path,
            LoginError::NoSession => "Login failed — no session cookie received (status "@
                + status + ")"@,
        }
    }

    /// What the user is told, given where the configuration is and the status of the reply.
    pub fn message(&self, config_path: &str, status: &str) -> (r: String)
        ensures
            r@ == self.text(config_path@, status@),
    {
        match self {
            LoginError::BadCredentials => {
                let mut m = "Login failed — check credentials in ".to_owned();
                m.append(config_path);
                m
            },
            LoginError::NoSession => {
                let mut m = "Login failed — no session cookie received (status ".to_owned();
                m.append(status);
                m.append(")");
                m
            },
        }
    }
}

/// What the headers of the reply to a login say.
#[derive(Debug, PartialEq, Eq)]
pub enum LoginStep {
    /// The login has opened this session.
    LoggedIn(String),
    /// The body of the reply decides; this session was set, if any.
    ReadBody(Option<String>),
}

/// The status of a reply that sends the user elsewhere.
pub open spec fn is_redirection(status: u16) -> bool {
    300 <= status < 400
}

/// The session, where there is one and it is not empty.
pub open spec fn nonempty_session(session: Option<Seq<char>>) -> Option<Seq<char>> {
    match session {
        Some(s) => if s.len() == 0 {
            None
        } else {
            Some(s)
        },
        None => None,
    }
}

/// What the headers of the reply to a login say: a login that worked sets a session and redirects.
pub fn login_step(headers: &Vec<Option<String>>, status: u16) -> (r: LoginStep)
    ensures
        ({
            let session = session_in(header_views(headers@));
            match r {
                LoginStep::LoggedIn(s) => is_redirection(status) && nonempty_session(session)
                    == Some(s@),
                LoginStep::ReadBody(s) => !(is_redirection(status) && nonempty_session(
                    session,
                ) is Some) && text_view(s) == session,
            }
        }),
{
    let session = session_from_headers(headers);
    match session {
        Some(s) => if !s.as_str().is_empty() && 300 <= status && status < 400 {
            LoginStep::LoggedIn(s)
        } else {
            LoginStep::ReadBody(Some(s))
        },
        None => LoginStep::ReadBody(None),
    }
}

/// The page asks for the credentials again.
pub open spec fn rejects_login(html: Seq<char>) -> bool {
    contains(html, "Wrong username or password"@) || contains(html, "login-input"@)
}

/// The text of a page, or nothing where it could not be read.
pub open spec fn body_text(body: Option<Seq<char>>) -> Seq<char> {
    match body {
        Some(html) => html,
        None => Seq::empty(),
    }
}

/// What the body of the reply to a login decides.
pub open spec fn decided_by_body(session: Option<Seq<char>>, body: Option<Seq<char>>) -> Result<
    Seq<char>,
    LoginError,
> {
    if rejects_login(body_text(body)) {
        Err(LoginError::BadCredentials)
    } else {
        match nonempty_session(session) {
            Some(s) => Ok(s),
            None => Err(LoginError::NoSession),
        }
    }
}

/// The outcome of a login.
pub open spec fn login_outcome(
    headers: Seq<Option<Seq<char>>>,
    status: u16,
    body: Option<Seq<char>>,
) -> Result<Seq<char>, LoginError> {
    match nonempty_session(session_in(headers)) {
        Some(s) => if is_redirection(status) {
            Ok(s)
        } else {
            decided_by_body(Some(s), body)
        },
        None => decided_by_body(None, body),
    }
}

/// The model of the outcome of a login.
pub open spec fn outcome_view(r: Result<String, LoginError>) -> Result<Seq<char>, LoginError> {
    match r {
        Ok(s) => Ok(s@),
        Err(e) => Err(e),
    }
}

/// What the body of the reply to a login decides, where `session` was set.
pub fn finish_login(session: Option<String>, body: Option<String>) -> (r: Result<
    String,
    LoginError,
>)
    ensures
        outcome_view(r) == decided_by_body(text_view(session), text_view(body)),
{
    let html = match body {
        Some(html) => html,
        None => String::new(),
    };
    if contains_str(html.as_str(), "Wrong username or password") || contains_str(
        html.as_str(),
        "login-input",
    ) {
        return Err(LoginError::BadCredentials);
    }
    match session {
        Some(s) => if s.as_str().is_empty() {
            Err(LoginError::NoSession)
        } else {
            Ok(s)
        },
        None => Err(LoginError::NoSession),
    }
}

/// The outcome of a login whose reply is at hand as a whole.
pub fn login(headers: &Vec<Option<String>>, status: u16, body: Option<String>) -> (r: Result<
    String,
    LoginError,
>)
    ensures
        outcome_view(r) == login_outcome(header_views(headers@), status, text_view(body)),
{
    match login_step(headers, status) {
        LoginStep::LoggedIn(s) => Ok(s),
        LoginStep::ReadBody(session) => finish_login(session, body),
    }
}

/// A login that opens a session opens the one that the headers set, and it is not empty.
pub proof fn law_login_opens_the_session_that_was_set(
    headers: Seq<Option<Seq<char>>>,
    status: u16,
    body: Option<Seq<char>>,
)
    ensures
        login_outcome(headers, status, body) matches Ok(s) ==> session_in(headers) == Some(s)
            && s.len() > 0,
{
}

/// Without a redirect, a page that asks for the credentials again is a refusal, whatever session
/// the reply sets.
pub proof fn law_login_form_means_refusal(
    headers: Seq<Option<Seq<char>>>,
    status: u16,
    body: Option<Seq<char>>,
)
    requires
        !is_redirection(status),
        rejects_login(body_text(body)),
    ensures
        login_outcome(headers, status, body) == Err::<Seq<char>, LoginError>(
            LoginError::BadCredentials,
        ),
{
}

/// A page shows a login exactly where it holds `member/logout` or `You are logged in`.
pub proof fn law_login_is_shown_by_two_texts(html: Seq<char>)
    ensures
        contains(html, "member/logout"@) ==> shows_login(html),
        contains(html, "You are logged in"@) ==> shows_login(html),
        !contains(html, "member/logout"@) && !contains(html, "You are logged in"@)
            ==> !shows_login(html),
{
}

/// A saved session is the whole content of its file, unless that is nothing but whitespace.
pub proof fn law_saved_session_is_the_whole_file(
    w1: Seq<char>,
    middle: Seq<char>,
    w2: Seq<char>,
)
    requires
        all_in(w1, CharClass::Whitespace),
        all_in(w2, CharClass::Whitespace),
        is_stripped(middle, CharClass::Whitespace),
    ensures
        middle.len() > 0 ==> usable_session(Some(w1 + middle + w2)) == Some(w1 + middle + w2),
        middle.len() == 0 ==> usable_session(Some(w1 + middle + w2)) is None,
        usable_session(None) is None,
{
    law_trim_leaves_the_middle(w1, middle, w2, CharClass::Whitespace);
}

/// A session travels whole behind the name of its cookie, and a login goes to the login page of the
/// site.
pub proof fn law_session_travels_whole(session: Seq<char>, base_url: Seq<char>)
    ensures
        cookie_of(session).len() == 10 + session.len(),
        starts_with(cookie_of(session), "PHPSESSID="@),
        cookie_of(session).skip(10) == session,
        login_address(base_url) == base_url + "/member/login.php"@,
{
    reveal_strlit("PHPSESSID=");
    assert(cookie_of(session).subrange(0, 10) =~= "PHPSESSID="@);
    assert(cookie_of(session).skip(10) =~= session);
}

/// The session is what the first header that begins with `PHPSESSID=` has between that and a
/// semicolon, or the end. Headers that begin otherwise, or are no text, set none.
pub proof fn law_first_session_header_counts(
    earlier: Seq<Option<Seq<char>>>,
    session: Seq<char>,
    rest: Seq<char>,
    later: Seq<Option<Seq<char>>>,
)
    requires
        forall|i: int|
            0 <= i < earlier.len() ==> (#[trigger] earlier[i] matches Some(h) ==> !starts_with(
                h,
                "PHPSESSID="@,
            )),
        forall|i: int| 0 <= i < session.len() ==> #[trigger] session[i] != ';',
        rest.len() > 0 ==> rest[0] == ';',
    ensures
        session_in(earlier) is None,
        session_in(earlier + seq![Some("PHPSESSID="@ + session + rest)] + later) == Some(session),
    decreases earlier.len(),
{
    let header = "PHPSESSID="@ + session + rest;
    let all = earlier + seq![Some(header)] + later;
    if earlier.len() > 0 {
        let fewer = earlier.skip(1);
        assert(all[0] == earlier[0]);
        assert(all.skip(1) =~= fewer + seq![Some(header)] + later);
        assert forall|i: int| 0 <= i < fewer.len() implies (#[trigger] fewer[i] matches Some(h)
            ==> !starts_with(h, "PHPSESSID="@)) by {
            assert(fewer[i] == earlier[i + 1]);
        }
        law_first_session_header_counts(fewer, session, rest, later);
    } else {
        let n = "PHPSESSID="@.len() as int;
        assert(all[0] == Some(header));
        assert(header.subrange(0, n) =~= "PHPSESSID="@);
        assert(header.skip(n) =~= session + rest);
        reveal_strlit(";");
        if rest.len() > 0 {
            assert(rest =~= ";"@ + rest.skip(1));
            assert(session + rest =~= session + seq![';'] + rest.skip(1));
            assert(";"@ =~= seq![';']);
            let value = session + rest;
            let m = session.len() as int;
            lemma_find(value, ";"@);
            assert(value.subrange(m, m + 1) =~= ";"@);
            assert forall|i: int| 0 <= i < m implies !occurs_at(value, ";"@, i) by {
                if occurs_at(value, ";"@, i) {
                    assert(value.subrange(i, i + 1)[0] == ';');
                    assert(value[i] == session[i]);
                }
            }
            assert(first_at(value, ";"@, m));
            assert(value.take(m) =~= session);
        } else {
            assert(session + rest =~= session);
            lemma_find(session, ";"@);
            assert forall|i: int| !occurs_at(session, ";"@, i) by {
                if occurs_at(session, ";"@, i) {
                    assert(session.subrange(i, i + 1)[0] == ';');
                }
            }
        }
    }
}

/// A login works where the reply sets a session that is not empty, and either redirects or has a
/// body that holds neither `Wrong username or password` nor `login-input`. It then gives that
/// session. A body that holds one of the two texts means that the credentials are wrong, and any
/// other failure that there is no session. A body that could not be read holds no text.
pub proof fn law_login_works_with_a_session(
    headers: Seq<Option<Seq<char>>>,
    status: u16,
    body: Option<Seq<char>>,
)
    ensures
        ({
            let session = session_in(headers);
            let has_session = session is Some && session->0.len() > 0;
            let refused = body is Some && (contains(body->0, "Wrong username or password"@)
                || contains(body->0, "login-input"@));
            let by_body = if refused {
                Err::<Seq<char>, LoginError>(LoginError::BadCredentials)
            } else if has_session {
                Ok(session->0)
            } else {
                Err(LoginError::NoSession)
            };
            &&& decided_by_body(session, body) == by_body
            &&& has_session && 300 <= status <= 399 ==> login_outcome(headers, status, body)
                == Ok::<Seq<char>, LoginError>(session->0)
            &&& !has_session || status < 300 || 399 < status ==> login_outcome(
                headers,
                status,
                body,
            ) == by_body
        }),
{
    let none = Seq::<char>::empty();
    reveal_strlit("Wrong username or password");
    reveal_strlit("login-input");
    assert(!contains(none, "Wrong username or password"@));
    assert(!contains(none, "login-input"@));
}

/// The home page stands at the site itself, behind one slash.
pub proof fn law_home_page_is_the_site(base_url: Seq<char>)
    ensures
        home_address(base_url).len() == base_url.len() + 1,
        starts_with(home_address(base_url), base_url),
        home_address(base_url).last() == '/',
{
    reveal_strlit("/");
    assert(home_address(base_url).subrange(0, base_url.len() as int) =~= base_url);
}

/// The user is told why a login failed: where the credentials stand, or what the status of the
/// reply was, each as a whole.
pub proof fn law_failed_login_is_explained(config_path: Seq<char>, status: Seq<char>)
    ensures
        LoginError::BadCredentials.text(config_path, status)
            == "Login failed — check credentials in "@ + config_path,
        LoginError::NoSession.text(config_path, status)
            == "Login failed — no session cookie received (status "@ + status + ")"@,
{
}

} // verus!
