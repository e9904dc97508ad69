use audiobookbay::session::{
    finish_login, home_url, is_logged_in, load_session, login, login_body, login_step, login_url,
    session_cookie, session_from_headers, LoginError, LoginStep,
};

fn text(s: &str) -> Option<String> {
    Some(s.to_string())
}

#[test]
fn pages_of_a_user_who_is_logged_in() {
    assert!(is_logged_in("<a href=\"/member/logout.php\">"));
    assert!(is_logged_in("<p>You are logged in as x"));
    assert!(!is_logged_in("you are logged in"));
    assert!(!is_logged_in(""));
}

#[test]
fn saved_sessions() {
    assert_eq!(load_session(text(" abc\n")), text(" abc\n"));
    assert_eq!(load_session(text(" \n\t")), None);
    assert_eq!(load_session(text("")), None);
    assert_eq!(load_session(None), None);
}

#[test]
fn the_requests_of_a_login() {
    assert_eq!(login_url("https://site"), "https://site/member/login.php");
    assert_eq!(home_url("https://site"), "https://site/");
    assert_eq!(session_cookie("abc"), "PHPSESSID=abc");
    assert_eq!(login_body("me@x", "p&w=1"), "username=me%40x&password=p%26w%3D1");
}

#[test]
fn a_login_form_has_two_fields() {
    let form = login_body("a&b", "c&d=e");
    assert_eq!(form.split('&').collect::<Vec<&str>>(), ["username=a%26b", "password=c%26d%3De"]);
}

#[test]
fn sessions_in_headers() {
    let headers = vec![
        text("other=1; PHPSESSID=no"),
        None,
        text("PHPSESSID=abc; path=/; HttpOnly"),
        text("PHPSESSID=later"),
    ];
    assert_eq!(session_from_headers(&headers), text("abc"));
    assert_eq!(session_from_headers(&vec![text("PHPSESSID=abc")]), text("abc"));
    assert_eq!(session_from_headers(&vec![text("PHPSESSID=; x")]), text(""));
    assert_eq!(session_from_headers(&vec![text("phpsessid=abc"), None]), None);
    assert_eq!(session_from_headers(&vec![]), None);
}

#[test]
fn a_session_comes_back_from_its_header() {
    for s in ["abc", "0=1", ""] {
        assert_eq!(session_from_headers(&vec![Some(session_cookie(s))]), text(s));
        let header = format!("{}; path=/; x", session_cookie(s));
        assert_eq!(session_from_headers(&vec![Some(header)]), text(s));
    }
}

#[test]
fn a_redirect_with_a_session_is_a_login() {
    let headers = vec![text("PHPSESSID=abc; path=/")];
    assert_eq!(login_step(&headers, 302), LoginStep::LoggedIn("abc".to_string()));
    assert_eq!(login_step(&headers, 300), LoginStep::LoggedIn("abc".to_string()));
    assert_eq!(login_step(&headers, 399), LoginStep::LoggedIn("abc".to_string()));
    assert_eq!(login_step(&headers, 200), LoginStep::ReadBody(text("abc")));
    assert_eq!(login_step(&headers, 400), LoginStep::ReadBody(text("abc")));
    assert_eq!(login_step(&vec![text("PHPSESSID=")], 302), LoginStep::ReadBody(text("")));
    assert_eq!(login_step(&vec![], 302), LoginStep::ReadBody(None));
}

#[test]
fn the_body_decides_the_rest() {
    assert_eq!(finish_login(text("abc"), text("<p>Hello")), Ok("abc".to_string()));
    assert_eq!(finish_login(text("abc"), None), Ok("abc".to_string()));
    let wrong = text("Wrong username or password");
    assert_eq!(finish_login(text("abc"), wrong), Err(LoginError::BadCredentials));
    let form = text("<input class=\"login-input\">");
    assert_eq!(finish_login(None, form), Err(LoginError::BadCredentials));
    assert_eq!(finish_login(None, text("")), Err(LoginError::NoSession));
    assert_eq!(finish_login(text(""), text("x")), Err(LoginError::NoSession));
}

#[test]
fn a_whole_login() {
    let headers = vec![text("PHPSESSID=abc")];
    assert_eq!(login(&headers, 302, text("login-input")), Ok("abc".to_string()));
    assert_eq!(login(&headers, 200, text("login-input")), Err(LoginError::BadCredentials));
    assert_eq!(login(&headers, 200, text("x")), Ok("abc".to_string()));
    assert_eq!(login(&vec![], 302, text("x")), Err(LoginError::NoSession));
}

#[test]
fn what_a_failed_login_says() {
    assert_eq!(
        LoginError::BadCredentials.message("/home/x/config.toml", "200 OK"),
        "Login failed — check credentials in /home/x/config.toml"
    );
    assert_eq!(
        LoginError::NoSession.message("/home/x/config.toml", "200 OK"),
        "Login failed — no session cookie received (status 200 OK)"
    );
}
