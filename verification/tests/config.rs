use audiobookbay::config::{
    config_dir, config_path, load_config, query_of, resolve_base_url, session_path, Config,
    ConfigNotFound, PathPart,
};

fn text(s: &str) -> Option<String> {
    Some(s.to_string())
}

fn config(username: &str, password: &str, base_url: Option<&str>) -> Config {
    Config {
        username: username.to_string(),
        password: password.to_string(),
        base_url: base_url.map(String::from),
    }
}

#[test]
fn the_file_alone() {
    let file = Some(config("u", "p", Some("https://x")));
    assert_eq!(load_config(file, None, None), Ok(config("u", "p", Some("https://x"))));
}

#[test]
fn the_environment_overrides_the_file() {
    let file = || Some(config("u", "p", Some("https://x")));
    assert_eq!(load_config(file(), text("v"), None), Ok(config("v", "p", Some("https://x"))));
    assert_eq!(load_config(file(), None, text("q")), Ok(config("u", "q", Some("https://x"))));
    assert_eq!(load_config(file(), text("v"), text("")), Ok(config("v", "", Some("https://x"))));
}

#[test]
fn the_environment_alone() {
    assert_eq!(load_config(None, text("v"), text("q")), Ok(config("v", "q", None)));
    assert_eq!(load_config(None, text("v"), None), Err(ConfigNotFound));
    assert_eq!(load_config(None, None, text("q")), Err(ConfigNotFound));
    assert_eq!(load_config(None, None, None), Err(ConfigNotFound));
}

#[test]
fn what_a_missing_configuration_says() {
    assert_eq!(
        ConfigNotFound.message("/c/config.toml", "/c"),
        "Config not found at /c/config.toml\n\nCreate it:\n  mkdir -p /c\n  cat > /c/config.toml << 'EOF'\n  \
         username = \"your_username\"\n  password = \"your_password\"\n  \
         # base_url = \"https://audiobookbay.nl\"\n  EOF\n\n\
         Or set AUDIOBOOKBAY_USER / AUDIOBOOKBAY_PASS / AUDIOBOOKBAY_URL env vars."
    );
}

#[test]
fn paths_of_the_program() {
    let name = |s: &str| PathPart::Name(s.to_string());
    assert_eq!(config_dir(true), [PathPart::ConfigHome, name("audiobookbay")]);
    assert_eq!(config_dir(false), [name(".config"), name("audiobookbay")]);
    assert_eq!(
        config_path(true),
        [PathPart::ConfigHome, name("audiobookbay"), name("config.toml")]
    );
    assert_eq!(session_path(true), [PathPart::ConfigHome, name("audiobookbay"), name("session")]);
    assert_eq!(session_path(false), [name(".config"), name("audiobookbay"), name("session")]);
}

#[test]
fn the_site() {
    assert_eq!(resolve_base_url(None, None), "https://audiobookbay.lu");
    assert_eq!(resolve_base_url(None, text("https://a.nl/")), "https://a.nl");
    assert_eq!(resolve_base_url(text("https://b.is"), text("https://a.nl")), "https://b.is");
    assert_eq!(resolve_base_url(text("https://b.is/x///"), None), "https://b.is/x");
    assert_eq!(resolve_base_url(text("///"), None), "");
    assert_eq!(resolve_base_url(text(""), text("https://a.nl")), "");
}

#[test]
fn the_query() {
    let words = |w: &[&str]| w.iter().map(|s| s.to_string()).collect::<Vec<String>>();
    assert_eq!(query_of(&words(&["dune", "frank  herbert"])), text("dune frank  herbert"));
    assert_eq!(query_of(&words(&["dune"])), text("dune"));
    assert_eq!(query_of(&words(&[""])), text(""));
    assert_eq!(query_of(&words(&[])), None);
}
