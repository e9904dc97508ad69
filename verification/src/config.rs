//! Where the settings come from.

use vstd::prelude::*;
use vstd::string::*;

use crate::text::{all_in, contains, law_text_contains_its_parts, lemma_strip_end_of, starts_with};
use crate::text::{law_joined_parts_can_be_told_apart, law_joined_parts_stand_in_order};
use crate::text::split_at_char;
use crate::text::{chars_of, join_strings, joined, lemma_strip_end_last, string_of, string_views};
use crate::text::{strip_end, strip_end_chars, text_view, CharClass};

verus! {

/// The user's settings.
#[derive(Debug, PartialEq, Eq)]
pub struct Config {
    pub username: String,
    pub password: String,
    /// The site to use instead of the usual one.
    pub base_url: Option<String>,
}

/// The model of a [`Config`].
#[verifier::ext_equal]
pub struct ConfigView {
    pub username: Seq<char>,
    pub password: Seq<char>,
    pub base_url: Option<Seq<char>>,
}

impl View for Config {
    type V = ConfigView;

    open spec fn view(&self) -> ConfigView {
        ConfigView {
            username: self.username@,
            password: self.password@,
            base_url: text_view(self.base_url),
        }
    }
}

/// The model of optional settings.
pub open spec fn config_view(c: Option<Config>) -> Option<ConfigView> {
    match c {
        Some(c) => Some(c@),
        None => None,
    }
}

/// There is no configuration file, and the environment does not name both user and password.
#[derive(Clone, Copy, PartialEq, Eq, Structural, Debug)]
pub struct ConfigNotFound;

impl ConfigNotFound {
    /// What the user is told.
    pub open spec fn text(self, path: Seq<char>, dir: Seq<char>) -> Seq<char> {
        "Config not found at "@ + path + "\n\nCreate it:\n  mkdir -p "@ + dir + "\n  cat > "@ + path
            + " << 'EOF'\n  username = \"your_username\"\n  password = \"your_password\"\n  # base_url = \"https://audiobookbay.nl\"\n  EOF\n\nOr set AUDIOBOOKBAY_USER / AUDIOBOOKBAY_PASS / AUDIOBOOKBAY_URL env vars."@
    }

    /// What the user is told, given where the file and its directory would be.
    pub fn message(&self, path: &str, dir: &str) -> (r: String)
        ensures
            r@ == self.text(path@, dir@),
    {
        let mut m = "Config not found at ".to_owned();
        m.append(path);
        m.append("\n\nCreate it:\n  mkdir -p ");
        m.append(dir);
        m.append("\n  cat > ");
        m.append(path);
        m.append(
            " << 'EOF'\n  username = \"your_username\"\n  password = \"your_password\"\n  # base_url = \"https://audiobookbay.nl\"\n  EOF\n\nOr set AUDIOBOOKBAY_USER / AUDIOBOOKBAY_PASS / AUDIOBOOKBAY_URL env vars.",
        );
        m
    }
}

/// `value`, or `other` where there is none.
pub open spec fn or_else(value: Option<Seq<char>>, other: Seq<char>) -> Seq<char> {
    match value {
        Some(s) => s,
        None => other,
    }
}

/// The settings: those of the file, where there is one, with the user and the password that the
/// environment names in the place of its own. Without a file the environment has to name both.
pub open spec fn settings(
    file: Option<ConfigView>,
    user: Option<Seq<char>>,
    pass: Option<Seq<char>>,
) -> Result<ConfigView, ConfigNotFound> {
    match file {
        Some(c) => Ok(
            ConfigView {
                username: or_else(user, c.username),
                password: or_else(pass, c.password),
                base_url: c.base_url,
            },
        ),
        None => match (user, pass) {
            (Some(username), Some(password)) => Ok(
                ConfigView { username, password, base_url: None },
            ),
            _ => Err(ConfigNotFound),
        },
    }
}

/// The model of the outcome of a search for settings.
pub open spec fn settings_view(r: Result<Config, ConfigNotFound>) -> Result<
    ConfigView,
    ConfigNotFound,
> {
    match r {
        Ok(c) => Ok(c@),
        Err(e) => Err(e),
    }
}

/// The settings, from the configuration file, where it could be read, and from the user and the
/// password that the environment names.
pub fn load_config(file: Option<Config>, user: Option<String>, pass: Option<String>) -> (r: Result<
    Config,
    ConfigNotFound,
>)
    ensures
        settings_view(r) == settings(config_view(file), text_view(user), text_view(pass)),
{
    let config = match file {
        Some(c) => Config {
            username: match user {
                Some(u) => u,
                None => c.username,
            },
            password: match pass {
                Some(p) => p,
                None => c.password,
            },
            base_url: c.base_url,
        },
        None => match (user, pass) {
            (Some(username), Some(password)) => Config { username, password, base_url: None },
            _ => return Err(ConfigNotFound),
        },
    };
    assert(settings(config_view(file), text_view(user), text_view(pass))->Ok_0 =~= config@);
    Ok(config)
}

/// What the environment names counts for more than what the file says, of each setting alone.
pub proof fn law_environment_overrides_file(
    file: ConfigView,
    user: Option<Seq<char>>,
    pass: Option<Seq<char>>,
)
    ensures
        settings(Some(file), user, pass) matches Ok(c) && c.username == or_else(user, file.username)
            && c.password == or_else(pass, file.password) && c.base_url == file.base_url,
{
}

/// A part of a path.
#[derive(Debug, PartialEq, Eq)]
pub enum PathPart {
    /// The directory in which the platform keeps the user's settings.
    ConfigHome,
    /// A name.
    Name(String),
}

/// The model of a [`PathPart`].
#[verifier::ext_equal]
pub enum PathPartView {
    ConfigHome,
    Name(Seq<char>),
}

impl View for PathPart {
    type V = PathPartView;

    open spec fn view(&self) -> PathPartView {
        match self {
            PathPart::ConfigHome => PathPartView::ConfigHome,
            PathPart::Name(s) => PathPartView::Name(s@),
        }
    }
}

/// The models of the parts of a path.
pub open spec fn path_views(path: Seq<PathPart>) -> Seq<PathPartView> {
    path.map_values(|p: PathPart| p@)
}

/// The program's own directory: below the platform's, or below `.config` where the platform has
/// none.
pub open spec fn config_dir_path(has_config_home: bool) -> Seq<PathPartView> {
    seq![
        if has_config_home {
            PathPartView::ConfigHome
        } else {
            PathPartView::Name(".config"@)
        },
        PathPartView::Name("audiobookbay"@),
    ]
}

/// The program's own directory.
pub fn config_dir(has_config_home: bool) -> (r: Vec<PathPart>)
    ensures
        path_views(r@) == config_dir_path(has_config_home),
{
    let mut path: Vec<PathPart> = Vec::new();
    if has_config_home {
        path.push(PathPart::ConfigHome);
    } else {
        path.push(PathPart::Name(".config".to_owned()));
    }
    path.push(PathPart::Name("audiobookbay".to_owned()));
    assert(path_views(path@) =~= config_dir_path(has_config_home));
    path
}

/// The file with the user's settings.
pub open spec fn config_file_path(has_config_home: bool) -> Seq<PathPartView> {
    config_dir_path(has_config_home).push(PathPartView::Name("config.toml"@))
}

/// The file with the saved session.
pub open spec fn session_file_path(has_config_home: bool) -> Seq<PathPartView> {
    config_dir_path(has_config_home).push(PathPartView::Name("session"@))
}

/// The file with the user's settings.
pub fn config_path(has_config_home: bool) -> (r: Vec<PathPart>)
    ensures
        path_views(r@) == config_file_path(has_config_home),
        path_views(r@) == config_dir_path(has_config_home).push(
            PathPartView::Name("config.toml"@),
        ),
{
    let mut path = config_dir(has_config_home);
    let ghost dir = path@;
    path.push(PathPart::Name("config.toml".to_owned()));
    assert(path_views(path@) =~= path_views(dir).push(PathPartView::Name("config.toml"@)));
    path
}

/// The file with the saved session.
pub fn session_path(has_config_home: bool) -> (r: Vec<PathPart>)
    ensures
        path_views(r@) == session_file_path(has_config_home),
        path_views(r@) == config_dir_path(has_config_home).push(PathPartView::Name("session"@)),
{
    let mut path = config_dir(has_config_home);
    let ghost dir = path@;
    path.push(PathPart::Name("session".to_owned()));
    assert(path_views(path@) =~= path_views(dir).push(PathPartView::Name("session"@)));
    path
}

/// The site: the one that the command line names, else the one that the settings name, else the
/// usual one, without the slashes at its end.
pub open spec fn site(cli: Option<Seq<char>>, config: Option<Seq<char>>) -> Seq<char> {
    strip_end(or_else(cli, or_else(config, "https://audiobookbay.lu"@)), CharClass::Only('/'))
}

/// The site that the command line or the settings name, or the usual one.
pub fn resolve_base_url(cli: Option<String>, config: Option<String>) -> (r: String)
    ensures
        r@ == site(text_view(cli), text_view(config)),
{
    let url = match cli {
        Some(url) => url,
        None => match config {
            Some(url) => url,
            None => "https://audiobookbay.lu".to_owned(),
        },
    };
    string_of(strip_end_chars(&chars_of(url.as_str()), CharClass::Only('/')))
}

/// The address of the site never ends with a slash, so a path can be put behind it.
pub proof fn law_site_has_no_trailing_slash(cli: Option<Seq<char>>, config: Option<Seq<char>>)
    ensures
        site(cli, config).len() > 0 ==> site(cli, config).last() != '/',
{
    lemma_strip_end_last(
        or_else(cli, or_else(config, "https://audiobookbay.lu"@)),
        CharClass::Only('/'),
    );
}

/// What is searched for: the words of the command line with blanks between them. Without a word
/// there is nothing to search for.
pub open spec fn query_text(words: Seq<Seq<char>>) -> Option<Seq<char>> {
    if words.len() == 0 {
        None
    } else {
        Some(joined(words, " "@))
    }
}

/// What is searched for: the words of the command line with blanks between them. Without a word
/// there is nothing to search for.
pub fn query_of(words: &Vec<String>) -> (r: Option<String>)
    ensures
        text_view(r) == query_text(string_views(words@)),
        words@.len() == 0 ==> r is None,
        words@.len() > 0 ==> text_view(r) == Some(joined(string_views(words@), " "@)),
{
    if words.len() == 0 {
        None
    } else {
        Some(join_strings(words, " "))
    }
}

/// The settings come from the environment where it names them, each on its own, and otherwise from
/// the file, whole. Without a file the environment has to name both, and then no site is named.
pub proof fn law_settings_come_from_environment_or_file(
    file: ConfigView,
    user: Seq<char>,
    pass: Seq<char>,
)
    ensures
        settings(Some(file), None, None) == Ok::<ConfigView, ConfigNotFound>(file),
        settings(Some(file), Some(user), None) == Ok::<ConfigView, ConfigNotFound>(
            ConfigView { username: user, ..file },
        ),
        settings(Some(file), None, Some(pass)) == Ok::<ConfigView, ConfigNotFound>(
            ConfigView { password: pass, ..file },
        ),
        settings(Some(file), Some(user), Some(pass)) == Ok::<ConfigView, ConfigNotFound>(
            ConfigView { username: user, password: pass, ..file },
        ),
        settings(None, Some(user), Some(pass)) == Ok::<ConfigView, ConfigNotFound>(
            ConfigView { username: user, password: pass, base_url: None },
        ),
        settings(None, Some(user), None) is Err,
        settings(None, None, Some(pass)) is Err,
        settings(None, None, None) is Err,
{
}

/// The site that the command line names counts before the one that the settings name, and that
/// before the usual one. It loses the slashes at its end and nothing else.
pub proof fn law_site_loses_only_slashes(
    url: Seq<char>,
    slashes: Seq<char>,
    other: Option<Seq<char>>,
)
    requires
        url.len() > 0 ==> url.last() != '/',
        forall|i: int| 0 <= i < slashes.len() ==> #[trigger] slashes[i] == '/',
    ensures
        site(Some(url + slashes), other) == url,
        site(None, Some(url + slashes)) == url,
        site(None, None) == "https://audiobookbay.lu"@,
{
    let class = CharClass::Only('/');
    assert(all_in(slashes, class)) by {
        assert forall|i: int| 0 <= i < slashes.len() implies class.has(#[trigger] slashes[i]) by {}
    }
    lemma_strip_end_of(url, slashes, class);
    reveal_strlit("https://audiobookbay.lu");
    assert("https://audiobookbay.lu"@.last() == 'u');
}

/// The user is told where the file should be: its path stands in the message, and the directory
/// that has to be made for it.
pub proof fn law_missing_file_is_named(path: Seq<char>, dir: Seq<char>)
    ensures
        starts_with(ConfigNotFound.text(path, dir), "Config not found at "@ + path + "\n"@),
        contains(ConfigNotFound.text(path, dir), "mkdir -p "@ + dir + "\n"@),
        contains(ConfigNotFound.text(path, dir), "cat > "@ + path + " "@),
{
    let text = ConfigNotFound.text(path, dir);
    let a = "Config not found at "@ + path;
    let b = "\n\nCreate it:\n  mkdir -p "@;
    let c = "\n  cat > "@;
    let d =
        " << 'EOF'\n  username = \"your_username\"\n  password = \"your_password\"\n  # base_url = \"https://audiobookbay.nl\"\n  EOF\n\nOr set AUDIOBOOKBAY_USER / AUDIOBOOKBAY_PASS / AUDIOBOOKBAY_URL env vars."@;
    reveal_strlit("\n\nCreate it:\n  mkdir -p ");
    reveal_strlit("\n  cat > ");
    reveal_strlit(
        " << 'EOF'\n  username = \"your_username\"\n  password = \"your_password\"\n  # base_url = \"https://audiobookbay.nl\"\n  EOF\n\nOr set AUDIOBOOKBAY_USER / AUDIOBOOKBAY_PASS / AUDIOBOOKBAY_URL env vars.",
    );
    reveal_strlit("\n");
    reveal_strlit(" ");
    reveal_strlit("mkdir -p ");
    reveal_strlit("cat > ");
    assert(text =~= a + b + dir + c + path + d);
    assert(b =~= "\n"@ + b.skip(1));
    law_text_contains_its_parts(
        Seq::empty(),
        a + "\n"@,
        b.skip(1) + dir + c + path + d,
    );
    assert(text =~= (a + "\n"@) + (b.skip(1) + dir + c + path + d));
    assert(b =~= b.take(15) + "mkdir -p "@);
    assert(c =~= "\n"@ + c.skip(1));
    law_text_contains_its_parts(
        a + b.take(15),
        "mkdir -p "@ + dir + "\n"@,
        c.skip(1) + path + d,
    );
    assert(text =~= a + b.take(15) + ("mkdir -p "@ + dir + "\n"@) + (c.skip(1) + path + d));
    assert(c =~= c.take(3) + "cat > "@);
    assert(d =~= " "@ + d.skip(1));
    law_text_contains_its_parts(
        a + b + dir + c.take(3),
        "cat > "@ + path + " "@,
        d.skip(1),
    );
    assert(text =~= a + b + dir + c.take(3) + ("cat > "@ + path + " "@) + d.skip(1));
}

/// What is searched for is all the words of the command line, in their order, with one blank
/// between them: one word stands alone, one more comes behind a blank, and words without blanks can
/// be told apart again.
pub proof fn law_query_has_every_word(words: Seq<Seq<char>>, word: Seq<char>)
    ensures
        query_text(Seq::empty()) is None,
        query_text(seq![word]) == Some(word),
        words.len() > 0 ==> query_text(words) is Some && query_text(words.push(word)) == Some(
            query_text(words)->0 + seq![' '] + word,
        ),
        words.len() > 0 && (forall|i: int, j: int|
            0 <= i < words.len() && 0 <= j < words[i].len() ==> #[trigger] words[i][j] != ' ')
            ==> split_at_char(query_text(words)->0, ' ') == words,
{
    reveal_strlit(" ");
    assert(" "@ =~= seq![' ']);
    law_joined_parts_stand_in_order(words, word, seq![' ']);
    if words.len() > 0 && (forall|i: int, j: int|
        0 <= i < words.len() && 0 <= j < words[i].len() ==> #[trigger] words[i][j] != ' ') {
        law_joined_parts_can_be_told_apart(words, ' ');
    }
}

/// The files of the program stand in its own directory below the platform's, or below `.config`
/// where the platform has none.
pub proof fn law_files_stand_in_the_program_directory(has_config_home: bool)
    ensures
        ({
            let home = if has_config_home {
                PathPartView::ConfigHome
            } else {
                PathPartView::Name(".config"@)
            };
            let dir = PathPartView::Name("audiobookbay"@);
            &&& config_dir_path(has_config_home) == seq![home, dir]
            &&& config_file_path(has_config_home) == seq![
                home,
                dir,
                PathPartView::Name("config.toml"@),
            ]
            &&& session_file_path(has_config_home) == seq![
                home,
                dir,
                PathPartView::Name("session"@),
            ]
        }),
{
    let dir = config_dir_path(has_config_home);
    assert(config_file_path(has_config_home) =~= seq![
        dir[0],
        dir[1],
        PathPartView::Name("config.toml"@),
    ]);
    assert(session_file_path(has_config_home) =~= seq![
        dir[0],
        dir[1],
        PathPartView::Name("session"@),
    ]);
}

} // verus!
