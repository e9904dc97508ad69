use audiobookbay::torrent::{filename_from_title, torrent_filename};

fn text(s: &str) -> Option<String> {
    Some(s.to_string())
}

const UNIX: bool = false;
const WINDOWS: bool = true;

/// The file name where the site gives `name`, in quotes, and the title is `Dune`.
fn given(name: &str, windows: bool) -> String {
    let bare = torrent_filename(text(&format!("filename={}", name)), "Dune", windows);
    let header = text(&format!("attachment; filename=\"{}\"", name));
    assert_eq!(torrent_filename(header.clone(), "Dune", windows), bare);
    bare
}

#[test]
fn the_site_names_the_file() {
    for windows in [UNIX, WINDOWS] {
        assert_eq!(given("Emma.torrent", windows), "Emma.torrent");
        assert_eq!(given("a b.torrent", windows), "a b.torrent");
        assert_eq!(given("Emma: A Novel.torrent", windows), "Emma: A Novel.torrent");
        assert_eq!(given("...torrent", windows), "...torrent");
        assert_eq!(given("./x", windows), "./x");
        assert_eq!(given(".//./x", windows), ".//./x");
        let header = text("filename=\"a\"; filename=\"b\"");
        assert_eq!(torrent_filename(header, "x", windows), "a\"; ");
    }
}

#[test]
fn a_name_that_leads_elsewhere_is_passed_over() {
    let names = [
        "../x", "/x", "//x", "a/b", "a/../x", "./a/b", "../../etc/passwd", "./../x", "/", "x/..",
    ];
    for name in names {
        assert_eq!(given(name, UNIX), "Dune.torrent", "{:?}", name);
        assert_eq!(given(name, WINDOWS), "Dune.torrent", "{:?}", name);
    }
}

#[test]
fn windows_has_more_ways_elsewhere() {
    let names = ["..\\x", "\\x", "a\\b", "a\\../x", "C:x", "c:\\x", "\\\\host\\x", "a:b", "..\\"];
    for name in names {
        let expected = if name == "..\\" { name } else { "Dune.torrent" };
        assert_eq!(given(name, WINDOWS), expected, "{:?}", name);
    }
    for name in ["..\\x", "\\x", "a\\b", "C:x", "a:b", "..\\"] {
        assert_eq!(given(name, UNIX), name);
    }
    assert_eq!(given(".\\x", WINDOWS), ".\\x");
    assert_eq!(given("1:x", WINDOWS), "1:x");
}

#[test]
fn a_name_under_which_no_file_can_be_is_kept() {
    for name in ["", ".", "..", "./..", "x/", "a\0b"] {
        assert_eq!(given(name, UNIX), name);
        assert_eq!(given(name, WINDOWS), name);
    }
}

#[test]
fn a_torrent_file_stands_in_its_directory() {
    let dir = std::path::Path::new("some/dir");
    let windows = std::path::is_separator('\\');
    let names = ["../x", "/x", "a/b", "..", "./x", "x", "a: b", "a\\b", "C:x", ".//x", "a/../x"];
    for name in names {
        for title in ["Dune", "", "..", "../x", "/x", "a\\b"] {
            let header = text(&format!("filename={}", name));
            let path = dir.join(torrent_filename(header, title, windows));
            assert_eq!(path.parent(), Some(dir), "{:?} {:?}", name, title);
        }
    }
}

#[test]
fn the_title_names_the_file() {
    assert_eq!(torrent_filename(None, "Dune", UNIX), "Dune.torrent");
    assert_eq!(torrent_filename(text("attachment"), "Dune", WINDOWS), "Dune.torrent");
    assert_eq!(filename_from_title(" Dune: Part-1 / é\u{1f4d6} "), "Dune_ Part-1 _ é_.torrent");
    assert_eq!(filename_from_title("  "), ".torrent");
    assert_eq!(filename_from_title("../../etc/passwd"), "______etc_passwd.torrent");
    assert_eq!(filename_from_title("\tx\n"), "_x_.torrent");
}

#[test]
fn every_character_is_kept_or_replaced() {
    let all: String = (0..=0x10ffffu32).filter_map(char::from_u32).collect();
    let expected: String = all
        .chars()
        .map(|c| if c.is_alphanumeric() || c == ' ' || c == '-' { c } else { '_' })
        .collect();
    assert_eq!(filename_from_title(&all), format!("{}.torrent", expected.trim()));
}

#[test]
fn a_file_name_made_of_a_title_stays_in_its_directory() {
    let name = filename_from_title("a/b\\c:d..e\0");
    assert_eq!(name, "a_b_c_d__e_.torrent");
}
