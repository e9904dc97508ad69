use audiobookbay::detail::{parse_detail_info, DetailInfo};
use audiobookbay::fetch::{apply_detail, has_detail_page, wants_torrent, Fetch};
use audiobookbay::magnet::magnet_from_hash;
use audiobookbay::results::Audiobook;

const HASH: &str = "0123456789abcdefABCDEF0123456789abcdef01";

fn book(title: &str) -> Audiobook {
    Audiobook {
        title: title.to_string(),
        detail_url: String::new(),
        format: "MP3".to_string(),
        size: "1 GB".to_string(),
        lang: "English".to_string(),
        magnet: String::new(),
        torrent_url: String::new(),
    }
}

fn linked(title: &str) -> Audiobook {
    Audiobook { detail_url: format!("/{}", title), ..book(title) }
}

fn detail(torrent_url: &str) -> DetailInfo {
    DetailInfo {
        info_hash: HASH.to_string(),
        trackers: vec!["udp://a".to_string()],
        torrent_url: torrent_url.to_string(),
    }
}

fn detailed(title: &str, torrent_url: &str) -> Audiobook {
    Audiobook {
        magnet: magnet_from_hash(HASH, title, &["udp://a".to_string()]),
        torrent_url: torrent_url.to_string(),
        ..linked(title)
    }
}

#[test]
fn details_are_added_to_a_book() {
    let mut b = book("Dune");
    let detail = DetailInfo {
        info_hash: HASH.to_string(),
        trackers: vec!["udp://a".to_string()],
        torrent_url: "https://s/x.torrent".to_string(),
    };
    apply_detail(&mut b, detail);
    let mut expected = book("Dune");
    expected.magnet = magnet_from_hash(HASH, "Dune", &["udp://a".to_string()]);
    expected.torrent_url = "https://s/x.torrent".to_string();
    assert_eq!(b, expected);
}

#[test]
fn which_files_are_wanted() {
    let mut b = book("Dune");
    assert!(!has_detail_page(&b));
    assert!(!wants_torrent(&b, true));
    b.detail_url = "/x".to_string();
    b.torrent_url = "https://s/x.torrent".to_string();
    assert!(has_detail_page(&b));
    assert!(wants_torrent(&b, true));
    assert!(!wants_torrent(&b, false));
}

#[test]
fn every_book_gets_its_own_details() {
    let books = vec![book("a"), linked("b"), book("c"), linked("d"), linked("e"), book("f")];
    let mut fetch = Fetch::new(books, true);
    assert_eq!(fetch.next_book(), Some(1));
    assert!(fetch.add_detail(detail("https://s/b.torrent")));
    assert_eq!(fetch.next_book(), Some(3));
    fetch.skip_book();
    assert_eq!(fetch.next_book(), Some(4));
    assert_eq!(fetch.next_book(), Some(4));
    assert!(!fetch.add_detail(detail("")));
    assert_eq!(fetch.next_book(), None);
    assert_eq!(
        fetch.books,
        [
            book("a"),
            detailed("b", "https://s/b.torrent"),
            book("c"),
            linked("d"),
            detailed("e", ""),
            book("f"),
        ]
    );
}

#[test]
fn without_a_directory_no_file_is_wanted() {
    let mut fetch = Fetch::new(vec![linked("a")], false);
    assert_eq!(fetch.next_book(), Some(0));
    assert!(!fetch.add_detail(detail("https://s/a.torrent")));
    assert_eq!(fetch.next_book(), None);
    assert_eq!(fetch.books, [detailed("a", "https://s/a.torrent")]);
}

#[test]
fn no_books_need_no_details() {
    assert_eq!(Fetch::new(vec![], true).next_book(), None);
    assert_eq!(Fetch::new(vec![book("a"), book("b")], true).next_book(), None);
}

#[test]
fn details_keep_what_was_found() {
    let mut fetch = Fetch::new(vec![linked("a"), book("b")], true);
    assert_eq!(fetch.next_book(), Some(0));
    fetch.add_detail(detail("x"));
    let a = &fetch.books[0];
    assert_eq!((a.title.as_str(), a.size.as_str(), a.format.as_str()), ("a", "1 GB", "MP3"));
    assert_eq!((a.lang.as_str(), a.detail_url.as_str()), ("English", "/a"));
    assert_eq!(fetch.books[1], book("b"));
}

#[test]
fn a_fetched_magnet_can_be_read_back() {
    let html = format!(
        "<table><tr><td>Info Hash</td><td>{}</td></tr><tr><td>Tracker</td><td>udp://a?x&amp;y</td></tr></table>",
        HASH
    );
    let mut b = linked("Dune & Co");
    apply_detail(&mut b, parse_detail_info("https://s", &html).unwrap());
    assert_eq!(
        b.magnet.split('&').collect::<Vec<&str>>(),
        [
            "magnet:?xt=urn:btih:0123456789abcdefABCDEF0123456789abcdef01",
            "dn=Dune%20%26%20Co",
            "tr=udp%3A%2F%2Fa%3Fx%26y",
        ]
    );
}
