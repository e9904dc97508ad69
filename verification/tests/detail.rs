use audiobookbay::detail::{
    detail_of, find_hash, find_torrent_url, find_trackers, parse_detail_info, resolve_url,
    DetailError, DetailInfo,
};
use audiobookbay::html::{can_parse, Element};

const HASH: &str = "0123456789abcdefABCDEF0123456789abcdef01";
const OTHER: &str = "ffffffffffffffffffffffffffffffffffffffff";

fn cells(texts: &[&str]) -> Vec<Element> {
    texts.iter().map(|t| Element { text: t.to_string(), attr: None }).collect()
}

fn links(hrefs: &[Option<&str>]) -> Vec<Element> {
    hrefs.iter().map(|h| Element { text: String::new(), attr: h.map(String::from) }).collect()
}

#[test]
fn a_detail_page() {
    let html = format!(
        "<table><tr><td>Tracker:</td><td> udp://a:1/announce\n ftp://no\r\nhttp://b/announce </td></tr>\
         <tr><td>Info <b>Hash</b>:</td><td> {} </td></tr>\
         <tr><td>Another Tracker</td><td>https://c</td></tr></table>\
         <a name=x>no</a><a href=\"/other\">no</a><a href=\"/torrent/1\">get</a><a href=\"/y.torrent\">later</a>",
        HASH
    );
    assert_eq!(
        parse_detail_info("https://site", &html),
        Ok(DetailInfo {
            info_hash: HASH.to_string(),
            trackers: vec![
                "udp://a:1/announce".to_string(),
                "http://b/announce".to_string(),
                "https://c".to_string(),
            ],
            torrent_url: "https://site/torrent/1".to_string(),
        })
    );
}

#[test]
fn a_page_without_hash_is_refused() {
    assert_eq!(parse_detail_info("https://site", ""), Err(DetailError::InfoHashNotFound));
    let html = "<table><tr><td>Info Hash</td><td>123</td></tr></table><a href=\"/x.torrent\">x</a>";
    let refused = parse_detail_info("https://site", html);
    assert_eq!(refused, Err(DetailError::InfoHashNotFound));
    assert_eq!(DetailError::InfoHashNotFound.message(), "Info hash not found on detail page");
}

#[test]
fn what_makes_an_info_hash() {
    assert_eq!(find_hash(&cells(&["Info Hash:", HASH])).as_deref(), Some(HASH));
    assert_eq!(find_hash(&cells(&["Info Hash:", &HASH[1..]])), None);
    assert_eq!(find_hash(&cells(&["Info Hash:", &format!("{}0", HASH)])), None);
    assert_eq!(find_hash(&cells(&["Info Hash:", &HASH.replace('0', "g")])), None);
    let wide: String = "é".repeat(20);
    assert_eq!(find_hash(&cells(&["Info Hash:", &wide])), None);
    assert_eq!(find_hash(&cells(&["Hash:", HASH])), None);
    assert_eq!(find_hash(&cells(&["Info Hash:"])), None);
    assert_eq!(find_hash(&cells(&[])), None);
}

#[test]
fn the_last_hash_counts() {
    let all = cells(&["Info Hash", HASH, "x", "Info Hash", OTHER, "Info Hash", "none"]);
    assert_eq!(find_hash(&all).as_deref(), Some(OTHER));
}

#[test]
fn which_cells_name_trackers() {
    assert_eq!(find_trackers(&cells(&["Tracker", "udp://a", "udp://b"])), ["udp://a"]);
    assert!(find_trackers(&cells(&["Tracker Info Hash", "udp://a"])).is_empty());
    assert!(find_trackers(&cells(&["tracker", "udp://a"])).is_empty());
    assert!(find_trackers(&cells(&["Tracker"])).is_empty());
    assert!(find_trackers(&cells(&[])).is_empty());
    let chained = cells(&["Tracker", "Tracker\nudp://a", "udp://b\n\nhttps://c x"]);
    assert_eq!(find_trackers(&chained), ["udp://a", "udp://b", "https://c x"]);
}

#[test]
fn the_first_torrent_link_counts() {
    let all = links(&[None, Some("/a"), Some("https://x/y.torrent?z"), Some("/torrent/1")]);
    assert_eq!(find_torrent_url(&all, "https://site"), "https://x/y.torrent?z");
    assert_eq!(find_torrent_url(&links(&[Some("/dl.torrent")]), "https://s"), "https://s/dl.torrent");
    assert_eq!(find_torrent_url(&links(&[Some("/torrents/"), None]), "https://s"), "");
    assert_eq!(find_torrent_url(&links(&[]), "https://s"), "");
}

#[test]
fn addresses() {
    assert_eq!(resolve_url("https://site", "/abss/x"), "https://site/abss/x");
    assert_eq!(resolve_url("https://site", "http://other/x"), "http://other/x");
    assert_eq!(resolve_url("https://site", "HTTP://x"), "https://siteHTTP://x");
    assert_eq!(resolve_url("https://site", ""), "https://site");
}

#[test]
fn the_parts_of_a_detail_page() {
    let found = detail_of(
        &cells(&["Info Hash", HASH, "Trackers", "udp://a"]),
        &links(&[Some("x.torrent")]),
        "https://site/",
    );
    assert_eq!(
        found,
        Ok(DetailInfo {
            info_hash: HASH.to_string(),
            trackers: vec!["udp://a".to_string()],
            torrent_url: "https://site/x.torrent".to_string(),
        })
    );
    let none = detail_of(&cells(&["Trackers", "udp://a"]), &links(&[Some("x.torrent")]), "s");
    assert_eq!(none, Err(DetailError::InfoHashNotFound));
}

#[test]
fn zero_bytes_and_references_are_read() {
    let html = format!("<table><tr><td>\0&nLt;Info Hash</td><td>{}</td></tr></table>", HASH);
    assert_eq!(parse_detail_info("s", &html).unwrap().info_hash, HASH);
}

#[test]
fn ordinary_pages_can_be_parsed() {
    assert!(can_parse(""));
    assert!(can_parse(&"x".repeat(1_000_000)));
    assert!(can_parse(&"\0".repeat(1_000_000)));
}
