use audiobookbay::magnet::{fallback_trackers, magnet_from_hash};

const HASH: &str = "0123456789abcdefABCDEF0123456789abcdef01";

#[test]
fn a_magnet_link_names_its_trackers() {
    let trackers = vec!["udp://a:1/announce".to_string(), "http://b/x?y&z".to_string()];
    assert_eq!(
        magnet_from_hash(HASH, "Dune & Co", &trackers),
        "magnet:?xt=urn:btih:0123456789abcdefABCDEF0123456789abcdef01&dn=Dune%20%26%20Co\
         &tr=udp%3A%2F%2Fa%3A1%2Fannounce&tr=http%3A%2F%2Fb%2Fx%3Fy%26z"
    );
}

#[test]
fn fallback_trackers_stand_in() {
    let fallback = fallback_trackers();
    assert_eq!(fallback.len(), 11);
    assert_eq!(fallback[0], "udp://tracker.opentrackr.org:1337/announce");
    assert_eq!(fallback[10], "http://tracker2.dler.org:80/announce");
    let link = magnet_from_hash(HASH, "x", &[]);
    assert_eq!(link, magnet_from_hash(HASH, "x", &fallback));
    assert!(link.starts_with("magnet:?xt=urn:btih:"));
    assert_eq!(link.matches("&tr=").count(), 11);
    assert!(link.ends_with("&tr=http%3A%2F%2Ftracker2.dler.org%3A80%2Fannounce"));
}

#[test]
fn the_parameters_can_be_read_back() {
    let link = magnet_from_hash(HASH, "a&tr=b", &["udp://x&y".to_string()]);
    let parts: Vec<&str> = link.split('&').collect();
    assert_eq!(
        parts,
        [
            "magnet:?xt=urn:btih:0123456789abcdefABCDEF0123456789abcdef01",
            "dn=a%26tr%3Db",
            "tr=udp%3A%2F%2Fx%26y",
        ]
    );
}
