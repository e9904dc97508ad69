use audiobookbay::auth::SessionCheck;
use audiobookbay::progress::{nothing_found, Progress};

const TERMINAL: Progress = Progress { quiet: false, is_terminal: true };
const FILE: Progress = Progress { quiet: false, is_terminal: false };

#[test]
fn what_is_said_of_a_search() {
    assert_eq!(FILE.searching(1, 1), "Searching... ");
    assert_eq!(TERMINAL.searching(2, 12), "Searching page 2/12... ");
    assert_eq!(FILE.found(0), "0 results\n");
    assert_eq!(TERMINAL.found(17), "17 results\n");
    assert_eq!(nothing_found("dune x"), "No results found for: dune x\n");
}

#[test]
fn what_is_said_of_details() {
    assert_eq!(TERMINAL.fetching(3, 20), "\rFetching details (3/20)... ");
    assert_eq!(FILE.fetching(3, 20), "");
    assert_eq!(TERMINAL.detail_failed("timed out"), "\r  Detail fetch failed: timed out\n");
    assert_eq!(FILE.detail_failed("timed out"), "  Detail fetch failed: timed out\n");
    assert_eq!(TERMINAL.fetched(20), format!("\rFetched 20 details.{}\n", " ".repeat(20)));
    assert_eq!(FILE.fetched(20), "Fetched 20 details.\n");
    assert_eq!(FILE.fetched(0), "");
    assert_eq!(TERMINAL.fetched(0), "");
}

#[test]
fn what_is_said_of_torrent_files() {
    assert_eq!(TERMINAL.saved("x/a.torrent"), "\r  Saved: x/a.torrent\n");
    assert_eq!(FILE.saved("x/a.torrent"), "  Saved: x/a.torrent\n");
    assert_eq!(TERMINAL.torrent_failed("e"), "\r  Torrent download failed: e\n");
    assert_eq!(FILE.torrent_failed("e"), "  Torrent download failed: e\n");
}

#[test]
fn what_is_said_of_the_session() {
    assert_eq!(FILE.checking(), "Checking session... ");
    assert_eq!(FILE.checked(SessionCheck::Valid), "ok\n");
    assert_eq!(TERMINAL.checked(SessionCheck::Expired), "expired\n");
    assert_eq!(TERMINAL.checked(SessionCheck::Failed), "failed\n");
    assert_eq!(TERMINAL.logging_in(), "Logging in... ");
    assert_eq!(FILE.logged_in(), "ok\n");
    assert_eq!(FILE.retrying(1, 3, 2, "timed out"), "  retry 2/3 in 2s: timed out\n");
}

#[test]
fn a_quiet_program_says_nothing() {
    for is_terminal in [false, true] {
        let quiet = Progress { quiet: true, is_terminal };
        assert_eq!(quiet.checking(), "");
        assert_eq!(quiet.checked(SessionCheck::Valid), "");
        assert_eq!(quiet.logging_in(), "");
        assert_eq!(quiet.logged_in(), "");
        assert_eq!(quiet.retrying(0, 3, 1, "x"), "");
        assert_eq!(quiet.searching(1, 2), "");
        assert_eq!(quiet.found(3), "");
        assert_eq!(quiet.fetching(1, 2), "");
        assert_eq!(quiet.saved("x"), "");
        assert_eq!(quiet.torrent_failed("x"), "");
        assert_eq!(quiet.detail_failed("x"), "");
        assert_eq!(quiet.fetched(2), "");
    }
}
