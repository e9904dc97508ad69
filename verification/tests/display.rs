use audiobookbay::display::{display, Output};
use audiobookbay::results::Audiobook;

fn book(title: &str, size: &str, format: &str, lang: &str, magnet: &str) -> Audiobook {
    Audiobook {
        title: title.to_string(),
        detail_url: "/x".to_string(),
        format: format.to_string(),
        size: size.to_string(),
        lang: lang.to_string(),
        magnet: magnet.to_string(),
        torrent_url: "y".to_string(),
    }
}

#[test]
fn no_results() {
    let shown = display(&[]);
    assert_eq!(shown, Output { out: String::new(), err: "No results found.\n".to_string() });
}

#[test]
fn a_book_with_everything() {
    let shown = display(&[book("Dune", "1 GB", "MP3", "English", "magnet:?x")]);
    assert_eq!(shown.out, "Dune\n  size=1 GB format=MP3 lang=English\n  magnet:?x\n\n");
    assert_eq!(shown.err, "");
}

#[test]
fn books_with_less() {
    assert_eq!(display(&[book("Dune", "", "", "", "")]).out, "Dune\n\n");
    assert_eq!(display(&[book("Dune", "", "MP3", "", "")]).out, "Dune\n  format=MP3\n\n");
    assert_eq!(display(&[book("Dune", "1", "", "en", "m")]).out, "Dune\n  size=1 lang=en\n  m\n\n");
}

#[test]
fn books_are_written_one_by_one() {
    let a = || book("A", "1", "", "", "m");
    let b = || book("B", "", "", "", "");
    let both = display(&[a(), b()]).out;
    assert_eq!(both, format!("{}{}", display(&[a()]).out, display(&[b()]).out));
    assert_eq!(both, "A\n  size=1\n  m\n\nB\n\n");
}
