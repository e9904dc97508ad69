use audiobookbay::html::{Element, Post};
use audiobookbay::results::{
    book_of, collect_books, format_of, language_of, parse_results, size_of, Audiobook,
};

fn chars(s: &str) -> Vec<char> {
    s.chars().collect()
}

fn element(text: &str, attr: Option<&str>) -> Element {
    Element { text: text.to_string(), attr: attr.map(String::from) }
}

fn post(title: &str) -> Post {
    Post { titles: vec![element(title, None)], infos: vec![], contents: vec![] }
}

fn titles(books: &[Audiobook]) -> Vec<&str> {
    books.iter().map(|b| b.title.as_str()).collect()
}

const PAGE: &str = "<html><body>\
    <div class=\"post\"><div class=\"postTitle\"><h2><a href=\"/abss/dune/\" rel=\"bookmark\"> Dune \
    <b>Messiah</b></a></h2></div>\
    <div class=\"postInfo\">Category: SciFi<br>Language: English<span>Keywords: sand</span></div>\
    <div class=\"postContent\"><p>Posted: 1 Jan<br>Format: <span>M4B</span> / Bitrate: 64<br>\nFile Size: \
    <span>350.5</span> MBs\nmore</p></div></div>\
    <div class=\"post\"><div class=\"postTitle\"><h2><a>  </a></h2></div></div>\
    <div class=\"post\"><p>no title</p></div>\
    <div class=\"post extra\"><div class=\"postTitle\"><h2><a>Emma</a><a href=\"/x\">no</a></h2></div></div>\
    <div class=\"other\"><div class=\"postTitle\"><h2><a>Not a post</a></h2></div></div>\
    </body></html>";

#[test]
fn a_page_of_results() {
    let books = parse_results(PAGE, 20);
    assert_eq!(
        books,
        [
            Audiobook {
                title: "Dune Messiah".to_string(),
                detail_url: "/abss/dune/".to_string(),
                format: "M4B".to_string(),
                size: "350.5 MBs".to_string(),
                lang: "English".to_string(),
                magnet: String::new(),
                torrent_url: String::new(),
            },
            Audiobook {
                title: "Emma".to_string(),
                detail_url: String::new(),
                format: String::new(),
                size: String::new(),
                lang: String::new(),
                magnet: String::new(),
                torrent_url: String::new(),
            },
        ]
    );
}

#[test]
fn no_more_results_than_wanted() {
    assert_eq!(titles(&parse_results(PAGE, 1)), ["Dune Messiah"]);
    assert_eq!(titles(&parse_results(PAGE, 2)), ["Dune Messiah", "Emma"]);
    assert!(parse_results(PAGE, 0).is_empty());
}

#[test]
fn a_smaller_limit_cuts_the_tail() {
    for larger in 0..4 {
        let all = parse_results(PAGE, larger);
        for smaller in 0..=larger {
            let some = parse_results(PAGE, smaller);
            assert_eq!(some.len(), smaller.min(all.len()));
            assert_eq!(some[..], all[..some.len()]);
        }
    }
}

#[test]
fn an_empty_page_has_no_results() {
    assert!(parse_results("", 20).is_empty());
    assert!(parse_results("<p>nothing", 20).is_empty());
}

#[test]
fn the_limit_counts_posts_with_a_title() {
    let posts = vec![post(" "), post("a"), post(""), post("b"), post("c")];
    assert_eq!(titles(&collect_books(&posts, 2)), ["a", "b"]);
    assert_eq!(titles(&collect_books(&posts, 3)), ["a", "b", "c"]);
    assert_eq!(titles(&collect_books(&posts, usize::MAX)), ["a", "b", "c"]);
    assert!(collect_books(&posts, 0).is_empty());
    assert!(collect_books(&vec![], 5).is_empty());
}

#[test]
fn posts_count_one_by_one() {
    let first = titles(&collect_books(&vec![post("a"), post("")], 9)).join(",");
    let second = titles(&collect_books(&vec![post("b"), post("c")], 9)).join(",");
    let both = vec![post("a"), post(""), post("b"), post("c")];
    assert_eq!(titles(&collect_books(&both, 9)).join(","), format!("{},{}", first, second));
}

#[test]
fn a_post_without_a_title_is_no_book() {
    assert!(book_of(&post("")).is_none());
    assert!(book_of(&post(" \u{a0}\n")).is_none());
    assert!(book_of(&Post { titles: vec![], infos: vec![], contents: vec![] }).is_none());
}

#[test]
fn the_first_of_several_parts_counts() {
    let book = book_of(&Post {
        titles: vec![element(" A ", Some("/a")), element("B", Some("/b"))],
        infos: vec![element("Language: Dutch", None), element("Language: German", None)],
        contents: vec![element("Format: MP3 / x", None), element("Format: FLAC / x", None)],
    })
    .unwrap();
    assert_eq!(book.title, "A");
    assert_eq!(book.detail_url, "/a");
    assert_eq!(book.lang, "Dutch");
    assert_eq!(book.format, "MP3");
    assert_eq!(book.size, "");
}

#[test]
fn languages() {
    assert_eq!(language_of(&chars("Category: x Language: EnglishKeywords: a b")), "English");
    assert_eq!(language_of(&chars("Language: Old Norse")), "Old Norse");
    assert_eq!(language_of(&chars("Language: A Language: B")), "A");
    assert_eq!(language_of(&chars("Keywords: Language: X Keywords: Y")), "X");
    assert_eq!(language_of(&chars("Keywords: none")), "");
}

#[test]
fn formats() {
    assert_eq!(format_of(&chars("Format: MP3 / Bitrate: 128 Kbps")), "MP3");
    assert_eq!(format_of(&chars("Format: M4B\nFile Size: 1 GB")), "M4B\nFile Size: 1 GB");
    assert_eq!(format_of(&chars("Format:Format: MP3")), "");
    assert_eq!(format_of(&chars("format: MP3")), "");
}

#[test]
fn sizes() {
    assert_eq!(size_of(&chars("File Size: 350 MBs\r\nPosted")), "350 MBs");
    assert_eq!(size_of(&chars("File Size:\n350 MBs")), "");
    assert_eq!(size_of(&chars("File Size:")), "");
    assert_eq!(size_of(&chars("File Size: 1 GB")), "1 GB");
    assert_eq!(size_of(&chars("Size: 1 GB")), "");
}
