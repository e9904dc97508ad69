use audiobookbay::results::Audiobook;
use audiobookbay::search::{
    answers_search, readable_page, says_nothing_found, search, search_url, Search,
};

fn book(title: &str) -> Audiobook {
    Audiobook {
        title: title.to_string(),
        detail_url: String::new(),
        format: "MP3".to_string(),
        size: "1 GB".to_string(),
        lang: "English".to_string(),
        magnet: String::new(),
        torrent_url: String::new(),
    }
}

fn page(titles: &[&str]) -> String {
    titles
        .iter()
        .map(|t| {
            format!("<div class=\"post\"><div class=\"postTitle\"><h2><a>{}</a></h2></div></div>", t)
        })
        .collect()
}

fn titles(search: &Search) -> Vec<&str> {
    search.results.iter().map(|b| b.title.as_str()).collect()
}

#[test]
fn search_addresses() {
    assert_eq!(search_url("https://s", "dune x", 1), "https://s/?s=dune%20x");
    assert_eq!(search_url("https://s", "dune x", 0), "https://s/?s=dune%20x");
    assert_eq!(search_url("https://s", "dune x", 2), "https://s/page/2/?s=dune%20x");
    assert_eq!(search_url("https://s", "a&b", 120), "https://s/page/120/?s=a%26b");
}

#[test]
fn replies_that_answer_a_search() {
    for n in [0, 1, 2, 10] {
        assert!(answers_search(&search_url("https://s", "dune", n)));
    }
    assert!(answers_search("https://s/?x=1&s=dune"));
    assert!(!answers_search("https://s/"));
    assert!(!answers_search("https://s/?q=dune"));
}

#[test]
fn pages_that_say_that_nothing_was_found() {
    assert!(says_nothing_found("<h1>nothing found</h1>"));
    assert!(says_nothing_found("sorry, no post found."));
    assert!(!says_nothing_found("Nothing Found"));
    assert!(!says_nothing_found(""));
}

#[test]
fn what_is_read_of_a_reply() {
    let url = "https://s/?s=x";
    assert_eq!(search(url, "<p>Dune"), "<p>Dune");
    assert_eq!(search("https://s/", "<p>Dune"), "");
    assert_eq!(search(url, "<h1>NOTHING Found</h1>"), "");
    assert_eq!(search(url, "<h1>No Post Found</h1>"), "");
    let hidden = "<div class=\"post re-ab\" style=\"display:none;\">RHVuZQ==</div>";
    assert_eq!(search(url, hidden), "<div class=\"post\">Dune</div>");
    assert_eq!(readable_page(url, hidden, "x"), "<div class=\"post\">Dune</div>");
    assert_eq!(readable_page(url, hidden, "nothing found"), "");
    assert_eq!(readable_page("https://s/", hidden, "x"), "");
}

#[test]
fn a_search_reads_its_pages() {
    let mut run = Search::new(10, 3);
    assert_eq!(run.next_page(), Some(1));
    assert_eq!(run.read_page(&page(&["a", "b"])), 2);
    assert_eq!(run.next_page(), Some(2));
    assert_eq!(run.read_page(&page(&["c"])), 1);
    assert_eq!(run.next_page(), Some(3));
    assert_eq!(run.read_page(&page(&["d"])), 1);
    assert_eq!(run.next_page(), None);
    assert_eq!(titles(&run), ["a", "b", "c", "d"]);
}

#[test]
fn the_limit_holds_over_all_pages() {
    let mut run = Search::new(3, 9);
    assert_eq!(run.read_page(&page(&["a", "b"])), 2);
    assert_eq!(run.read_page(&page(&["c", "d", "e"])), 1);
    assert_eq!(run.next_page(), None);
    assert_eq!(titles(&run), ["a", "b", "c"]);
}

#[test]
fn a_page_without_results_ends_the_search() {
    let mut run = Search::new(10, 9);
    assert_eq!(run.read_page(&page(&["a"])), 1);
    assert_eq!(run.read_page(""), 0);
    assert_eq!(run.next_page(), None);
    assert_eq!(titles(&run), ["a"]);
}

#[test]
fn searches_without_pages_or_results() {
    assert_eq!(Search::new(10, 0).next_page(), None);
    let mut run = Search::new(0, 5);
    assert_eq!(run.next_page(), Some(1));
    assert_eq!(run.read_page(&page(&["a"])), 0);
    assert_eq!(run.next_page(), None);
    assert!(run.results.is_empty());
}

#[test]
fn books_are_added_as_they_are() {
    let mut run = Search::new(2, usize::MAX);
    assert_eq!(run.add_books(vec![book("a")]), 1);
    assert_eq!(run.next_page(), Some(2));
    assert_eq!(run.add_books(vec![book("b")]), 1);
    assert_eq!(run.next_page(), None);
    assert_eq!(run.results, [book("a"), book("b")]);
}
