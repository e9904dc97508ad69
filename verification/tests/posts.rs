use audiobookbay::posts::{decode_base64_posts, find_hidden_post, reveal_post};
use base64::Engine;

const MARKER: &str = "class=\"post re-ab\" style=\"display:none;\">";

fn chars(s: &str) -> Vec<char> {
    s.chars().collect()
}

fn concealed(s: &str) -> String {
    base64::engine::general_purpose::STANDARD.encode(s)
}

#[test]
fn a_hidden_post_is_shown() {
    let page = format!("<p>é</p><div {} \n{}\t</div><p>after</p>", MARKER, concealed("<b>Dune é</b>"));
    assert_eq!(
        decode_base64_posts(&page),
        "<p>é</p><div class=\"post\"><b>Dune é</b></div><p>after</p>"
    );
}

#[test]
fn all_hidden_posts_are_shown() {
    let page = format!("<div {}{}</div><div {}{}</div>", MARKER, concealed("one"), MARKER, concealed("two"));
    assert_eq!(
        decode_base64_posts(&page),
        "<div class=\"post\">one</div><div class=\"post\">two</div>"
    );
}

#[test]
fn a_post_hidden_in_a_hidden_post_is_shown() {
    let inner = format!("<div {}{}</div>", MARKER, concealed("deep"));
    let page = format!("<div {}{}</div>", MARKER, concealed(&inner));
    assert_eq!(
        decode_base64_posts(&page),
        "<div class=\"post\"><div class=\"post\">deep</div></div>"
    );
}

#[test]
fn the_first_unreadable_post_ends_it() {
    let page = format!("<div {}{}</div>", MARKER, "not base64!");
    assert_eq!(decode_base64_posts(&page), page);
    let later = format!("{}<div {}{}</div>", page, MARKER, concealed("two"));
    assert_eq!(decode_base64_posts(&later), later);
    let first = format!("<div {}{}</div>{}", MARKER, concealed("one"), page);
    assert_eq!(decode_base64_posts(&first), format!("<div class=\"post\">one</div>{}", page));
}

#[test]
fn bytes_that_are_no_text_are_left() {
    let bytes = base64::engine::general_purpose::STANDARD.encode([0xffu8, 0xfe]);
    let page = format!("<div {}{}</div>", MARKER, bytes);
    assert_eq!(decode_base64_posts(&page), page);
}

#[test]
fn missing_padding_is_left() {
    let page = format!("<div {}{}</div>", MARKER, "YQ");
    assert_eq!(decode_base64_posts(&page), page);
    let padded = format!("<div {}{}</div>", MARKER, "YQ==");
    assert_eq!(decode_base64_posts(&padded), "<div class=\"post\">a</div>");
}

#[test]
fn an_empty_hidden_post_is_shown_empty() {
    let page = format!("<div {}</div>", MARKER);
    assert_eq!(decode_base64_posts(&page), "<div class=\"post\"></div>");
}

#[test]
fn a_page_without_hidden_posts_is_kept() {
    for page in ["", "<div class=\"post\">x</div>", "<div class=\"post re-ab\">x</div>"] {
        assert_eq!(decode_base64_posts(page), page);
    }
    let open = format!("<div {}YQ==", MARKER);
    assert_eq!(decode_base64_posts(&open), open);
}

#[test]
fn decoding_twice_changes_nothing() {
    let page = format!("a<div {}{}</div><div {}?</div>", MARKER, concealed("one"), MARKER);
    let once = decode_base64_posts(&page);
    assert_eq!(decode_base64_posts(&once), once);
    assert!(once.starts_with("a<div class=\"post\">one</div>"));
}

#[test]
fn where_a_hidden_post_stands() {
    let page = chars(&format!("ab{}xyz</div>", MARKER));
    assert_eq!(find_hidden_post(&page), Some((2, 2 + MARKER.len() + 3)));
    assert_eq!(find_hidden_post(&chars(MARKER)), None);
    assert_eq!(find_hidden_post(&chars("</div>")), None);
}

#[test]
fn what_the_bytes_of_a_post_decide() {
    let page = chars(&format!("ab{}xyz</div>", MARKER));
    let shown = reveal_post(&page, Some("é".as_bytes().to_vec()));
    assert_eq!(shown, Some(chars("abclass=\"post\">é</div>")));
    assert_eq!(reveal_post(&page, Some(vec![0xc3])), None);
    assert_eq!(reveal_post(&page, None), None);
    assert_eq!(reveal_post(&chars("ab"), Some(vec![0x61])), None);
}
