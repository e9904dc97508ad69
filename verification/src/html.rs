//! What the program reads from an HTML page, taken out of the page by `scraper`.

use vstd::prelude::*;
use vstd::utf8::encode_utf8;

use crate::text::text_view;

verus! {

/// An element of a page: the text inside it, and the value of the attribute that was asked for.
#[derive(Debug, PartialEq, Eq)]
pub struct Element {
    pub text: String,
    pub attr: Option<String>,
}

/// The model of an [`Element`].
#[verifier::ext_equal]
pub struct ElementView {
    pub text: Seq<char>,
    pub attr: Option<Seq<char>>,
}

impl View for Element {
    type V = ElementView;

    open spec fn view(&self) -> ElementView {
        ElementView { text: self.text@, attr: text_view(self.attr) }
    }
}

/// The models of the elements of a list.
pub open spec fn element_views(elements: Seq<Element>) -> Seq<ElementView> {
    elements.map_values(|e: Element| e@)
}

/// The parts of one post of a page of search results.
#[derive(Debug, PartialEq, Eq)]
pub struct Post {
    /// The links in the post's title.
    pub titles: Vec<Element>,
    /// Where the category, language and keywords stand.
    pub infos: Vec<Element>,
    /// Where the format and size stand, among others.
    pub contents: Vec<Element>,
}

/// The model of a [`Post`].
#[verifier::ext_equal]
pub struct PostView {
    pub titles: Seq<ElementView>,
    pub infos: Seq<ElementView>,
    pub contents: Seq<ElementView>,
}

impl View for Post {
    type V = PostView;

    open spec fn view(&self) -> PostView {
        PostView {
            titles: element_views(self.titles@),
            infos: element_views(self.infos@),
            contents: element_views(self.contents@),
        }
    }
}

/// The models of the posts of a list.
pub open spec fn post_views(posts: Seq<Post>) -> Seq<PostView> {
    posts.map_values(|p: Post| p@)
}

/// An ASCII letter.
pub open spec fn is_letter(c: char) -> bool {
    'a' <= c <= 'z' || 'A' <= c <= 'Z'
}

/// A tag or class name made of ASCII letters and digits, with a letter first.
pub open spec fn is_name(s: Seq<char>) -> bool {
    &&& s.len() > 0
    &&& is_letter(s[0])
    &&& forall|i: int| 0 <= i < s.len() ==> is_letter(#[trigger] s[i]) || '0' <= s[i] <= '9'
}

/// A tag name, or a tag name and a class name with a dot between them.
pub open spec fn is_compound(s: Seq<char>) -> bool {
    ||| is_name(s)
    ||| exists|k: int|
        0 <= k < s.len() && #[trigger] s[k] == '.' && is_name(s.take(k)) && is_name(s.skip(k + 1))
}

/// A CSS selector of the simplest kind: up to `parts` tags, with or without a class, one inside the
/// other.
pub open spec fn is_plain_selector(s: Seq<char>, parts: nat) -> bool
    decreases parts,
{
    parts > 0 && (is_compound(s) || exists|k: int|
        0 <= k < s.len() && #[trigger] s[k] == ' ' && is_compound(s.take(k)) && is_plain_selector(
            s.skip(k + 1),
            (parts - 1) as nat,
        ))
}

/// How many of the bytes are zero.
pub open spec fn zeros(bytes: Seq<u8>) -> nat
    decreases bytes.len(),
{
    if bytes.len() == 0 {
        0
    } else {
        zeros(bytes.drop_last()) + (if bytes.last() == 0 {
            1nat
        } else {
            0nat
        })
    }
}

/// The parser has room for the page: the buffer that a text is kept in holds two gigabytes. A text
/// may grow while it is read. A zero byte becomes a character of three bytes, and a character
/// reference is at least five sixths as long as the characters that it stands for.
pub open spec fn fits_parser(html: Seq<char>) -> bool {
    6 * encode_utf8(html).len() + 10 * zeros(encode_utf8(html)) <= 5 * 0x8000_0000
}

/// Whether the parser has room for the page.
pub fn can_parse(html: &str) -> (r: bool)
    ensures
        r == fits_parser(html@),
{
    let bytes = html.as_bytes();
    let n: usize = bytes.len();
    if n > 0x8000_0000 {
        return false;
    }
    let mut count: u64 = 0;
    let mut i: usize = 0;
    while i < n
        invariant
            n == bytes@.len(),
            i <= n <= 0x8000_0000,
            count == zeros(bytes@.take(i as int)),
            count <= i,
        decreases n - i,
    {
        proof {
            assert(bytes@.take(i + 1).drop_last() =~= bytes@.take(i as int));
        }
        if bytes[i] == 0 {
            count += 1;
        }
        i += 1;
    }
    assert(bytes@.take(n as int) =~= bytes@);
    6 * (n as u64) + 10 * count <= 5 * 0x8000_0000
}

/// The elements that `scraper` finds in the page `html` by the selector `css`, each with its
/// attribute `attr`.
pub uninterp spec fn html_elements(html: Seq<char>, css: Seq<char>, attr: Seq<char>) -> Seq<
    ElementView,
>;

/// The elements that `scraper` finds in the page `html` by the selector `post`, each as the
/// elements inside it that match `title`, `info` and `content`, with their attribute `attr`.
pub uninterp spec fn html_posts(
    html: Seq<char>,
    post: Seq<char>,
    title: Seq<char>,
    info: Seq<char>,
    content: Seq<char>,
    attr: Seq<char>,
) -> Seq<PostView>;

/// `scraper::Html::select` on what `scraper::Html::parse_document` makes of `html`: the elements
/// that match `css`, in the order in which the iterator gives them. Of each, the concatenation of
/// `ElementRef::text` and the value of `Element::attr`. The result is a function of the arguments;
/// which elements match is not stated. `scraper::Selector::parse` accepts every plain selector.
#[verifier::external_body]
pub(crate) fn select_elements(html: &str, css: &str, attr: &str) -> (r: Vec<Element>)
    requires
        fits_parser(html@),
        is_plain_selector(css@, 3),
    ensures
        element_views(r@) == html_elements(html@, css@, attr@),
{
    let css = scraper::Selector::parse(css).unwrap();
    scraper::Html::parse_document(html)
        .select(&css)
        .map(|e| Element { text: e.text().collect(), attr: e.value().attr(attr).map(String::from) })
        .collect()
}

/// `scraper::ElementRef::select` inside each element that `scraper::Html::select` finds by `post`
/// on what `scraper::Html::parse_document` makes of `html`: the matches of each of the other
/// selectors, in the form that [`select_elements`] describes. The result is a function of the
/// arguments; which elements match is not stated.
#[verifier::external_body]
pub(crate) fn select_posts(
    html: &str,
    post: &str,
    title: &str,
    info: &str,
    content: &str,
    attr: &str,
) -> (r: Vec<Post>)
    requires
        fits_parser(html@),
        is_plain_selector(post@, 3),
        is_plain_selector(title@, 3),
        is_plain_selector(info@, 3),
        is_plain_selector(content@, 3),
    ensures
        post_views(r@) == html_posts(html@, post@, title@, info@, content@, attr@),
{
    let css = |s: &str| scraper::Selector::parse(s).unwrap();
    let (post, title, info, content) = (css(post), css(title), css(info), css(content));
    let element = |e: scraper::ElementRef| Element {
        text: e.text().collect(),
        attr: e.value().attr(attr).map(String::from),
    };
    let all = |e: scraper::ElementRef, s| e.select(s).map(element).collect();
    scraper::Html::parse_document(html)
        .select(&post)
        .map(|e| Post { titles: all(e, &title), infos: all(e, &info), contents: all(e, &content) })
        .collect()
}

proof fn lemma_zeros(bytes: Seq<u8>)
    ensures
        zeros(bytes) <= bytes.len(),
    decreases bytes.len(),
{
    if bytes.len() > 0 {
        lemma_zeros(bytes.drop_last());
    }
}

/// The parser has room for every page of up to 640 megabytes, whatever it holds, and for none of
/// more than two gigabytes.
pub proof fn law_ordinary_pages_fit(html: Seq<char>)
    ensures
        encode_utf8(html).len() <= 0x2800_0000 ==> fits_parser(html),
        encode_utf8(html).len() > 0x8000_0000 ==> !fits_parser(html),
{
    lemma_zeros(encode_utf8(html));
}

} // verus!
