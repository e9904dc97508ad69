//! The audiobooks on a page of search results.

use vstd::prelude::*;

use crate::html::{fits_parser, html_posts, is_compound, is_name, is_plain_selector, select_posts};
use crate::html::{post_views, Element, ElementView, Post, PostView};
use crate::text::{all_in, contains, ends_before_either, first_at, is_stripped, lemma_cut_at_either};
use crate::text::{law_lines_end_at_line_feeds, law_trim_leaves_the_middle};
use crate::text::{find, law_trim_takes_only_the_ends, lemma_find, without_cr};
use crate::text::{before, before_chars, between, between_chars, chars_of, lines, lines_chars};
use crate::text::{is_whitespace, lemma_strip_bounds, string_of, trim, trim_chars, CharClass};

verus! {

/// An audiobook that the site offers.
#[derive(Debug, PartialEq, Eq)]
pub struct Audiobook {
    pub title: String,
    /// Where the site describes the book; empty where the title is no link.
    pub detail_url: String,
    pub format: String,
    pub size: String,
    pub lang: String,
    /// The magnet link; empty until the details have been fetched.
    pub magnet: String,
    /// Where the site keeps the .torrent file; empty until the details have been fetched.
    pub torrent_url: String,
}

/// The model of an [`Audiobook`].
#[verifier::ext_equal]
pub struct AudiobookView {
    pub title: Seq<char>,
    pub detail_url: Seq<char>,
    pub format: Seq<char>,
    pub size: Seq<char>,
    pub lang: Seq<char>,
    pub magnet: Seq<char>,
    pub torrent_url: Seq<char>,
}

impl View for Audiobook {
    type V = AudiobookView;

    open spec fn view(&self) -> AudiobookView {
        AudiobookView {
            title: self.title@,
            detail_url: self.detail_url@,
            format: self.format@,
            size: self.size@,
            lang: self.lang@,
            magnet: self.magnet@,
            torrent_url: self.torrent_url@,
        }
    }
}

/// The models of the audiobooks of a list.
pub open spec fn book_views(books: Seq<Audiobook>) -> Seq<AudiobookView> {
    books.map_values(|b: Audiobook| b@)
}

/// The text of the first element, or nothing where there is none.
pub open spec fn first_text(elements: Seq<ElementView>) -> Seq<char> {
    if elements.len() == 0 {
        Seq::empty()
    } else {
        elements[0].text
    }
}

/// The first line of `s`, or nothing where it has none.
pub open spec fn first_line(s: Seq<char>) -> Seq<char> {
    if lines(s).len() == 0 {
        Seq::empty()
    } else {
        lines(s)[0]
    }
}

/// The language: what stands between `Language:` and `Keywords:`.
pub open spec fn language_in(info: Seq<char>) -> Seq<char> {
    match between(info, "Language:"@) {
        Some(s) => trim(before(s, "Keywords:"@)),
        None => Seq::empty(),
    }
}

/// The file format: what stands between `Format:` and a slash.
pub open spec fn format_in(content: Seq<char>) -> Seq<char> {
    match between(content, "Format:"@) {
        Some(s) => trim(before(s, "/"@)),
        None => Seq::empty(),
    }
}

/// The size: what stands behind `File Size:` on the same line.
pub open spec fn size_in(content: Seq<char>) -> Seq<char> {
    match between(content, "File Size:"@) {
        Some(s) => trim(first_line(s)),
        None => Seq::empty(),
    }
}

/// The title that a post shows: the text of its first title link.
pub open spec fn title_in(post: PostView) -> Seq<char> {
    trim(first_text(post.titles))
}

/// The audiobook that a post describes. A post without a title describes none.
pub open spec fn book_in(post: PostView) -> Option<AudiobookView> {
    if title_in(post).len() == 0 {
        None
    } else {
        Some(
            AudiobookView {
                title: title_in(post),
                detail_url: match post.titles[0].attr {
                    Some(href) => href,
                    None => Seq::empty(),
                },
                format: format_in(first_text(post.contents)),
                size: size_in(first_text(post.contents)),
                lang: language_in(first_text(post.infos)),
                magnet: Seq::empty(),
                torrent_url: Seq::empty(),
            },
        )
    }
}

/// The audiobooks that the posts describe, in the order of the posts.
pub open spec fn books_in(posts: Seq<PostView>) -> Seq<AudiobookView>
    decreases posts.len(),
{
    if posts.len() == 0 {
        Seq::empty()
    } else {
        match book_in(posts.last()) {
            Some(book) => books_in(posts.drop_last()).push(book),
            None => books_in(posts.drop_last()),
        }
    }
}

/// The first `limit` elements of `s`, or all of them where there are fewer.
pub open spec fn at_most<A>(s: Seq<A>, limit: int) -> Seq<A> {
    if s.len() <= limit {
        s
    } else {
        s.take(limit)
    }
}

/// The posts of the page `html`, as the selectors of the site's layout find them.
pub open spec fn posts_of_page(html: Seq<char>) -> Seq<PostView> {
    html_posts(
        html,
        "div.post"@,
        "div.postTitle h2 a"@,
        "div.postInfo"@,
        "div.postContent"@,
        "href"@,
    )
}

/// The audiobooks on the page `html`, the first `limit` of them.
pub open spec fn results_in(html: Seq<char>, limit: nat) -> Seq<AudiobookView> {
    at_most(books_in(posts_of_page(html)), limit as int)
}

/// The books of the first posts are the first of the books.
pub proof fn lemma_books_prefix(posts: Seq<PostView>, i: int)
    requires
        0 <= i <= posts.len(),
    ensures
        books_in(posts.take(i)).len() <= books_in(posts).len(),
        books_in(posts.take(i)) == books_in(posts).take(books_in(posts.take(i)).len() as int),
    decreases posts.len(),
{
    if i == posts.len() {
        assert(posts.take(i) =~= posts);
        assert(books_in(posts).take(books_in(posts).len() as int) =~= books_in(posts));
    } else {
        lemma_books_prefix(posts.drop_last(), i);
        assert(posts.drop_last().take(i) =~= posts.take(i));
        let n = books_in(posts.take(i)).len() as int;
        assert(books_in(posts).take(n) =~= books_in(posts.drop_last()).take(n));
    }
}

proof fn lemma_selectors()
    ensures
        is_plain_selector("div.post"@, 3),
        is_plain_selector("div.postTitle h2 a"@, 3),
        is_plain_selector("div.postInfo"@, 3),
        is_plain_selector("div.postContent"@, 3),
{
    reveal_strlit("div.post");
    reveal_strlit("div.postTitle h2 a");
    reveal_strlit("div.postInfo");
    reveal_strlit("div.postContent");
    assert("div.post"@[3] == '.');
    assert(is_name("div.post"@.take(3)) && is_name("div.post"@.skip(4)));
    assert("div.postInfo"@[3] == '.');
    assert(is_name("div.postInfo"@.take(3)) && is_name("div.postInfo"@.skip(4)));
    assert("div.postContent"@[3] == '.');
    assert(is_name("div.postContent"@.take(3)) && is_name("div.postContent"@.skip(4)));
    let s = "div.postTitle h2 a"@;
    assert(is_compound(s.take(13))) by {
        assert(s.take(13)[3] == '.');
        assert(is_name(s.take(13).take(3)) && is_name(s.take(13).skip(4)));
    }
    let rest = s.skip(14);
    assert(is_name(rest.take(2)));
    assert(is_name(rest.skip(3)));
    assert(rest[2] == ' ');
    reveal_with_fuel(is_plain_selector, 3);
    assert(is_plain_selector(rest.skip(3), 1));
    assert(is_plain_selector(rest, 2));
    assert(s[13] == ' ');
}

fn trimmed(s: &[char]) -> (r: String)
    ensures
        r@ == trim(s@),
{
    string_of(trim_chars(s))
}

fn first_text_of(elements: &Vec<Element>) -> (r: Vec<char>)
    ensures
        r@ == first_text(crate::html::element_views(elements@)),
{
    if elements.len() == 0 {
        let r: Vec<char> = Vec::new();
        assert(r@ =~= Seq::<char>::empty());
        r
    } else {
        chars_of(elements[0].text.as_str())
    }
}

/// The language in the text of a post's information.
pub fn language_of(info: &[char]) -> (r: String)
    ensures
        r@ == language_in(info@),
{
    match between_chars(info, &chars_of("Language:")) {
        Some(s) => trimmed(before_chars(s, &chars_of("Keywords:"))),
        None => String::new(),
    }
}

/// The file format in the text of a post's content.
pub fn format_of(content: &[char]) -> (r: String)
    ensures
        r@ == format_in(content@),
{
    match between_chars(content, &chars_of("Format:")) {
        Some(s) => trimmed(before_chars(s, &chars_of("/"))),
        None => String::new(),
    }
}

/// The size in the text of a post's content.
pub fn size_of(content: &[char]) -> (r: String)
    ensures
        r@ == size_in(content@),
{
    match between_chars(content, &chars_of("File Size:")) {
        Some(s) => {
            let all = lines_chars(s);
            assert(lines(s@).len() == all@.len());
            if all.len() == 0 {
                trimmed(&[])
            } else {
                trimmed(all[0])
            }
        },
        None => String::new(),
    }
}

/// The audiobook that a post describes, if it has a title.
pub fn book_of(post: &Post) -> (r: Option<Audiobook>)
    ensures
        r is Some <==> book_in(post@) is Some,
        r matches Some(book) ==> book_in(post@) == Some(book@),
{
    let title = trimmed(&first_text_of(&post.titles));
    if title.as_str().is_empty() {
        return None;
    }
    let detail_url = match &post.titles[0].attr {
        Some(href) => href.clone(),
        None => String::new(),
    };
    let lang = language_of(&first_text_of(&post.infos));
    let content = first_text_of(&post.contents);
    let book = Audiobook {
        title,
        detail_url,
        format: format_of(&content),
        size: size_of(&content),
        lang,
        magnet: String::new(),
        torrent_url: String::new(),
    };
    assert(book_in(post@)->0 =~= book@);
    Some(book)
}

/// The audiobooks that the posts describe, the first `limit` of them.
pub fn collect_books(posts: &Vec<Post>, limit: usize) -> (r: Vec<Audiobook>)
    ensures
        book_views(r@) == at_most(books_in(post_views(posts@)), limit as int),
{
    let mut books: Vec<Audiobook> = Vec::new();
    let mut i: usize = 0;
    let ghost all = post_views(posts@);
    assert(book_views(books@) =~= books_in(all.take(0)));
    while i < posts.len() && books.len() < limit
        invariant
            all == post_views(posts@),
            i <= posts@.len(),
            books@.len() <= limit,
            book_views(books@) == books_in(all.take(i as int)),
        decreases posts.len() - i,
    {
        let ghost old_books = books@;
        assert(all.take(i + 1).drop_last() =~= all.take(i as int));
        if let Some(book) = book_of(&posts[i]) {
            books.push(book);
            assert(book_views(books@) =~= book_views(old_books).push(book@));
        }
        i += 1;
    }
    proof {
        lemma_books_prefix(all, i as int);
        if i == posts@.len() {
            assert(all.take(i as int) =~= all);
        }
    }
    books
}

/// The audiobooks on the page of search results `html`, the first `limit` of them.
pub fn parse_results(html: &str, limit: usize) -> (r: Vec<Audiobook>)
    requires
        fits_parser(html@),
    ensures
        book_views(r@) == results_in(html@, limit as nat),
        book_views(r@) == at_most(books_in(posts_of_page(html@)), limit as int),
{
    proof {
        lemma_selectors();
    }
    let posts = select_posts(
        html,
        "div.post",
        "div.postTitle h2 a",
        "div.postInfo",
        "div.postContent",
        "href",
    );
    collect_books(&posts, limit)
}

/// There are never more results than wanted, and there are fewer only where there are no more.
pub proof fn law_limit_is_kept(posts: Seq<PostView>, limit: nat)
    ensures
        at_most(books_in(posts), limit as int).len() <= limit,
        at_most(books_in(posts), limit as int).len() < limit ==> at_most(
            books_in(posts),
            limit as int,
        ) == books_in(posts),
{
}

/// A smaller limit only cuts the tail of the results: what is found on a page with it is the first
/// part of what is found with a larger one.
pub proof fn law_smaller_limit_cuts_the_tail(html: Seq<char>, smaller: nat, larger: nat)
    requires
        smaller <= larger,
    ensures
        ({
            let all = at_most(books_in(posts_of_page(html)), larger as int);
            let some = at_most(books_in(posts_of_page(html)), smaller as int);
            &&& some.len() == if smaller <= all.len() {
                smaller
            } else {
                all.len()
            }
            &&& some == all.take(some.len() as int)
        }),
{
    let all = at_most(books_in(posts_of_page(html)), larger as int);
    let some = at_most(books_in(posts_of_page(html)), smaller as int);
    assert(some =~= all.take(some.len() as int));
}

/// Every result has a title, without whitespace around it, and no links before its details have
/// been fetched.
pub proof fn law_results_have_titles(posts: Seq<PostView>, i: int)
    requires
        0 <= i < books_in(posts).len(),
    ensures
        ({
            let book = books_in(posts)[i];
            &&& book.title.len() > 0
            &&& !is_whitespace(book.title[0])
            &&& !is_whitespace(book.title.last())
            &&& book.magnet.len() == 0
            &&& book.torrent_url.len() == 0
        }),
    decreases posts.len(),
{
    let earlier = books_in(posts.drop_last());
    if i < earlier.len() {
        law_results_have_titles(posts.drop_last(), i);
        assert(books_in(posts)[i] == earlier[i]);
    } else {
        lemma_strip_bounds(first_text(posts.last().titles), CharClass::Whitespace);
    }
}

/// Each post counts on its own: the results of two lists of posts are those of the one and then
/// those of the other.
pub proof fn law_posts_add_up(first: Seq<PostView>, second: Seq<PostView>)
    ensures
        books_in(first + second) == books_in(first) + books_in(second),
    decreases second.len(),
{
    if second.len() == 0 {
        assert(first + second =~= first);
        assert(books_in(first) + books_in(second) =~= books_in(first));
    } else {
        law_posts_add_up(first, second.drop_last());
        assert((first + second).drop_last() =~= first + second.drop_last());
        assert((first + second).last() == second.last());
        assert(books_in(first + second) =~= books_in(first) + books_in(second));
    }
}

/// The title of a book is the whole text of the post's first title link but for whitespace at its
/// ends, and its detail page is where that link leads. A post has no book exactly where there is
/// nothing left of that text, or no such link.
pub proof fn law_title_is_the_text_of_the_link(
    post: PostView,
    w1: Seq<char>,
    title: Seq<char>,
    w2: Seq<char>,
)
    requires
        all_in(w1, CharClass::Whitespace),
        all_in(w2, CharClass::Whitespace),
        is_stripped(title, CharClass::Whitespace),
    ensures
        post.titles.len() == 0 ==> book_in(post) is None,
        post.titles.len() > 0 && post.titles[0].text == w1 + title + w2 ==> {
            &&& title.len() == 0 ==> book_in(post) is None
            &&& title.len() > 0 ==> book_in(post) is Some
            &&& book_in(post) matches Some(book) ==> {
                &&& book.title == title
                &&& post.titles[0].attr matches Some(href) ==> book.detail_url == href
                &&& post.titles[0].attr is None ==> book.detail_url.len() == 0
            }
        },
{
    if post.titles.len() > 0 && post.titles[0].text == w1 + title + w2 {
        law_trim_leaves_the_middle(w1, title, w2, CharClass::Whitespace);
    } else if post.titles.len() == 0 {
        let none = Seq::<char>::empty();
        assert(all_in(none, CharClass::Whitespace));
        law_trim_leaves_the_middle(none, none, none, CharClass::Whitespace);
        assert(none + none + none =~= none);
    }
}

/// A title loses nothing but whitespace at its ends.
pub proof fn law_title_loses_only_whitespace(post: PostView)
    ensures
        book_in(post) matches Some(book) ==> post.titles.len() > 0 && exists|
            w1: Seq<char>,
            w2: Seq<char>,
        |
            #![trigger all_in(w1, CharClass::Whitespace), all_in(w2, CharClass::Whitespace)]
            all_in(w1, CharClass::Whitespace) && all_in(w2, CharClass::Whitespace)
                && post.titles[0].text == w1 + book.title + w2,
{
    law_trim_takes_only_the_ends(first_text(post.titles), CharClass::Whitespace);
    let none = Seq::<char>::empty();
    law_title_is_the_text_of_the_link(post, none, none, none);
}

/// The language is everything behind the first `Language:` up to the keywords, or to another such
/// label, or to the end, but for whitespace around it. Without the label there is none.
pub proof fn law_language_stands_behind_its_label(
    head: Seq<char>,
    w1: Seq<char>,
    value: Seq<char>,
    w2: Seq<char>,
    tail: Seq<char>,
)
    requires
        first_at(head + "Language:"@ + (w1 + value + w2 + tail), "Language:"@, head.len() as int),
        ends_before_either(w1 + value + w2, tail, "Language:"@, "Keywords:"@),
        all_in(w1, CharClass::Whitespace),
        all_in(w2, CharClass::Whitespace),
        is_stripped(value, CharClass::Whitespace),
    ensures
        language_in(head + "Language:"@ + (w1 + value + w2 + tail)) == value,
        !contains(head, "Language:"@) ==> language_in(head).len() == 0,
{
    let rest = w1 + value + w2 + tail;
    let s = head + "Language:"@ + rest;
    lemma_find(s, "Language:"@);
    lemma_find(head, "Language:"@);
    assert(s.skip(head.len() as int + "Language:"@.len()) =~= rest);
    reveal_strlit("Language:");
    reveal_strlit("Keywords:");
    lemma_cut_at_either(w1 + value + w2, tail, "Language:"@, "Keywords:"@);
    law_trim_leaves_the_middle(w1, value, w2, CharClass::Whitespace);
}

/// The format is everything behind the first `Format:` up to a slash, or to another such label, or
/// to the end, but for whitespace around it. Without the label there is none.
pub proof fn law_format_stands_behind_its_label(
    head: Seq<char>,
    w1: Seq<char>,
    value: Seq<char>,
    w2: Seq<char>,
    tail: Seq<char>,
)
    requires
        first_at(head + "Format:"@ + (w1 + value + w2 + tail), "Format:"@, head.len() as int),
        ends_before_either(w1 + value + w2, tail, "Format:"@, "/"@),
        all_in(w1, CharClass::Whitespace),
        all_in(w2, CharClass::Whitespace),
        is_stripped(value, CharClass::Whitespace),
    ensures
        format_in(head + "Format:"@ + (w1 + value + w2 + tail)) == value,
        !contains(head, "Format:"@) ==> format_in(head).len() == 0,
{
    let rest = w1 + value + w2 + tail;
    let s = head + "Format:"@ + rest;
    lemma_find(s, "Format:"@);
    lemma_find(head, "Format:"@);
    assert(s.skip(head.len() as int + "Format:"@.len()) =~= rest);
    reveal_strlit("Format:");
    reveal_strlit("/");
    lemma_cut_at_either(w1 + value + w2, tail, "Format:"@, "/"@);
    law_trim_leaves_the_middle(w1, value, w2, CharClass::Whitespace);
}

/// The size is everything behind the first `File Size:` up to the end of the line, or to another
/// such label, or to the end, but for whitespace around it. Without the label there is none.
pub proof fn law_size_stands_behind_its_label(
    head: Seq<char>,
    w1: Seq<char>,
    value: Seq<char>,
    w2: Seq<char>,
    tail: Seq<char>,
)
    requires
        first_at(head + "File Size:"@ + (w1 + value + w2 + tail), "File Size:"@, head.len() as int),
        ends_before_either(w1 + value + w2, tail, "File Size:"@, seq!['\n']),
        all_in(w1, CharClass::Whitespace),
        all_in(w2, CharClass::Whitespace),
        is_stripped(value, CharClass::Whitespace),
    ensures
        size_in(head + "File Size:"@ + (w1 + value + w2 + tail)) == value,
        !contains(head, "File Size:"@) ==> size_in(head).len() == 0,
{
    let rest = w1 + value + w2 + tail;
    let s = head + "File Size:"@ + rest;
    lemma_find(s, "File Size:"@);
    lemma_find(head, "File Size:"@);
    assert(s.skip(head.len() as int + "File Size:"@.len()) =~= rest);
    reveal_strlit("File Size:");
    lemma_cut_at_either(w1 + value + w2, tail, "File Size:"@, seq!['\n']);
    law_trim_leaves_the_middle(w1, value, w2, CharClass::Whitespace);
    let piece = before(rest, "File Size:"@);
    let line = w1 + value + w2;
    let none = Seq::<char>::empty();
    lemma_find(piece, seq!['\n']);
    if piece.len() == 0 {
        law_lines_end_at_line_feeds(none, none);
        assert(line.len() == 0);
        assert(piece =~= none && line =~= none);
    } else if find(piece, seq!['\n']) is Some {
        let i = find(piece, seq!['\n'])->0;
        assert(piece.take(i) =~= line);
        assert(lines(piece)[0] == without_cr(line));
        if line.len() > 0 && line.last() == '\r' {
            if w2.len() > 0 {
                assert(line.drop_last() =~= w1 + value + w2.drop_last());
                assert(all_in(w2.drop_last(), CharClass::Whitespace)) by {
                    assert forall|k: int| 0 <= k < w2.drop_last().len() implies is_whitespace(
                        #[trigger] w2.drop_last()[k],
                    ) by {
                        assert(CharClass::Whitespace.has(w2[k]));
                    }
                }
                law_trim_leaves_the_middle(w1, value, w2.drop_last(), CharClass::Whitespace);
            } else if value.len() > 0 {
                assert(line.last() == value.last());
            } else {
                assert(line.drop_last() =~= w1.drop_last() + value + w2);
                assert(all_in(w1.drop_last(), CharClass::Whitespace)) by {
                    assert forall|k: int| 0 <= k < w1.drop_last().len() implies is_whitespace(
                        #[trigger] w1.drop_last()[k],
                    ) by {
                        assert(CharClass::Whitespace.has(w1[k]));
                    }
                }
                law_trim_leaves_the_middle(w1.drop_last(), value, w2, CharClass::Whitespace);
            }
        }
    } else {
        assert(piece =~= line);
        assert(lines(piece)[0] == piece);
    }
}

/// What a post says of its book's file is read from the first of the parts where it stands; a part
/// that is missing says nothing.
pub proof fn law_book_shows_what_its_post_says(post: PostView)
    ensures
        book_in(post) matches Some(book) ==> {
            &&& book.lang == (if post.infos.len() > 0 {
                language_in(post.infos[0].text)
            } else {
                Seq::empty()
            })
            &&& book.format == (if post.contents.len() > 0 {
                format_in(post.contents[0].text)
            } else {
                Seq::empty()
            })
            &&& book.size == (if post.contents.len() > 0 {
                size_in(post.contents[0].text)
            } else {
                Seq::empty()
            })
            &&& book.magnet.len() == 0
            &&& book.torrent_url.len() == 0
        },
{
    let none = Seq::<char>::empty();
    assert forall|p: Seq<char>| p.len() > 0 implies !contains(none, p) by {}
    reveal_strlit("Language:");
    reveal_strlit("Format:");
    reveal_strlit("File Size:");
    assert(!contains(none, "Language:"@));
    assert(!contains(none, "Format:"@));
    assert(!contains(none, "File Size:"@));
}

/// A list of one post gives that post's book, if it has one.
pub proof fn law_one_post_gives_its_book(post: PostView)
    ensures
        book_in(post) matches Some(book) ==> books_in(seq![post]) == seq![book],
        book_in(post) is None ==> books_in(seq![post]) == Seq::<AudiobookView>::empty(),
        books_in(Seq::empty()) == Seq::<AudiobookView>::empty(),
{
    assert(seq![post].drop_last() =~= Seq::<PostView>::empty());
    assert(books_in(Seq::<PostView>::empty()) =~= Seq::<AudiobookView>::empty());
    if let Some(book) = book_in(post) {
        assert(books_in(seq![post]) =~= seq![book]);
    }
}

/// A limit keeps the first elements in their order, all of them where there are no more than that.
pub proof fn law_limit_keeps_the_first(books: Seq<AudiobookView>, limit: nat)
    ensures
        at_most(books, limit as int).len() == if books.len() < limit {
            books.len()
        } else {
            limit
        },
        forall|i: int|
            0 <= i < at_most(books, limit as int).len() ==> #[trigger] at_most(
                books,
                limit as int,
            )[i] == books[i],
{
}

/// The posts of a page are its `div`s of the class `post`, with the links in their title, and their
/// information and content, as the site's layout has them.
pub proof fn law_posts_are_found_by_the_layout(html: Seq<char>)
    ensures
        posts_of_page(html) == html_posts(
            html,
            "div.post"@,
            "div.postTitle h2 a"@,
            "div.postInfo"@,
            "div.postContent"@,
            "href"@,
        ),
{
}

/// A text without a label says nothing of what would stand behind it.
pub proof fn law_missing_labels_say_nothing(text: Seq<char>)
    ensures
        !contains(text, "Language:"@) ==> language_in(text).len() == 0,
        !contains(text, "Format:"@) ==> format_in(text).len() == 0,
        !contains(text, "File Size:"@) ==> size_in(text).len() == 0,
{
}

/// The results on a page are the books of its posts, as the site's layout shows them, in their
/// order: all of them where there are no more than wanted, and otherwise the first.
pub proof fn law_results_are_the_books_of_the_page(html: Seq<char>, limit: nat)
    ensures
        ({
            let posts = html_posts(
                html,
                "div.post"@,
                "div.postTitle h2 a"@,
                "div.postInfo"@,
                "div.postContent"@,
                "href"@,
            );
            let books = books_in(posts);
            &&& books.len() <= limit ==> results_in(html, limit) == books
            &&& books.len() > limit ==> results_in(html, limit) == books.take(limit as int)
        }),
{
}

} // verus!
