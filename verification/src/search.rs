//! A search: its pages, one after the other, and the audiobooks found on them.

use vstd::prelude::*;
use vstd::string::*;

use crate::encoding::{law_encoding_is_injective, urlencoded, urlencoding};
use crate::html::fits_parser;
use crate::posts::{decode_base64_posts, posts_decoded};
use crate::results::{at_most, book_views, books_in, parse_results, posts_of_page, Audiobook};
use crate::results::AudiobookView;
use crate::text::{after, before, contains, contains_str, decimal, occurs_at, push_decimal};
use crate::text::{law_decimal_stands_for_its_number, law_text_is_cut_at_the_first};

verus! {

/// The address of a page of search results; pages are counted from one.
pub open spec fn search_address(base_url: Seq<char>, query: Seq<char>, page: nat) -> Seq<char> {
    if page > 1 {
        base_url + "/page/"@ + decimal(page) + "/?s="@ + urlencoded(query)
    } else {
        base_url + "/?s="@ + urlencoded(query)
    }
}

/// The address of a page of search results; pages are counted from one.
pub fn search_url(base_url: &str, query: &str, page: usize) -> (r: String)
    ensures
        r@ == search_address(base_url@, query@, page as nat),
{
    let mut url = base_url.to_owned();
    if page > 1 {
        url.append("/page/");
        push_decimal(&mut url, page as u64);
    }
    url.append("/?s=");
    url.append(urlencoding(query).as_str());
    url
}

/// A page that comes from this address belongs to a search: the site sends a search that it
/// does not answer to its home page.
pub open spec fn is_search_address(url: Seq<char>) -> bool {
    contains(url, "?s="@) || contains(url, "&s="@)
}

/// Whether a page that comes from this address belongs to a search.
pub fn answers_search(final_url: &str) -> (r: bool)
    ensures
        r == is_search_address(final_url@),
{
    contains_str(final_url, "?s=") || contains_str(final_url, "&s=")
}

/// The page, in lower case, says that nothing was found.
pub open spec fn tells_nothing_found(lower: Seq<char>) -> bool {
    contains(lower, "nothing found"@) || contains(lower, "no post found"@)
}

/// Whether the page, which is in lower case, says that nothing was found.
pub fn says_nothing_found(lower: &str) -> (r: bool)
    ensures
        r == tells_nothing_found(lower@),
{
    contains_str(lower, "nothing found") || contains_str(lower, "no post found")
}

/// The lower case form of a text, by `str::to_lowercase`.
pub uninterp spec fn lowercase(s: Seq<char>) -> Seq<char>;

/// `str::to_lowercase`: a function of the text, by the rules of Unicode. Which text it gives is
/// not stated.
#[verifier::external_body]
pub(crate) fn lowercase_str(s: &str) -> (r: String)
    ensures
        r@ == lowercase(s@),
{
    s.to_lowercase()
}

/// What is to be read of the reply to a search, given its lower case form: the page with its
/// hidden posts made visible, or nothing where the reply is no page of results.
pub open spec fn page_to_read(final_url: Seq<char>, html: Seq<char>, lower: Seq<char>) -> Seq<char> {
    if !is_search_address(final_url) || tells_nothing_found(lower) {
        Seq::empty()
    } else {
        posts_decoded(html)
    }
}

/// What is to be read of the reply to a search, given its lower case form.
pub fn readable_page(final_url: &str, html: &str, lower: &str) -> (r: String)
    ensures
        r@ == page_to_read(final_url@, html@, lower@),
{
    if !answers_search(final_url) || says_nothing_found(lower) {
        String::new()
    } else {
        decode_base64_posts(html)
    }
}

/// What is to be read of the reply to a search that came from `final_url`.
pub open spec fn reply_to_read(final_url: Seq<char>, html: Seq<char>) -> Seq<char> {
    page_to_read(final_url, html, lowercase(html))
}

/// What is to be read of the reply to a search that came from `final_url`.
pub fn search(final_url: &str, html: &str) -> (r: String)
    ensures
        r@ == reply_to_read(final_url@, html@),
        r@ == page_to_read(final_url@, html@, lowercase(html@)),
{
    readable_page(final_url, html, lowercase_str(html).as_str())
}

/// The address that a search is sent to is one that results come from: a reply that was not
/// redirected is read.
pub proof fn law_search_address_is_recognised(base_url: Seq<char>, query: Seq<char>, page: nat)
    ensures
        is_search_address(search_address(base_url, query, page)),
{
    let url = search_address(base_url, query, page);
    let head = if page > 1 {
        base_url + "/page/"@ + decimal(page)
    } else {
        base_url
    };
    reveal_strlit("/?s=");
    reveal_strlit("?s=");
    let i = head.len() as int + 1;
    assert(url =~= head + "/?s="@ + urlencoded(query));
    assert(url.subrange(i, i + 3) =~= "?s="@);
    assert(occurs_at(url, "?s="@, i));
}

/// A search in progress.
#[derive(Debug, PartialEq, Eq)]
pub struct Search {
    /// How many audiobooks are wanted at most.
    pub limit: usize,
    /// How many pages are read at most.
    pub pages: usize,
    /// The page that comes next, counted from one.
    pub page: usize,
    /// No more pages are to be read.
    pub done: bool,
    /// What was found so far.
    pub results: Vec<Audiobook>,
}

/// The model of a [`Search`].
#[verifier::ext_equal]
pub struct SearchView {
    pub limit: nat,
    pub pages: nat,
    pub page: nat,
    pub done: bool,
    pub results: Seq<AudiobookView>,
}

impl View for Search {
    type V = SearchView;

    open spec fn view(&self) -> SearchView {
        SearchView {
            limit: self.limit as nat,
            pages: self.pages as nat,
            page: self.page as nat,
            done: self.done,
            results: book_views(self.results@),
        }
    }
}

impl SearchView {
    /// A search of which no page has been read.
    pub open spec fn started(limit: nat, pages: nat) -> SearchView {
        SearchView { limit, pages, page: 1, done: pages == 0, results: Seq::empty() }
    }

    /// The number of the page to read next, or nothing once the search is over.
    pub open spec fn next(self) -> Option<nat> {
        if self.done {
            None
        } else {
            Some(self.page)
        }
    }

    /// The search after the next page was read, on which these books stand.
    pub open spec fn after_page(self, books: Seq<AudiobookView>) -> SearchView {
        let added = at_most(books, self.limit - self.results.len());
        let results = self.results + added;
        let done = added.len() == 0 || results.len() >= self.limit || self.page >= self.pages;
        SearchView {
            page: if done {
                self.page
            } else {
                self.page + 1
            },
            done,
            results,
            ..self
        }
    }
}

impl Search {
    /// There are no more results than wanted, and the next page is one that is to be read.
    pub open spec fn valid(self) -> bool {
        &&& self.results@.len() <= self.limit
        &&& self.done || 1 <= self.page <= self.pages
    }

    /// A search of which no page has been read.
    pub fn new(limit: usize, pages: usize) -> (r: Search)
        ensures
            r.valid(),
            r@ == SearchView::started(limit as nat, pages as nat),
            r.limit == limit,
            r.pages == pages,
            r.page == 1,
            r.done == (pages == 0),
            r.results@ == Seq::<Audiobook>::empty(),
    {
        let r = Search { limit, pages, page: 1, done: pages == 0, results: Vec::new() };
        assert(r@ =~= SearchView::started(limit as nat, pages as nat));
        r
    }

    /// The number of the page to read next, or nothing once the search is over.
    pub fn next_page(&self) -> (r: Option<usize>)
        ensures
            r is Some <==> self@.next() is Some,
            r matches Some(page) ==> self@.next() == Some(page as nat),
            r == (if self.done {
                None
            } else {
                Some(self.page)
            }),
    {
        if self.done {
            None
        } else {
            Some(self.page)
        }
    }

    /// Adds what stands on the next page to the results, as far as they are wanted, and gives the
    /// number of the audiobooks that were added. The search is over after a page without any,
    /// after the last page, and once as many were found as wanted.
    pub fn add_books(&mut self, books: Vec<Audiobook>) -> (r: usize)
        requires
            old(self).valid(),
            !old(self).done,
            old(self).results@.len() + books@.len() <= old(self).limit,
        ensures
            final(self).valid(),
            r == books@.len(),
            final(self).limit == old(self).limit,
            final(self).pages == old(self).pages,
            final(self)@ == old(self)@.after_page(book_views(books@)),
            final(self).results@ == old(self).results@ + books@,
            final(self).done <==> r == 0 || final(self).results@.len() == old(self).limit
                || old(self).page == old(self).pages,
            final(self).page == old(self).page + (if final(self).done {
                0int
            } else {
                1int
            }),
    {
        let ghost added = books@;
        let mut books = books;
        let count: usize = books.len();
        self.results.append(&mut books);
        assert(book_views(self.results@) =~= book_views(old(self).results@) + book_views(added));
        if count == 0 || self.results.len() >= self.limit || self.page == self.pages {
            self.done = true;
        } else {
            self.page += 1;
        }
        count
    }

    /// Reads the next page, `html`, and gives the number of the audiobooks that were added.
    pub fn read_page(&mut self, html: &str) -> (r: usize)
        requires
            old(self).valid(),
            !old(self).done,
            fits_parser(html@),
        ensures
            final(self).valid(),
            final(self).limit == old(self).limit,
            final(self).pages == old(self).pages,
            final(self)@ == old(self)@.after_page(books_in(posts_of_page(html@))),
            r == at_most(books_in(posts_of_page(html@)), old(self).limit - old(self).results@.len())
                .len(),
            book_views(final(self).results@) == book_views(old(self).results@) + at_most(
                books_in(posts_of_page(html@)),
                old(self).limit - old(self).results@.len(),
            ),
            final(self).done <==> r == 0 || final(self).results@.len() == old(self).limit
                || old(self).page == old(self).pages,
            final(self).page == old(self).page + (if final(self).done {
                0int
            } else {
                1int
            }),
    {
        let wanted: usize = self.limit - self.results.len();
        let books = parse_results(html, wanted);
        let ghost views = book_views(books@);
        assert(views.len() == books@.len());
        let count = self.add_books(books);
        assert(book_views(self.results@) =~= book_views(old(self).results@) + views);
        count
    }
}

/// Reading two pages, each as far as its books are still wanted, gives the first `limit` of the
/// books on both: the limit holds for the search as a whole.
pub proof fn law_pages_add_up(
    first: Seq<AudiobookView>,
    second: Seq<AudiobookView>,
    limit: nat,
)
    ensures
        at_most(first, limit as int) + at_most(
            second,
            limit - at_most(first, limit as int).len(),
        ) == at_most(first + second, limit as int),
{
    let a = at_most(first, limit as int);
    let b = at_most(second, limit - a.len());
    assert(a + b =~= at_most(first + second, limit as int));
}

/// The books on all the pages, one page after the other.
pub open spec fn books_on(pages: Seq<Seq<AudiobookView>>) -> Seq<AudiobookView>
    decreases pages.len(),
{
    if pages.len() == 0 {
        Seq::empty()
    } else {
        books_on(pages.drop_last()) + pages.last()
    }
}

/// The results of a search that has read these pages, each as far as its books were still wanted.
pub open spec fn results_of(pages: Seq<Seq<AudiobookView>>, limit: nat) -> Seq<AudiobookView>
    decreases pages.len(),
{
    if pages.len() == 0 {
        Seq::empty()
    } else {
        let earlier = results_of(pages.drop_last(), limit);
        earlier + at_most(pages.last(), limit - earlier.len())
    }
}

/// A search gives the first `limit` of the books on the pages that it has read, in their order,
/// however many pages those are.
pub proof fn law_search_gives_the_first_books(pages: Seq<Seq<AudiobookView>>, limit: nat)
    ensures
        results_of(pages, limit) == at_most(books_on(pages), limit as int),
    decreases pages.len(),
{
    if pages.len() == 0 {
        assert(results_of(pages, limit) =~= at_most(books_on(pages), limit as int));
    } else {
        law_search_gives_the_first_books(pages.drop_last(), limit);
        law_pages_add_up(books_on(pages.drop_last()), pages.last(), limit);
    }
}

/// A reply is read exactly where it comes from an address with `?s=` or `&s=` in it, and its lower
/// case form holds neither the phrase `nothing found` nor the phrase `no post found`. What is read
/// is then the whole page with its hidden posts made visible, and otherwise nothing.
pub proof fn law_only_two_phrases_mean_no_results(
    final_url: Seq<char>,
    html: Seq<char>,
    lower: Seq<char>,
)
    ensures
        ({
            let answers = contains(final_url, "?s="@) || contains(final_url, "&s="@);
            let empty = contains(lower, "nothing found"@) || contains(lower, "no post found"@);
            &&& answers && !empty ==> page_to_read(final_url, html, lower) == posts_decoded(html)
            &&& !answers || empty ==> page_to_read(final_url, html, lower).len() == 0
        }),
{
}

/// The first page of a search stands at the site itself and every later one under its number, with
/// the whole query behind.
pub proof fn law_search_address_has_its_parts(base_url: Seq<char>, query: Seq<char>, page: nat)
    ensures
        page <= 1 ==> search_address(base_url, query, page) == base_url + "/?s="@ + urlencoded(
            query,
        ),
        page > 1 ==> search_address(base_url, query, page) == base_url + "/page/"@ + decimal(page)
            + "/?s="@ + urlencoded(query),
{
}

proof fn lemma_later_page(base_url: Seq<char>, query: Seq<char>, page: nat)
    requires
        page > 1,
    ensures
        ({
            let rest = search_address(base_url, query, page).skip(base_url.len() as int);
            &&& rest.len() > 1 && rest[1] == 'p'
            &&& before(rest.skip(6), seq!['/']) == decimal(page)
            &&& after(rest.skip(6), seq!['/']) == Some("?s="@ + urlencoded(query))
        }),
{
    let rest = search_address(base_url, query, page).skip(base_url.len() as int);
    let tail = "?s="@ + urlencoded(query);
    reveal_strlit("/page/");
    reveal_strlit("/?s=");
    reveal_strlit("?s=");
    assert(rest =~= "/page/"@ + decimal(page) + "/?s="@ + urlencoded(query));
    assert(rest.skip(6) =~= decimal(page) + seq!['/'] + tail);
    law_decimal_stands_for_its_number(page);
    assert forall|i: int| 0 <= i < decimal(page).len() implies (#[trigger] (decimal(page) + seq!['/']
        + tail).skip(i)).take(seq!['/'].len() as int) != seq!['/'] by {
        assert((decimal(page) + seq!['/'] + tail).skip(i).take(1)[0] == decimal(page)[i]);
        assert(seq!['/'][0] == '/');
    }
    law_text_is_cut_at_the_first(decimal(page), seq!['/'], tail);
}

proof fn lemma_first_page(base_url: Seq<char>, query: Seq<char>)
    ensures
        ({
            let rest = search_address(base_url, query, 1).skip(base_url.len() as int);
            &&& rest.len() > 1 && rest[1] == '?'
            &&& rest.skip(4) == urlencoded(query)
        }),
{
    let rest = search_address(base_url, query, 1).skip(base_url.len() as int);
    reveal_strlit("/?s=");
    assert(rest =~= "/?s="@ + urlencoded(query));
    assert(rest.skip(4) =~= urlencoded(query));
}

/// Different pages and different queries have different addresses.
pub proof fn law_search_addresses_tell_pages_apart(
    base_url: Seq<char>,
    query: Seq<char>,
    page: nat,
    other_query: Seq<char>,
    other_page: nat,
)
    requires
        page >= 1,
        other_page >= 1,
        search_address(base_url, query, page) == search_address(base_url, other_query, other_page),
    ensures
        page == other_page,
        query == other_query,
{
    if page > 1 {
        lemma_later_page(base_url, query, page);
    } else {
        lemma_first_page(base_url, query);
    }
    if other_page > 1 {
        lemma_later_page(base_url, other_query, other_page);
    } else {
        lemma_first_page(base_url, other_query);
    }
    if page > 1 && other_page > 1 {
        law_decimal_stands_for_its_number(page);
        law_decimal_stands_for_its_number(other_page);
        let a = "?s="@ + urlencoded(query);
        let b = "?s="@ + urlencoded(other_query);
        assert(a == b);
        assert(a.skip("?s="@.len() as int) =~= urlencoded(query));
        assert(b.skip("?s="@.len() as int) =~= urlencoded(other_query));
    }
    law_encoding_is_injective(query, other_query);
}

/// The rest of a search from `state` on, where `site[i]` are the books on page `i + 1`.
pub open spec fn run_from(state: SearchView, site: Seq<Seq<AudiobookView>>) -> SearchView
    decreases (if state.done {
        0int
    } else {
        state.pages - state.page + 1
    }),
{
    match state.next() {
        Some(page) => if state.done || state.page > state.pages {
            state
        } else {
            run_from(state.after_page(site[page - 1]), site)
        },
        None => state,
    }
}

/// How a search ends on a site whose pages hold these books.
pub open spec fn search_run(limit: nat, pages: nat, site: Seq<Seq<AudiobookView>>) -> SearchView {
    run_from(SearchView::started(limit, pages), site)
}

proof fn lemma_run_from(state: SearchView, site: Seq<Seq<AudiobookView>>)
    requires
        !state.done,
        1 <= state.page <= state.pages,
        site.len() == state.pages,
        state.results == at_most(books_on(site.take(state.page - 1)), state.limit as int),
        state.page > 1 ==> books_on(site.take(state.page - 1)).len() < state.limit,
    ensures
        ({
            let end = run_from(state, site);
            let last = end.page;
            &&& end.done
            &&& state.page <= last <= state.pages
            &&& end.results == at_most(books_on(site.take(last as int)), state.limit as int)
            &&& forall|i: int|
                state.page <= i < last ==> (#[trigger] site[i - 1]).len() > 0 && books_on(
                    site.take(i),
                ).len() < state.limit
            &&& last == state.pages || site[last - 1].len() == 0 || books_on(
                site.take(last as int),
            ).len() >= state.limit
        }),
    decreases state.pages - state.page,
{
    let k = state.page as int;
    let found = site[k - 1];
    let next = state.after_page(found);
    assert(site.take(k).drop_last() =~= site.take(k - 1));
    assert(site.take(k).last() == found);
    let earlier = books_on(site.take(k - 1));
    law_pages_add_up(earlier, found, state.limit);
    assert(books_on(site.take(k)) == earlier + found);
    assert(next.results == at_most(books_on(site.take(k)), state.limit as int));
    if !next.done {
        lemma_run_from(next, site);
        let end = run_from(state, site);
        assert forall|i: int| state.page <= i < end.page implies (#[trigger] site[i - 1]).len() > 0
            && books_on(site.take(i)).len() < state.limit by {
            if i == k {
                assert(found.len() > 0);
            }
        }
    } else {
        reveal_with_fuel(run_from, 2);
        assert(run_from(state, site) == next);
    }
}

/// A search reads the pages from the first one on, in their order, and stops at the first that has
/// no books, or that completes as many as are wanted, or that is the last to be read. It gives the
/// first of the books on the pages that it has read, up to the limit.
pub proof fn law_search_reads_as_far_as_it_must(
    limit: nat,
    pages: nat,
    site: Seq<Seq<AudiobookView>>,
)
    requires
        site.len() == pages,
    ensures
        ({
            let end = search_run(limit, pages, site);
            let last = end.page;
            &&& end.done
            &&& pages == 0 ==> end.results.len() == 0
            &&& pages > 0 ==> {
                &&& 1 <= last <= pages
                &&& end.results == at_most(books_on(site.take(last as int)), limit as int)
                &&& forall|i: int|
                    1 <= i < last ==> (#[trigger] site[i - 1]).len() > 0 && books_on(
                        site.take(i),
                    ).len() < limit
                &&& last == pages || site[last - 1].len() == 0 || books_on(
                    site.take(last as int),
                ).len() >= limit
            }
        }),
{
    if pages > 0 {
        let start = SearchView::started(limit, pages);
        assert(site.take(0) =~= Seq::<Seq<AudiobookView>>::empty());
        assert(at_most(books_on(site.take(0)), limit as int) =~= Seq::<AudiobookView>::empty());
        lemma_run_from(start, site);
    }
}

/// All the books on the pages are those of each page, in the order of the pages.
pub proof fn law_books_of_pages_stand_in_order(
    pages: Seq<Seq<AudiobookView>>,
    page: Seq<AudiobookView>,
)
    ensures
        books_on(Seq::empty()).len() == 0,
        books_on(pages.push(page)) == books_on(pages) + page,
{
    assert(pages.push(page).drop_last() =~= pages);
}

/// The reply to a search is judged by the lower case form of the whole page: one from a search
/// address is read as a whole unless that form holds `nothing found` or `no post found`.
pub proof fn law_whole_reply_is_judged(final_url: Seq<char>, html: Seq<char>)
    ensures
        ({
            let answers = contains(final_url, "?s="@) || contains(final_url, "&s="@);
            let empty = contains(lowercase(html), "nothing found"@) || contains(
                lowercase(html),
                "no post found"@,
            );
            &&& answers && !empty ==> reply_to_read(final_url, html) == posts_decoded(html)
            &&& !answers || empty ==> reply_to_read(final_url, html).len() == 0
        }),
{
}

} // verus!
