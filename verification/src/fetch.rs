//! Fetching the details of the audiobooks that were found, one after the other.

use vstd::prelude::*;

use crate::detail::{detail_in, is_hex_digit, law_detail_is_well_formed};
use crate::detail::{DetailInfo, DetailInfoView};
use crate::html::ElementView;
use crate::magnet::{law_magnet_has_its_parameters, magnet_from_hash, magnet_link};
use crate::magnet::magnet_parameters;
use crate::results::{book_views, Audiobook, AudiobookView};
use crate::text::split_at_char;

verus! {

/// The site describes the book on a page of its own.
pub open spec fn is_described(book: AudiobookView) -> bool {
    book.detail_url.len() > 0
}

/// The book with what its detail page says of it.
pub open spec fn with_detail(book: AudiobookView, detail: DetailInfoView) -> AudiobookView {
    AudiobookView {
        magnet: magnet_link(detail.info_hash, book.title, detail.trackers),
        torrent_url: detail.torrent_url,
        ..book
    }
}

/// The book's .torrent file is to be saved: the user has named a directory for it, and the site
/// has such a file.
pub open spec fn torrent_wanted(book: AudiobookView, has_torrent_dir: bool) -> bool {
    has_torrent_dir && book.torrent_url.len() > 0
}

/// Whether the site describes the book on a page of its own.
pub fn has_detail_page(book: &Audiobook) -> (r: bool)
    ensures
        r == is_described(book@),
{
    !book.detail_url.as_str().is_empty()
}

/// Adds to the book what its detail page says of it.
pub fn apply_detail(book: &mut Audiobook, detail: DetailInfo)
    ensures
        final(book)@ == with_detail(old(book)@, detail@),
{
    let magnet = magnet_from_hash(
        detail.info_hash.as_str(),
        book.title.as_str(),
        detail.trackers.as_slice(),
    );
    book.magnet = magnet;
    book.torrent_url = detail.torrent_url;
    assert(book@ =~= with_detail(old(book)@, detail@));
}

/// Whether the book's .torrent file is to be saved.
pub fn wants_torrent(book: &Audiobook, has_torrent_dir: bool) -> (r: bool)
    ensures
        r == torrent_wanted(book@, has_torrent_dir),
{
    has_torrent_dir && !book.torrent_url.as_str().is_empty()
}

/// The details of a list of books, while they are being fetched.
#[derive(Debug, PartialEq, Eq)]
pub struct Fetch {
    /// The books, with the details that were fetched so far.
    pub books: Vec<Audiobook>,
    /// The books before this one are done.
    pub at: usize,
    /// The user has named a directory for .torrent files.
    pub has_torrent_dir: bool,
}

/// The model of a [`Fetch`].
#[verifier::ext_equal]
pub struct FetchView {
    pub books: Seq<AudiobookView>,
    pub at: nat,
    pub has_torrent_dir: bool,
}

impl View for Fetch {
    type V = FetchView;

    open spec fn view(&self) -> FetchView {
        FetchView {
            books: book_views(self.books@),
            at: self.at as nat,
            has_torrent_dir: self.has_torrent_dir,
        }
    }
}

impl FetchView {
    /// A list of books of which no details have been fetched.
    pub open spec fn started(books: Seq<AudiobookView>, has_torrent_dir: bool) -> FetchView {
        FetchView { books, at: 0, has_torrent_dir }
    }

    /// The book that comes next is described on a page of its own.
    pub open spec fn is_ready(self) -> bool {
        self.at < self.books.len() && is_described(self.books[self.at as int])
    }

    /// The books that come next and have no page of their own are passed over.
    pub open spec fn passed_over(self) -> FetchView
        decreases self.books.len() - self.at,
    {
        if self.at >= self.books.len() || self.is_ready() {
            self
        } else {
            FetchView { at: self.at + 1, ..self }.passed_over()
        }
    }

    /// The book that comes next gets its details.
    pub open spec fn with_details(self, detail: DetailInfoView) -> FetchView {
        FetchView {
            books: self.books.update(
                self.at as int,
                with_detail(self.books[self.at as int], detail),
            ),
            at: self.at + 1,
            ..self
        }
    }

    /// The book that comes next stays as it is.
    pub open spec fn without_details(self) -> FetchView {
        FetchView { at: self.at + 1, ..self }
    }
}

impl Fetch {
    /// No more books are done than there are.
    pub open spec fn valid(self) -> bool {
        self.at <= self.books@.len()
    }

    /// The book that comes next is described on a page of its own.
    pub open spec fn is_ready(self) -> bool {
        self.at < self.books@.len() && is_described(self.books@[self.at as int]@)
    }

    /// A list of books of which no details have been fetched.
    pub fn new(books: Vec<Audiobook>, has_torrent_dir: bool) -> (r: Fetch)
        ensures
            r.valid(),
            r@ == FetchView::started(book_views(books@), has_torrent_dir),
            r == (Fetch { books, at: 0, has_torrent_dir }),
    {
        Fetch { books, at: 0, has_torrent_dir }
    }

    /// Goes on to the next book that has a detail page, and gives its index. The books before it
    /// stay as they are.
    pub fn next_book(&mut self) -> (r: Option<usize>)
        requires
            old(self).valid(),
        ensures
            final(self).valid(),
            final(self)@ == old(self)@.passed_over(),
            final(self).books == old(self).books,
            final(self).has_torrent_dir == old(self).has_torrent_dir,
            old(self).at <= final(self).at,
            forall|i: int|
                old(self).at <= i < final(self).at ==> !is_described(
                    (#[trigger] old(self).books@[i])@,
                ),
            r is Some <==> final(self).is_ready(),
            r is Some ==> r == Some(final(self).at),
            r is None ==> final(self).at == final(self).books@.len(),
    {
        while self.at < self.books.len() && !has_detail_page(&self.books[self.at])
            invariant
                self.valid(),
                self@.passed_over() == old(self)@.passed_over(),
                self.books == old(self).books,
                self.has_torrent_dir == old(self).has_torrent_dir,
                old(self).at <= self.at,
                forall|i: int|
                    old(self).at <= i < self.at ==> !is_described(
                        (#[trigger] old(self).books@[i])@,
                    ),
            decreases self.books.len() - self.at,
        {
            self.at += 1;
        }
        assert(self@.passed_over() == self@);
        if self.at < self.books.len() {
            Some(self.at)
        } else {
            None
        }
    }

    /// Adds what the detail page of the book says of it, and tells whether the book's .torrent
    /// file is to be saved.
    pub fn add_detail(&mut self, detail: DetailInfo) -> (r: bool)
        requires
            old(self).is_ready(),
        ensures
            final(self).valid(),
            final(self).has_torrent_dir == old(self).has_torrent_dir,
            final(self)@ == old(self)@.with_details(detail@),
            final(self).at == old(self).at + 1,
            book_views(final(self).books@) == book_views(old(self).books@).update(
                old(self).at as int,
                with_detail(old(self).books@[old(self).at as int]@, detail@),
            ),
            r == torrent_wanted(
                final(self).books@[old(self).at as int]@,
                old(self).has_torrent_dir,
            ),
    {
        let i: usize = self.at;
        assert(i < self.books.len());
        apply_detail(&mut self.books[i], detail);
        self.at = i + 1;
        assert(book_views(self.books@) =~= book_views(old(self).books@).update(
            i as int,
            with_detail(old(self).books@[i as int]@, detail@),
        ));
        wants_torrent(&self.books[i], self.has_torrent_dir)
    }

    /// Leaves the book as it is: its details could not be fetched.
    pub fn skip_book(&mut self)
        requires
            old(self).is_ready(),
        ensures
            final(self).valid(),
            final(self)@ == old(self)@.without_details(),
            final(self).books == old(self).books,
            final(self).has_torrent_dir == old(self).has_torrent_dir,
            final(self).at == old(self).at + 1,
    {
        assert(self.at < self.books.len());
        self.at += 1;
    }
}

/// The book after its turn: with its details, where it is described on a page of its own and that
/// page could be read.
pub open spec fn after_turn(
    book: AudiobookView,
    detail: Option<DetailInfoView>,
) -> AudiobookView {
    if is_described(book) && detail is Some {
        with_detail(book, detail->0)
    } else {
        book
    }
}

/// The books after the first `n` of them had their turn, given what came of each.
pub open spec fn after_turns(
    books: Seq<AudiobookView>,
    details: Seq<Option<DetailInfoView>>,
    n: int,
) -> Seq<AudiobookView> {
    Seq::new(
        books.len(),
        |i: int|
            if i < n {
                after_turn(books[i], details[i])
            } else {
                books[i]
            },
    )
}

/// Each book gets the details of its own page and no others: adding them to one book after the
/// other, and passing over a book that has none, adds to every book its own.
pub proof fn law_every_book_gets_its_own_details(
    books: Seq<AudiobookView>,
    details: Seq<Option<DetailInfoView>>,
    n: int,
)
    requires
        0 <= n < books.len(),
        books.len() == details.len(),
    ensures
        after_turns(books, details, 0) == books,
        after_turns(books, details, n)[n] == books[n],
        is_described(books[n]) && details[n] is Some ==> after_turns(books, details, n + 1)
            == after_turns(books, details, n).update(n, with_detail(books[n], details[n]->0)),
        !is_described(books[n]) || details[n] is None ==> after_turns(books, details, n + 1)
            == after_turns(books, details, n),
{
    assert(after_turns(books, details, 0) =~= books);
    assert(after_turns(books, details, n + 1) =~= after_turns(books, details, n).update(
        n,
        after_turn(books[n], details[n]),
    ));
    if !is_described(books[n]) || details[n] is None {
        assert(after_turns(books, details, n + 1) =~= after_turns(books, details, n));
    }
}

/// Details change neither the order of the books nor what the page of results said of them.
pub proof fn law_details_keep_what_was_found(
    books: Seq<AudiobookView>,
    details: Seq<Option<DetailInfoView>>,
    n: int,
)
    requires
        books.len() == details.len(),
    ensures
        after_turns(books, details, n).len() == books.len(),
        forall|i: int|
            #![trigger after_turns(books, details, n)[i]]
            0 <= i < books.len() ==> after_turns(books, details, n)[i] == (AudiobookView {
                magnet: after_turns(books, details, n)[i].magnet,
                torrent_url: after_turns(books, details, n)[i].torrent_url,
                ..books[i]
            }),
{
}

/// A book whose detail page is accepted gets a magnet link from which the info hash, the title and
/// the trackers can be read back.
pub proof fn law_fetched_magnet_has_its_parameters(
    book: AudiobookView,
    cells: Seq<ElementView>,
    links: Seq<ElementView>,
    base_url: Seq<char>,
)
    ensures
        detail_in(cells, links, base_url) matches Ok(detail) ==> split_at_char(
            with_detail(book, detail).magnet,
            '&',
        ) == magnet_parameters(detail.info_hash, book.title, detail.trackers),
{
    law_detail_is_well_formed(cells, links, base_url);
    if let Ok(detail) = detail_in(cells, links, base_url) {
        assert forall|i: int| 0 <= i < detail.info_hash.len() implies #[trigger] detail.info_hash[i]
            != '&' by {
            assert(is_hex_digit(detail.info_hash[i]));
        }
        law_magnet_has_its_parameters(detail.info_hash, book.title, detail.trackers);
    }
}

/// The books at the end of a run from `state` on, where `details[i]` is what the detail page of book
/// `i` says, or nothing where it could not be read.
pub open spec fn run_from(state: FetchView, details: Seq<Option<DetailInfoView>>) -> Seq<
    AudiobookView,
>
    decreases state.books.len() - state.at,
{
    if state.at >= state.books.len() {
        state.books
    } else if !state.passed_over().is_ready() {
        state.books
    } else {
        proof {
            lemma_passed_over(state);
        }
        match details[state.passed_over().at as int] {
            Some(detail) => run_from(state.passed_over().with_details(detail), details),
            None => run_from(state.passed_over().without_details(), details),
        }
    }
}

/// Only books without a page of their own are passed over.
pub proof fn lemma_passed_over(state: FetchView)
    ensures
        state.passed_over().at >= state.at,
        state.passed_over().books == state.books,
        state.passed_over().has_torrent_dir == state.has_torrent_dir,
        forall|i: int|
            state.at <= i < state.passed_over().at && i < state.books.len() ==> !is_described(
                #[trigger] state.books[i],
            ),
        state.at <= state.books.len() ==> state.passed_over().at <= state.books.len(),
        state.passed_over().is_ready() || state.passed_over().at >= state.books.len(),
    decreases state.books.len() - state.at,
{
    if state.at < state.books.len() && !state.is_ready() {
        lemma_passed_over(FetchView { at: state.at + 1, ..state });
    }
}

proof fn lemma_run_from(
    books: Seq<AudiobookView>,
    details: Seq<Option<DetailInfoView>>,
    state: FetchView,
)
    requires
        books.len() == details.len(),
        state.at <= books.len(),
        state.books == after_turns(books, details, state.at as int),
    ensures
        run_from(state, details) == after_turns(books, details, books.len() as int),
    decreases books.len() - state.at,
{
    let next = state.passed_over();
    lemma_passed_over(state);
    let k = next.at as int;
    assert forall|i: int| state.at <= i < k && i < books.len() implies after_turn(
        #[trigger] books[i],
        details[i],
    ) == books[i] by {
        assert(state.books[i] == books[i]);
    }
    if state.at >= books.len() || !next.is_ready() {
        assert(after_turns(books, details, state.at as int) =~= after_turns(
            books,
            details,
            books.len() as int,
        ));
    } else {
        assert(after_turns(books, details, k) =~= state.books);
        law_every_book_gets_its_own_details(books, details, k);
        match details[k] {
            Some(detail) => lemma_run_from(books, details, next.with_details(detail)),
            None => lemma_run_from(books, details, next.without_details()),
        }
    }
}

/// At the end of a run every book that has the address of a detail page, and whose page could be
/// read, has the magnet link made of that page's info hash and trackers and of its own title, and
/// the address of that page's .torrent file. Every other book, and everything else, is as before.
pub proof fn law_run_adds_details_to_every_book(
    books: Seq<AudiobookView>,
    details: Seq<Option<DetailInfoView>>,
    has_torrent_dir: bool,
    i: int,
)
    requires
        books.len() == details.len(),
        0 <= i < books.len(),
    ensures
        ({
            let end = run_from(FetchView::started(books, has_torrent_dir), details);
            &&& end.len() == books.len()
            &&& books[i].detail_url.len() > 0 && details[i] is Some ==> end[i] == (AudiobookView {
                title: books[i].title,
                detail_url: books[i].detail_url,
                format: books[i].format,
                size: books[i].size,
                lang: books[i].lang,
                magnet: magnet_link(
                    details[i]->0.info_hash,
                    books[i].title,
                    details[i]->0.trackers,
                ),
                torrent_url: details[i]->0.torrent_url,
            })
            &&& books[i].detail_url.len() == 0 || details[i] is None ==> end[i] == books[i]
        }),
{
    law_every_book_gets_its_own_details(books, details, i);
    lemma_run_from(books, details, FetchView::started(books, has_torrent_dir));
}

/// A .torrent file is saved exactly where the user has named a directory and the site has a file.
pub proof fn law_every_file_is_saved_if_wanted(book: AudiobookView)
    ensures
        book.torrent_url.len() > 0 ==> torrent_wanted(book, true),
        book.torrent_url.len() == 0 ==> !torrent_wanted(book, true),
        !torrent_wanted(book, false),
{
}

/// A run begins with the first of the books, and a book that has no page of its own is passed over.
pub proof fn law_run_begins_with_the_first_book(
    books: Seq<AudiobookView>,
    has_torrent_dir: bool,
)
    ensures
        books.len() > 0 && books[0].detail_url.len() > 0 ==> FetchView::started(
            books,
            has_torrent_dir,
        ).passed_over() == FetchView::started(books, has_torrent_dir),
        FetchView::started(books, has_torrent_dir) == (FetchView {
            books,
            at: 0,
            has_torrent_dir,
        }),
{
}

} // verus!
