//! What the user gets to see of the results.

use vstd::prelude::*;
use vstd::string::*;

use crate::results::{book_views, Audiobook, AudiobookView};
use crate::text::{contains, join_strings, joined, law_text_contains_its_parts, string_views};

verus! {

/// What is written to the standard output and to the standard error.
#[derive(Debug, PartialEq, Eq)]
pub struct Output {
    pub out: String,
    pub err: String,
}

/// The entry `name=value` in a list, where there is a value.
pub open spec fn entry(name: Seq<char>, value: Seq<char>) -> Seq<Seq<char>> {
    if value.len() == 0 {
        Seq::empty()
    } else {
        seq![name + value]
    }
}

/// What is known of a book's file: its size, its format and its language.
pub open spec fn meta(book: AudiobookView) -> Seq<Seq<char>> {
    entry("size="@, book.size) + entry("format="@, book.format) + entry("lang="@, book.lang)
}

/// The line that says what is known of a book's file, where anything is.
pub open spec fn meta_line(book: AudiobookView) -> Seq<char> {
    if meta(book).len() == 0 {
        Seq::empty()
    } else {
        "  "@ + joined(meta(book), " "@) + "\n"@
    }
}

/// The line with the magnet link, where there is one.
pub open spec fn magnet_line(book: AudiobookView) -> Seq<char> {
    if book.magnet.len() == 0 {
        Seq::empty()
    } else {
        "  "@ + book.magnet + "\n"@
    }
}

/// What is written of one book: its title, what is known of its file, its magnet link, and an
/// empty line.
pub open spec fn book_text(book: AudiobookView) -> Seq<char> {
    book.title + "\n"@ + meta_line(book) + magnet_line(book) + "\n"@
}

/// What is written of the books, one after the other.
pub open spec fn books_text(books: Seq<AudiobookView>) -> Seq<char>
    decreases books.len(),
{
    if books.len() == 0 {
        Seq::empty()
    } else {
        books_text(books.drop_last()) + book_text(books.last())
    }
}

/// What is written where there are no books.
pub open spec fn no_results_text() -> Seq<char> {
    "No results found.\n"@
}

/// What is written to the standard output.
pub open spec fn shown_out(books: Seq<AudiobookView>) -> Seq<char> {
    books_text(books)
}

/// What is written to the standard error.
pub open spec fn shown_err(books: Seq<AudiobookView>) -> Seq<char> {
    if books.len() == 0 {
        no_results_text()
    } else {
        Seq::empty()
    }
}

fn push_entry(list: &mut Vec<String>, name: &str, value: &str)
    ensures
        string_views(final(list)@) == string_views(old(list)@) + entry(name@, value@),
{
    if !value.is_empty() {
        let mut s = name.to_owned();
        s.append(value);
        list.push(s);
        assert(string_views(list@) =~= string_views(old(list)@) + entry(name@, value@));
    } else {
        assert(string_views(list@) =~= string_views(old(list)@) + entry(name@, value@));
    }
}

fn push_indented(out: &mut String, line: &str)
    ensures
        final(out)@ == old(out)@ + "  "@ + line@ + "\n"@,
{
    out.append("  ");
    out.append(line);
    out.append("\n");
}

/// Writes one book.
pub fn push_book(out: &mut String, book: &Audiobook)
    ensures
        final(out)@ == old(out)@ + book_text(book@),
{
    let mut list: Vec<String> = Vec::new();
    push_entry(&mut list, "size=", book.size.as_str());
    push_entry(&mut list, "format=", book.format.as_str());
    push_entry(&mut list, "lang=", book.lang.as_str());
    assert(string_views(list@) =~= meta(book@));
    assert(list@.len() == meta(book@).len());
    out.append(book.title.as_str());
    out.append("\n");
    if list.len() > 0 {
        push_indented(out, join_strings(&list, " ").as_str());
    }
    if !book.magnet.as_str().is_empty() {
        push_indented(out, book.magnet.as_str());
    }
    out.append("\n");
    assert(out@ =~= old(out)@ + book_text(book@));
}

/// What the user gets to see of the results.
pub fn display(results: &[Audiobook]) -> (r: Output)
    ensures
        r.out@ == shown_out(book_views(results@)),
        r.err@ == shown_err(book_views(results@)),
        results@.len() == 0 ==> r.out@ == Seq::<char>::empty() && r.err@ == no_results_text(),
        results@.len() > 0 ==> r.out@ == books_text(book_views(results@)) && r.err@
            == Seq::<char>::empty(),
{
    if results.len() == 0 {
        return Output { out: String::new(), err: "No results found.\n".to_owned() };
    }
    let mut out = String::new();
    let mut i: usize = 0;
    let ghost all = book_views(results@);
    while i < results.len()
        invariant
            all == book_views(results@),
            i <= results@.len(),
            out@ == books_text(all.take(i as int)),
        decreases results.len() - i,
    {
        push_book(&mut out, &results[i]);
        assert(all.take(i + 1).drop_last() =~= all.take(i as int));
        i += 1;
    }
    assert(all.take(i as int) =~= all);
    Output { out, err: String::new() }
}

/// The results are written in their order, each on its own: what is written of two lists put
/// together is what is written of each.
pub proof fn law_books_are_written_one_by_one(
    first: Seq<AudiobookView>,
    second: Seq<AudiobookView>,
)
    ensures
        books_text(first + second) == books_text(first) + books_text(second),
    decreases second.len(),
{
    if second.len() == 0 {
        assert(first + second =~= first);
        assert(books_text(first) + books_text(second) =~= books_text(first));
    } else {
        law_books_are_written_one_by_one(first, second.drop_last());
        assert((first + second).drop_last() =~= first + second.drop_last());
        assert(books_text(first + second) =~= books_text(first) + books_text(second));
    }
}

/// What is written of a book is its whole title on a line of its own, then its size, format and
/// language on one line, each with its name and as far as it is known, then its whole magnet link
/// on a line of its own, if it has one, and then an empty line.
pub proof fn law_book_is_written_whole(book: AudiobookView)
    ensures
        ({
            let size = if book.size.len() > 0 {
                " size="@ + book.size
            } else {
                Seq::empty()
            };
            let format = if book.format.len() > 0 {
                " format="@ + book.format
            } else {
                Seq::empty()
            };
            let lang = if book.lang.len() > 0 {
                " lang="@ + book.lang
            } else {
                Seq::empty()
            };
            let file = if book.size.len() > 0 || book.format.len() > 0 || book.lang.len() > 0 {
                " "@ + size + format + lang + "\n"@
            } else {
                Seq::empty()
            };
            let link = if book.magnet.len() > 0 {
                "  "@ + book.magnet + "\n"@
            } else {
                Seq::empty()
            };
            book_text(book) == book.title + "\n"@ + file + link + "\n"@
        }),
{
    let s = entry("size="@, book.size);
    let f = entry("format="@, book.format);
    let l = entry("lang="@, book.lang);
    reveal_strlit(" size=");
    reveal_strlit("size=");
    reveal_strlit(" format=");
    reveal_strlit("format=");
    reveal_strlit(" lang=");
    reveal_strlit("lang=");
    reveal_strlit(" ");
    reveal_strlit("  ");
    assert(" size="@ =~= " "@ + "size="@);
    assert(" format="@ =~= " "@ + "format="@);
    assert(" lang="@ =~= " "@ + "lang="@);
    assert("  "@ =~= " "@ + " "@);
    assert(meta(book).len() == s.len() + f.len() + l.len());
    lemma_joined_entries(s, f, l, " "@);
    let size = if book.size.len() > 0 {
        " size="@ + book.size
    } else {
        Seq::empty()
    };
    let format = if book.format.len() > 0 {
        " format="@ + book.format
    } else {
        Seq::empty()
    };
    let lang = if book.lang.len() > 0 {
        " lang="@ + book.lang
    } else {
        Seq::empty()
    };
    assert(size =~= led(s, " "@));
    assert(format =~= led(f, " "@));
    assert(lang =~= led(l, " "@));
    if meta(book).len() > 0 {
        let all = joined(meta(book), " "@);
        assert(" "@ + all == size + format + lang);
        assert("  "@ + all =~= " "@ + (" "@ + all));
        assert(" "@ + size + format + lang =~= " "@ + (size + format + lang));
        assert(meta_line(book) =~= " "@ + size + format + lang + "\n"@);
    }
}

/// The only part, if there is one, with `separator` in front.
spec fn led(part: Seq<Seq<char>>, separator: Seq<char>) -> Seq<char> {
    if part.len() == 0 {
        Seq::empty()
    } else {
        separator + part[0]
    }
}

proof fn lemma_joined_entries(
    a: Seq<Seq<char>>,
    b: Seq<Seq<char>>,
    c: Seq<Seq<char>>,
    separator: Seq<char>,
)
    requires
        a.len() <= 1,
        b.len() <= 1,
        c.len() <= 1,
    ensures
        a.len() + b.len() + c.len() > 0 ==> separator + joined(a + b + c, separator) == led(
            a,
            separator,
        ) + led(b, separator) + led(c, separator),
{
    let all = a + b + c;
    reveal_with_fuel(joined, 4);
    if all.len() == 1 {
        assert(separator + joined(all, separator) =~= led(a, separator) + led(b, separator) + led(
            c,
            separator,
        ));
    } else if all.len() == 2 {
        assert(all.drop_last() =~= seq![all[0]]);
        assert(joined(all, separator) == all[0] + separator + all[1]);
        assert(separator + joined(all, separator) =~= led(a, separator) + led(b, separator) + led(
            c,
            separator,
        ));
    } else if all.len() == 3 {
        assert(all.drop_last().drop_last() =~= seq![all[0]]);
        assert(joined(all.drop_last(), separator) == all[0] + separator + all[1]);
        assert(separator + joined(all, separator) =~= led(a, separator) + led(b, separator) + led(
            c,
            separator,
        ));
    }
}

/// What is written of a book contains its whole title and its whole magnet link, the link on a line
/// of its own.
pub proof fn law_written_book_contains_its_link(book: AudiobookView)
    ensures
        contains(book_text(book), book.title),
        contains(book_text(book), book.magnet),
        book.magnet.len() > 0 ==> contains(book_text(book), "\n  "@ + book.magnet + "\n"@),
{
    let text = book_text(book);
    let none = Seq::<char>::empty();
    let rest = "\n"@ + meta_line(book) + magnet_line(book) + "\n"@;
    law_text_contains_its_parts(none, book.title, rest);
    assert(none + book.title + rest =~= text);
    if book.magnet.len() > 0 {
        let head = book.title + "\n"@ + meta_line(book);
        law_text_contains_its_parts(head + "  "@, book.magnet, "\n"@ + "\n"@);
        assert(head + "  "@ + book.magnet + ("\n"@ + "\n"@) =~= text);
        reveal_strlit("\n");
        reveal_strlit("  ");
        reveal_strlit("\n  ");
        assert("\n  "@ =~= "\n"@ + "  "@);
        assert(head.len() > 0 && head.last() == '\n');
        assert(head =~= head.drop_last() + "\n"@);
        law_text_contains_its_parts(
            head.drop_last(),
            "\n  "@ + book.magnet + "\n"@,
            "\n"@,
        );
        assert(head.drop_last() + ("\n  "@ + book.magnet + "\n"@) + "\n"@ =~= text);
    } else {
        law_text_contains_its_parts(text, book.magnet, none);
        assert(text + book.magnet + none =~= text);
    }
}

/// What is written of a list is what is written of each book, one behind the other.
pub proof fn law_every_book_is_written(books: Seq<AudiobookView>, i: int)
    requires
        0 <= i < books.len(),
    ensures
        books_text(Seq::empty()).len() == 0,
        books_text(books) == books_text(books.take(i)) + book_text(books[i]) + books_text(
            books.skip(i + 1),
        ),
        contains(books_text(books), book_text(books[i])),
{
    let one = seq![books[i]];
    assert(books =~= books.take(i) + one + books.skip(i + 1));
    law_books_are_written_one_by_one(books.take(i) + one, books.skip(i + 1));
    law_books_are_written_one_by_one(books.take(i), one);
    assert(one.drop_last() =~= Seq::<AudiobookView>::empty());
    reveal_with_fuel(books_text, 2);
    assert(books_text(one) =~= book_text(books[i]));
    law_text_contains_its_parts(
        books_text(books.take(i)),
        book_text(books[i]),
        books_text(books.skip(i + 1)),
    );
}

/// The user sees every result whole and in order, and hears of no results exactly where there are
/// none.
pub proof fn law_every_result_is_shown(books: Seq<AudiobookView>, i: int)
    requires
        0 <= i < books.len(),
    ensures
        shown_out(books) == shown_out(books.take(i)) + book_text(books[i]) + shown_out(
            books.skip(i + 1),
        ),
        contains(shown_out(books), book_text(books[i])),
        shown_err(books).len() == 0,
        shown_out(Seq::empty()).len() == 0,
        shown_err(Seq::empty()) == "No results found.\n"@,
{
    law_every_book_is_written(books, i);
}

} // verus!
