//! What the user is told while the program is at work.

use vstd::prelude::*;
use vstd::string::*;

use crate::auth::SessionCheck;
use crate::retry::{retry_message, retry_notice};
use crate::text::{decimal, push_decimal, starts_with};

verus! {

/// How the user wants to be told.
#[derive(Clone, Copy, PartialEq, Eq, Structural, Debug)]
pub struct Progress {
    /// The user wants to hear nothing.
    pub quiet: bool,
    /// The words go to a terminal, where a line can be written over.
    pub is_terminal: bool,
}

impl Progress {
    /// The text, unless the user wants to hear nothing.
    pub open spec fn said(self, text: Seq<char>) -> Seq<char> {
        if self.quiet {
            Seq::empty()
        } else {
            text
        }
    }

    /// The way back to the start of the line, on a terminal.
    pub open spec fn line_start(self) -> Seq<char> {
        if self.is_terminal {
            "\r"@
        } else {
            Seq::empty()
        }
    }

    /// Before a page of results is asked for.
    pub open spec fn searching_text(self, page: nat, pages: nat) -> Seq<char> {
        self.said(
            if pages > 1 {
                "Searching page "@ + decimal(page) + "/"@ + decimal(pages) + "... "@
            } else {
                "Searching... "@
            },
        )
    }

    /// After a page of results was read.
    pub open spec fn found_text(self, count: nat) -> Seq<char> {
        self.said(decimal(count) + " results\n"@)
    }

    /// Before the details of a book are asked for; books are counted from one. Only on a terminal,
    /// where the next such line is written over it.
    pub open spec fn fetching_text(self, number: nat, total: nat) -> Seq<char> {
        if self.is_terminal {
            self.said(
                "\rFetching details ("@ + decimal(number) + "/"@ + decimal(total) + ")... "@,
            )
        } else {
            Seq::empty()
        }
    }

    /// What has become of a book.
    pub open spec fn note_text(self, note: Seq<char>, about: Seq<char>) -> Seq<char> {
        self.said(self.line_start() + note + about + "\n"@)
    }

    /// After a .torrent file was saved.
    pub open spec fn saved_text(self, path: Seq<char>) -> Seq<char> {
        self.note_text("  Saved: "@, path)
    }

    /// After a .torrent file could not be saved.
    pub open spec fn torrent_failed_text(self, error: Seq<char>) -> Seq<char> {
        self.note_text("  Torrent download failed: "@, error)
    }

    /// After the details of a book could not be fetched.
    pub open spec fn detail_failed_text(self, error: Seq<char>) -> Seq<char> {
        self.note_text("  Detail fetch failed: "@, error)
    }

    /// After the details of all books were asked for, if there are any.
    pub open spec fn fetched_text(self, total: nat) -> Seq<char> {
        if total == 0 {
            Seq::empty()
        } else {
            self.said(
                self.line_start() + "Fetched "@ + decimal(total) + " details."@ + (
                if self.is_terminal {
                    "                    "@
                } else {
                    Seq::empty()
                }) + "\n"@,
            )
        }
    }

    /// Before the home page is asked for with a saved session.
    pub open spec fn checking_text(self) -> Seq<char> {
        self.said("Checking session... "@)
    }

    /// After the home page was asked for with a saved session.
    pub open spec fn checked_text(self, check: SessionCheck) -> Seq<char> {
        self.said(check.text() + "\n"@)
    }

    /// Before a login.
    pub open spec fn logging_in_text(self) -> Seq<char> {
        self.said("Logging in... "@)
    }

    /// After a login that worked.
    pub open spec fn logged_in_text(self) -> Seq<char> {
        self.said("ok\n"@)
    }

    /// Before a request that has failed with `error` is made again.
    pub open spec fn retrying_text(
        self,
        attempt: nat,
        retries: nat,
        secs: nat,
        error: Seq<char>,
    ) -> Seq<char> {
        self.said(retry_notice(attempt, retries, secs, error) + "\n"@)
    }

    fn say(&self, text: &str) -> (r: String)
        ensures
            r@ == self.said(text@),
    {
        if self.quiet {
            String::new()
        } else {
            text.to_owned()
        }
    }

    /// What is said before the home page is asked for with a saved session.
    pub fn checking(&self) -> (r: String)
        ensures
            r@ == self.checking_text(),
    {
        self.say("Checking session... ")
    }

    /// What is said after the home page was asked for with a saved session.
    pub fn checked(&self, check: SessionCheck) -> (r: String)
        ensures
            r@ == self.checked_text(check),
    {
        let mut s = check.message();
        s.append("\n");
        self.say(s.as_str())
    }

    /// What is said before a login.
    pub fn logging_in(&self) -> (r: String)
        ensures
            r@ == self.logging_in_text(),
    {
        self.say("Logging in... ")
    }

    /// What is said after a login that worked.
    pub fn logged_in(&self) -> (r: String)
        ensures
            r@ == self.logged_in_text(),
    {
        self.say("ok\n")
    }

    /// What is said after attempt number `attempt` has failed with `error`, before the request is
    /// made again.
    pub fn retrying(&self, attempt: u32, retries: u32, secs: u64, error: &str) -> (r: String)
        ensures
            r@ == self.retrying_text(attempt as nat, retries as nat, secs as nat, error@),
    {
        let mut s = retry_message(attempt, retries, secs, error);
        s.append("\n");
        self.say(s.as_str())
    }

    /// What is said before a page of results is asked for.
    pub fn searching(&self, page: usize, pages: usize) -> (r: String)
        ensures
            r@ == self.searching_text(page as nat, pages as nat),
    {
        if self.quiet {
            String::new()
        } else if pages > 1 {
            let mut s = "Searching page ".to_owned();
            push_decimal(&mut s, page as u64);
            s.append("/");
            push_decimal(&mut s, pages as u64);
            s.append("... ");
            s
        } else {
            "Searching... ".to_owned()
        }
    }

    /// What is said after a page with `count` results was read.
    pub fn found(&self, count: usize) -> (r: String)
        ensures
            r@ == self.found_text(count as nat),
    {
        let mut s = String::new();
        if !self.quiet {
            push_decimal(&mut s, count as u64);
            s.append(" results\n");
            assert(s@ =~= decimal(count as nat) + " results\n"@);
        }
        s
    }

    /// What is said before the details of book number `number` are asked for.
    pub fn fetching(&self, number: usize, total: usize) -> (r: String)
        ensures
            r@ == self.fetching_text(number as nat, total as nat),
    {
        if self.quiet || !self.is_terminal {
            String::new()
        } else {
            let mut s = "\rFetching details (".to_owned();
            push_decimal(&mut s, number as u64);
            s.append("/");
            push_decimal(&mut s, total as u64);
            s.append(")... ");
            s
        }
    }

    fn note(&self, note: &str, about: &str) -> (r: String)
        ensures
            r@ == self.note_text(note@, about@),
    {
        let mut s = String::new();
        if !self.quiet {
            if self.is_terminal {
                s.append("\r");
            }
            s.append(note);
            s.append(about);
            s.append("\n");
            assert(s@ =~= self.line_start() + note@ + about@ + "\n"@);
        }
        s
    }

    /// What is said after a .torrent file was saved.
    pub fn saved(&self, path: &str) -> (r: String)
        ensures
            r@ == self.saved_text(path@),
            r@ == self.note_text("  Saved: "@, path@),
    {
        self.note("  Saved: ", path)
    }

    /// What is said after a .torrent file could not be saved.
    pub fn torrent_failed(&self, error: &str) -> (r: String)
        ensures
            r@ == self.torrent_failed_text(error@),
            r@ == self.note_text("  Torrent download failed: "@, error@),
    {
        self.note("  Torrent download failed: ", error)
    }

    /// What is said after the details of a book could not be fetched.
    pub fn detail_failed(&self, error: &str) -> (r: String)
        ensures
            r@ == self.detail_failed_text(error@),
            r@ == self.note_text("  Detail fetch failed: "@, error@),
    {
        self.note("  Detail fetch failed: ", error)
    }

    /// What is said after the details of all books were asked for.
    pub fn fetched(&self, total: usize) -> (r: String)
        ensures
            r@ == self.fetched_text(total as nat),
    {
        let mut s = String::new();
        if !self.quiet && total > 0 {
            if self.is_terminal {
                s.append("\r");
            }
            s.append("Fetched ");
            push_decimal(&mut s, total as u64);
            s.append(" details.");
            if self.is_terminal {
                s.append("                    ");
            }
            s.append("\n");
            assert(s@ =~= self.fetched_text(total as nat));
        }
        s
    }
}

/// What the user is told where a search has found nothing.
pub open spec fn nothing_found_text(query: Seq<char>) -> Seq<char> {
    "No results found for: "@ + query + "\n"@
}

/// What the user is told where a search has found nothing, also one who wants to hear nothing.
pub fn nothing_found(query: &str) -> (r: String)
    ensures
        r@ == nothing_found_text(query@),
        r@ == "No results found for: "@ + query@ + "\n"@,
{
    let mut s = "No results found for: ".to_owned();
    s.append(query);
    s.append("\n");
    s
}

/// A user who wants to hear nothing of the program's progress hears nothing of it.
pub proof fn law_quiet_means_no_progress(
    p: Progress,
    check: SessionCheck,
    n: nat,
    total: nat,
    secs: nat,
    note: Seq<char>,
    about: Seq<char>,
)
    requires
        p.quiet,
    ensures
        p.checking_text() == Seq::<char>::empty(),
        p.checked_text(check) == Seq::<char>::empty(),
        p.logging_in_text() == Seq::<char>::empty(),
        p.logged_in_text() == Seq::<char>::empty(),
        p.retrying_text(n, total, secs, about) == Seq::<char>::empty(),
        p.searching_text(n, total) == Seq::<char>::empty(),
        p.found_text(n) == Seq::<char>::empty(),
        p.fetching_text(n, total) == Seq::<char>::empty(),
        p.note_text(note, about) == Seq::<char>::empty(),
        p.fetched_text(total) == Seq::<char>::empty(),
{
}

/// What a user who wants to hear of the program's progress is told: which page of how many is
/// searched, how many results it has, how many details have been fetched, and what has become of
/// each file. Numbers are written in decimal, and names and errors as a whole.
pub proof fn law_progress_tells_everything(
    p: Progress,
    n: nat,
    total: nat,
    note: Seq<char>,
    about: Seq<char>,
)
    requires
        !p.quiet,
    ensures
        total > 1 ==> p.searching_text(n, total) == "Searching page "@ + decimal(n) + "/"@
            + decimal(total) + "... "@,
        total <= 1 ==> p.searching_text(n, total) == "Searching... "@,
        p.found_text(n) == decimal(n) + " results\n"@,
        p.is_terminal ==> {
            &&& p.fetching_text(n, total) == "\rFetching details ("@ + decimal(n) + "/"@ + decimal(
                total,
            ) + ")... "@
            &&& p.note_text(note, about) == "\r"@ + note + about + "\n"@
            &&& total > 0 ==> p.fetched_text(total) == "\rFetched "@ + decimal(total)
                + " details.                    \n"@
        },
        !p.is_terminal ==> {
            &&& p.fetching_text(n, total).len() == 0
            &&& p.note_text(note, about) == note + about + "\n"@
            &&& total > 0 ==> p.fetched_text(total) == "Fetched "@ + decimal(total)
                + " details.\n"@
        },
        p.fetched_text(0).len() == 0,
{
    let none = Seq::<char>::empty();
    reveal_strlit("\r");
    reveal_strlit("Fetched ");
    reveal_strlit("\rFetched ");
    reveal_strlit(" details.");
    reveal_strlit(" details.\n");
    reveal_strlit(" details.                    \n");
    reveal_strlit("                    ");
    reveal_strlit("\n");
    assert("\rFetched "@ =~= "\r"@ + "Fetched "@);
    assert(" details.\n"@ =~= " details."@ + "\n"@);
    assert(" details.                    \n"@ =~= " details."@ + "                    "@ + "\n"@);
    assert(none + note + about + "\n"@ =~= note + about + "\n"@);
    if total > 0 && p.is_terminal {
        assert(p.fetched_text(total) =~= "\rFetched "@ + decimal(total)
            + " details.                    \n"@);
    }
    if total > 0 && !p.is_terminal {
        assert(p.fetched_text(total) =~= "Fetched "@ + decimal(total) + " details.\n"@);
    }
}

/// Every user is told the whole query that has found nothing.
pub proof fn law_query_without_results_is_named(query: Seq<char>)
    ensures
        starts_with(nothing_found_text(query), "No results found for: "@ + query),
        nothing_found_text(query).len() == 23 + query.len(),
        nothing_found_text(query).last() == '\n',
{
    reveal_strlit("No results found for: ");
    reveal_strlit("\n");
    let head = "No results found for: "@ + query;
    assert(nothing_found_text(query).subrange(0, head.len() as int) =~= head);
}

/// The whole path of a saved file is told, and the whole error where a file or the details of a book
/// could not be had.
pub proof fn law_outcome_of_a_book_is_told_whole(p: Progress, about: Seq<char>)
    requires
        !p.quiet,
        !p.is_terminal,
    ensures
        p.saved_text(about) == "  Saved: "@ + about + "\n"@,
        p.torrent_failed_text(about) == "  Torrent download failed: "@ + about + "\n"@,
        p.detail_failed_text(about) == "  Detail fetch failed: "@ + about + "\n"@,
        ({
            let terminal = Progress { is_terminal: true, ..p };
            &&& terminal.saved_text(about) == "\r"@ + p.saved_text(about)
            &&& terminal.torrent_failed_text(about) == "\r"@ + p.torrent_failed_text(about)
            &&& terminal.detail_failed_text(about) == "\r"@ + p.detail_failed_text(about)
        }),
        ({
            let quiet = Progress { quiet: true, ..p };
            &&& quiet.saved_text(about).len() == 0
            &&& quiet.torrent_failed_text(about).len() == 0
            &&& quiet.detail_failed_text(about).len() == 0
        }),
{
    let terminal = Progress { is_terminal: true, ..p };
    law_progress_tells_everything(p, 0, 0, "  Saved: "@, about);
    law_progress_tells_everything(p, 0, 0, "  Torrent download failed: "@, about);
    law_progress_tells_everything(p, 0, 0, "  Detail fetch failed: "@, about);
    assert(terminal.saved_text(about) =~= "\r"@ + p.saved_text(about));
    assert(terminal.torrent_failed_text(about) =~= "\r"@ + p.torrent_failed_text(about));
    assert(terminal.detail_failed_text(about) =~= "\r"@ + p.detail_failed_text(about));
}

} // verus!
