//! The page that describes one audiobook.

use vstd::prelude::*;
use vstd::string::*;

use crate::html::{element_views, fits_parser, html_elements, is_name, select_elements};
use crate::html::{Element, ElementView};
use crate::text::{all_in, is_stripped, law_trim_leaves_the_middle, CharClass};
use crate::text::{chars_of, contains, contains_chars, contains_str, lines, lines_chars};
use crate::text::{occurs_at_index, slice_views, starts_with, starts_with_str, string_of};
use crate::text::{string_views, trim, trim_chars};

verus! {

/// What the detail page says of an audiobook.
#[derive(Debug, PartialEq, Eq)]
pub struct DetailInfo {
    /// The torrent's info hash, in hexadecimal digits.
    pub info_hash: String,
    /// The announce addresses of the trackers.
    pub trackers: Vec<String>,
    /// Where the .torrent file is; empty where the page names no such file.
    pub torrent_url: String,
}

/// The model of a [`DetailInfo`].
#[verifier::ext_equal]
pub struct DetailInfoView {
    pub info_hash: Seq<char>,
    pub trackers: Seq<Seq<char>>,
    pub torrent_url: Seq<char>,
}

impl View for DetailInfo {
    type V = DetailInfoView;

    open spec fn view(&self) -> DetailInfoView {
        DetailInfoView {
            info_hash: self.info_hash@,
            trackers: string_views(self.trackers@),
            torrent_url: self.torrent_url@,
        }
    }
}

/// Why a detail page could not be used.
#[derive(Clone, Copy, PartialEq, Eq, Structural, Debug)]
pub enum DetailError {
    /// No cell of the page holds an info hash.
    InfoHashNotFound,
}

impl DetailError {
    /// What the user is told.
    pub open spec fn text(self) -> Seq<char> {
        match self {
            DetailError::InfoHashNotFound => "Info hash not found on detail page"@,
        }
    }

    /// What the user is told.
    pub fn message(&self) -> (r: String)
        ensures
            r@ == self.text(),
    {
        match self {
            DetailError::InfoHashNotFound => "Info hash not found on detail page".to_owned(),
        }
    }
}

/// A hexadecimal digit, in either case.
pub open spec fn is_hex_digit(c: char) -> bool {
    '0' <= c <= '9' || 'a' <= c <= 'f' || 'A' <= c <= 'F'
}

/// Forty hexadecimal digits.
pub open spec fn is_info_hash(s: Seq<char>) -> bool {
    &&& s.len() == 40
    &&& forall|i: int| 0 <= i < s.len() ==> is_hex_digit(#[trigger] s[i])
}

/// An address that a tracker can have.
pub open spec fn is_tracker_url(s: Seq<char>) -> bool {
    ||| starts_with(s, "udp://"@)
    ||| starts_with(s, "http://"@)
    ||| starts_with(s, "https://"@)
}

/// A cell labelled `Info Hash`.
pub open spec fn is_hash_label(cell: ElementView) -> bool {
    contains(cell.text, "Info Hash"@)
}

/// A cell labelled `Tracker`.
pub open spec fn is_tracker_label(cell: ElementView) -> bool {
    contains(cell.text, "Tracker"@) && !is_hash_label(cell)
}

/// The cell at index `i` is an info hash, and the one before it says so.
pub open spec fn hash_stands_at(cells: Seq<ElementView>, i: int) -> bool {
    &&& 1 <= i < cells.len()
    &&& is_hash_label(cells[i - 1])
    &&& is_info_hash(trim(cells[i].text))
}

/// The info hash in the cells before index `n`. Where there are several, the last one counts.
pub open spec fn hash_before(cells: Seq<ElementView>, n: int) -> Option<Seq<char>>
    decreases n,
{
    if n <= 0 {
        None
    } else if hash_stands_at(cells, n - 1) {
        Some(trim(cells[n - 1].text))
    } else {
        hash_before(cells, n - 1)
    }
}

/// The info hash in the cells of a page.
pub open spec fn hash_in(cells: Seq<ElementView>) -> Option<Seq<char>> {
    hash_before(cells, cells.len() as int)
}

/// Those of the lines that are tracker addresses, without the whitespace around them.
pub open spec fn tracker_lines(lines: Seq<Seq<char>>) -> Seq<Seq<char>>
    decreases lines.len(),
{
    if lines.len() == 0 {
        Seq::empty()
    } else if is_tracker_url(trim(lines.last())) {
        tracker_lines(lines.drop_last()).push(trim(lines.last()))
    } else {
        tracker_lines(lines.drop_last())
    }
}

/// The tracker addresses in the cells before index `n`: the lines of each cell that follows a
/// tracker label.
pub open spec fn trackers_before(cells: Seq<ElementView>, n: int) -> Seq<Seq<char>>
    decreases n,
{
    if n <= 1 {
        Seq::empty()
    } else if is_tracker_label(cells[n - 2]) {
        trackers_before(cells, n - 1) + tracker_lines(lines(cells[n - 1].text))
    } else {
        trackers_before(cells, n - 1)
    }
}

/// The tracker addresses in the cells of a page.
pub open spec fn trackers_in(cells: Seq<ElementView>) -> Seq<Seq<char>> {
    trackers_before(cells, cells.len() as int)
}

/// A link to a .torrent file.
pub open spec fn is_torrent_link(link: ElementView) -> bool {
    link.attr matches Some(href) && (contains(href, ".torrent"@) || contains(href, "/torrent/"@))
}

/// The target of the first link to a .torrent file.
pub open spec fn torrent_link_in(links: Seq<ElementView>) -> Option<Seq<char>>
    decreases links.len(),
{
    if links.len() == 0 {
        None
    } else if is_torrent_link(links[0]) {
        links[0].attr
    } else {
        torrent_link_in(links.skip(1))
    }
}

/// The address that `path` means on the site `base_url`.
pub open spec fn absolute_url(base_url: Seq<char>, path: Seq<char>) -> Seq<char> {
    if starts_with(path, "http"@) {
        path
    } else {
        base_url + path
    }
}

/// Where the .torrent file is that the links lead to; nothing where none does.
pub open spec fn torrent_url_in(links: Seq<ElementView>, base_url: Seq<char>) -> Seq<char> {
    match torrent_link_in(links) {
        Some(href) => absolute_url(base_url, href),
        None => Seq::empty(),
    }
}

/// What the cells and links of a detail page say.
pub open spec fn detail_in(
    cells: Seq<ElementView>,
    links: Seq<ElementView>,
    base_url: Seq<char>,
) -> Result<DetailInfoView, DetailError> {
    match hash_in(cells) {
        Some(hash) => Ok(
            DetailInfoView {
                info_hash: hash,
                trackers: trackers_in(cells),
                torrent_url: torrent_url_in(links, base_url),
            },
        ),
        None => Err(DetailError::InfoHashNotFound),
    }
}

/// The table cells of the page `html`.
pub open spec fn cells_of_page(html: Seq<char>) -> Seq<ElementView> {
    html_elements(html, "td"@, "href"@)
}

/// The links of the page `html`.
pub open spec fn links_of_page(html: Seq<char>) -> Seq<ElementView> {
    html_elements(html, "a"@, "href"@)
}

/// What the detail page `html` of the site `base_url` says.
pub open spec fn page_detail(base_url: Seq<char>, html: Seq<char>) -> Result<
    DetailInfoView,
    DetailError,
> {
    detail_in(cells_of_page(html), links_of_page(html), base_url)
}

/// `r` is the executable form of `d`.
pub open spec fn is_detail(
    r: Result<DetailInfo, DetailError>,
    d: Result<DetailInfoView, DetailError>,
) -> bool {
    match r {
        Ok(info) => d == Ok::<DetailInfoView, DetailError>(info@),
        Err(e) => d == Err::<DetailInfoView, DetailError>(e),
    }
}

fn is_hash(s: &[char]) -> (r: bool)
    ensures
        r == is_info_hash(s@),
{
    if s.len() != 40 {
        return false;
    }
    let mut i: usize = 0;
    while i < s.len()
        invariant
            i <= s@.len(),
            forall|j: int| 0 <= j < i ==> is_hex_digit(#[trigger] s@[j]),
        decreases s.len() - i,
    {
        let c = s[i];
        if !(('0' <= c && c <= '9') || ('a' <= c && c <= 'f') || ('A' <= c && c <= 'F')) {
            assert(!is_hex_digit(s@[i as int]));
            return false;
        }
        i += 1;
    }
    true
}

/// The info hash in the cells of a page, the last one where there are several.
pub fn find_hash(cells: &Vec<Element>) -> (r: Option<String>)
    ensures
        r is Some <==> hash_in(element_views(cells@)) is Some,
        r matches Some(hash) ==> hash_in(element_views(cells@)) == Some(hash@),
{
    let mut found: Option<String> = None;
    let mut i: usize = 1;
    let ghost all = element_views(cells@);
    proof {
        reveal_with_fuel(hash_before, 2);
    }
    while i < cells.len()
        invariant
            1 <= i,
            i <= cells@.len() || (cells@.len() == 0 && i == 1),
            all == element_views(cells@),
            found is Some <==> hash_before(all, i as int) is Some,
            found matches Some(hash) ==> hash_before(all, i as int) == Some(hash@),
        decreases cells.len() - i,
    {
        if contains_str(cells[i - 1].text.as_str(), "Info Hash") {
            let text = chars_of(cells[i].text.as_str());
            let hash = trim_chars(&text);
            if is_hash(hash) {
                found = Some(string_of(hash));
            }
        }
        i += 1;
    }
    found
}

fn push_trackers(trackers: &mut Vec<String>, text: &str)
    ensures
        string_views(final(trackers)@) == string_views(old(trackers)@) + tracker_lines(
            lines(text@),
        ),
{
    let chars = chars_of(text);
    let all = lines_chars(&chars);
    let ghost views = slice_views(all@);
    let mut i: usize = 0;
    assert(string_views(trackers@) =~= string_views(old(trackers)@) + tracker_lines(views.take(0)));
    while i < all.len()
        invariant
            views == slice_views(all@),
            i <= all@.len(),
            string_views(trackers@) == string_views(old(trackers)@) + tracker_lines(
                views.take(i as int),
            ),
        decreases all.len() - i,
    {
        let t = trim_chars(all[i]);
        assert(views.take(i + 1).drop_last() =~= views.take(i as int));
        assert(views.take(i + 1).last() == all@[i as int]@);
        let ghost before = trackers@;
        if occurs_at_index(t, &chars_of("udp://"), 0) || occurs_at_index(
            t,
            &chars_of("http://"),
            0,
        ) || occurs_at_index(t, &chars_of("https://"), 0) {
            trackers.push(string_of(t));
            assert(string_views(trackers@) =~= string_views(before).push(t@));
        }
        i += 1;
        assert(string_views(trackers@) =~= string_views(old(trackers)@) + tracker_lines(
            views.take(i as int),
        ));
    }
    assert(views.take(views.len() as int) =~= views);
}

/// The tracker addresses in the cells of a page.
pub fn find_trackers(cells: &Vec<Element>) -> (r: Vec<String>)
    ensures
        string_views(r@) == trackers_in(element_views(cells@)),
{
    let mut trackers: Vec<String> = Vec::new();
    let mut i: usize = 1;
    let ghost all = element_views(cells@);
    assert(string_views(trackers@) =~= Seq::<Seq<char>>::empty());
    while i < cells.len()
        invariant
            1 <= i,
            i <= cells@.len() || (cells@.len() == 0 && i == 1),
            all == element_views(cells@),
            string_views(trackers@) == trackers_before(all, i as int),
        decreases cells.len() - i,
    {
        let label = chars_of(cells[i - 1].text.as_str());
        if contains_chars(&label, &chars_of("Tracker")) && !contains_chars(
            &label,
            &chars_of("Info Hash"),
        ) {
            push_trackers(&mut trackers, cells[i].text.as_str());
        }
        i += 1;
    }
    trackers
}

/// The address that `path` means on the site `base_url`.
pub fn resolve_url(base_url: &str, path: &str) -> (r: String)
    ensures
        r@ == absolute_url(base_url@, path@),
{
    if starts_with_str(path, "http") {
        path.to_owned()
    } else {
        let mut url = base_url.to_owned();
        url.append(path);
        url
    }
}

/// Where the .torrent file is that the links lead to; empty where none does.
pub fn find_torrent_url(links: &Vec<Element>, base_url: &str) -> (r: String)
    ensures
        r@ == torrent_url_in(element_views(links@), base_url@),
{
    let mut i: usize = 0;
    let ghost all = element_views(links@);
    assert(all.skip(0) =~= all);
    while i < links.len()
        invariant
            all == element_views(links@),
            i <= links@.len(),
            torrent_link_in(all.skip(i as int)) == torrent_link_in(all),
        decreases links.len() - i,
    {
        assert(all.skip(i as int)[0] == links@[i as int]@);
        assert(all.skip(i as int).skip(1) =~= all.skip(i + 1));
        if let Some(href) = &links[i].attr {
            if contains_str(href.as_str(), ".torrent") || contains_str(href.as_str(), "/torrent/") {
                return resolve_url(base_url, href.as_str());
            }
        }
        i += 1;
    }
    String::new()
}

/// What the cells and links of a detail page say.
pub fn detail_of(cells: &Vec<Element>, links: &Vec<Element>, base_url: &str) -> (r: Result<
    DetailInfo,
    DetailError,
>)
    ensures
        is_detail(r, detail_in(element_views(cells@), element_views(links@), base_url@)),
{
    match find_hash(cells) {
        Some(info_hash) => {
            let info = DetailInfo {
                info_hash,
                trackers: find_trackers(cells),
                torrent_url: find_torrent_url(links, base_url),
            };
            assert(detail_in(element_views(cells@), element_views(links@), base_url@)->Ok_0
                =~= info@);
            Ok(info)
        },
        None => Err(DetailError::InfoHashNotFound),
    }
}

/// What the detail page `html` of the site `base_url` says.
pub fn parse_detail_info(base_url: &str, html: &str) -> (r: Result<DetailInfo, DetailError>)
    requires
        fits_parser(html@),
    ensures
        is_detail(r, page_detail(base_url@, html@)),
        is_detail(r, detail_in(cells_of_page(html@), links_of_page(html@), base_url@)),
{
    proof {
        reveal_strlit("td");
        reveal_strlit("a");
        assert(is_name("td"@));
        assert(is_name("a"@));
    }
    let cells = select_elements(html, "td", "href");
    let links = select_elements(html, "a", "href");
    detail_of(&cells, &links, base_url)
}

proof fn lemma_hash_before(cells: Seq<ElementView>, n: int)
    requires
        n <= cells.len(),
    ensures
        hash_before(cells, n) is Some <==> exists|i: int| i < n && hash_stands_at(cells, i),
        hash_before(cells, n) matches Some(hash) ==> is_info_hash(hash),
    decreases n,
{
    if n > 0 {
        lemma_hash_before(cells, n - 1);
        if hash_before(cells, n - 1) is Some {
            let i = choose|i: int| i < n - 1 && hash_stands_at(cells, i);
            assert(i < n && hash_stands_at(cells, i));
        }
    }
}

/// A detail page is refused exactly where no cell behind an `Info Hash` label is an info hash.
pub proof fn law_page_without_hash_is_refused(
    cells: Seq<ElementView>,
    links: Seq<ElementView>,
    base_url: Seq<char>,
)
    ensures
        detail_in(cells, links, base_url) is Err <==> forall|i: int| !hash_stands_at(cells, i),
{
    lemma_hash_before(cells, cells.len() as int);
    assert forall|i: int| hash_stands_at(cells, i) implies i < cells.len() by {}
}

/// Where several cells are info hashes, the last one counts.
pub proof fn law_last_hash_counts(cells: Seq<ElementView>, i: int)
    requires
        hash_stands_at(cells, i),
        forall|j: int| i < j ==> !hash_stands_at(cells, j),
    ensures
        hash_in(cells) == Some(trim(cells[i].text)),
{
    lemma_no_later_hash(cells, i, cells.len() as int);
}

proof fn lemma_no_later_hash(cells: Seq<ElementView>, i: int, n: int)
    requires
        hash_stands_at(cells, i),
        forall|j: int| i < j ==> !hash_stands_at(cells, j),
        i < n,
    ensures
        hash_before(cells, n) == Some(trim(cells[i].text)),
    decreases n,
{
    if n - 1 > i {
        lemma_no_later_hash(cells, i, n - 1);
    }
}

proof fn lemma_tracker_lines(lines: Seq<Seq<char>>)
    ensures
        forall|i: int|
            0 <= i < tracker_lines(lines).len() ==> is_tracker_url(
                #[trigger] tracker_lines(lines)[i],
            ),
    decreases lines.len(),
{
    if lines.len() > 0 {
        let earlier = tracker_lines(lines.drop_last());
        lemma_tracker_lines(lines.drop_last());
        assert forall|i: int| 0 <= i < tracker_lines(lines).len() implies is_tracker_url(
            #[trigger] tracker_lines(lines)[i],
        ) by {
            if i < earlier.len() {
                assert(tracker_lines(lines)[i] == earlier[i]);
            }
        }
    }
}

proof fn lemma_trackers_before(cells: Seq<ElementView>, n: int)
    ensures
        forall|i: int|
            0 <= i < trackers_before(cells, n).len() ==> is_tracker_url(
                #[trigger] trackers_before(cells, n)[i],
            ),
    decreases n,
{
    if n > 1 {
        lemma_trackers_before(cells, n - 1);
        lemma_tracker_lines(lines(cells[n - 1].text));
        let earlier = trackers_before(cells, n - 1);
        let found = tracker_lines(lines(cells[n - 1].text));
        assert forall|i: int| 0 <= i < trackers_before(cells, n).len() implies is_tracker_url(
            #[trigger] trackers_before(cells, n)[i],
        ) by {
            if i < earlier.len() {
                assert(trackers_before(cells, n)[i] == earlier[i]);
            } else {
                assert(trackers_before(cells, n)[i] == found[i - earlier.len()]);
            }
        }
    }
}

/// What a detail page says is fit for a magnet link: the info hash has forty hexadecimal digits,
/// and every tracker has an address of a kind that trackers have.
pub proof fn law_detail_is_well_formed(
    cells: Seq<ElementView>,
    links: Seq<ElementView>,
    base_url: Seq<char>,
)
    ensures
        detail_in(cells, links, base_url) matches Ok(detail) ==> {
            &&& is_info_hash(detail.info_hash)
            &&& forall|i: int|
                0 <= i < detail.trackers.len() ==> is_tracker_url(#[trigger] detail.trackers[i])
        },
{
    lemma_hash_before(cells, cells.len() as int);
    lemma_trackers_before(cells, cells.len() as int);
}

proof fn lemma_hash_before_prefix(cells: Seq<ElementView>, cell: ElementView, n: int)
    requires
        n <= cells.len(),
    ensures
        hash_before(cells.push(cell), n) == hash_before(cells, n),
    decreases n,
{
    if n > 0 {
        lemma_hash_before_prefix(cells, cell, n - 1);
        assert(cells.push(cell)[n - 1] == cells[n - 1]);
        if n >= 2 {
            assert(cells.push(cell)[n - 2] == cells[n - 2]);
        }
    }
}

/// Cell by cell: a cell behind one that says `Info Hash` counts where it holds forty hexadecimal
/// digits and nothing else but whitespace around them, and then counts as a whole, whatever came
/// before it. No other cell changes what was found before it.
pub proof fn law_info_hash_is_forty_digits(
    cells: Seq<ElementView>,
    cell: ElementView,
    w1: Seq<char>,
    value: Seq<char>,
    w2: Seq<char>,
)
    requires
        cell.text == w1 + value + w2,
        all_in(w1, CharClass::Whitespace),
        all_in(w2, CharClass::Whitespace),
        is_stripped(value, CharClass::Whitespace),
    ensures
        hash_in(Seq::empty()) is None,
        ({
            let counts = {
                &&& cells.len() > 0
                &&& contains(cells.last().text, "Info Hash"@)
                &&& value.len() == 40
                &&& forall|i: int|
                    0 <= i < 40 ==> ('0' <= #[trigger] value[i] <= '9') || ('a' <= value[i] <= 'f')
                        || ('A' <= value[i] <= 'F')
            };
            &&& counts ==> hash_in(cells.push(cell)) == Some(value)
            &&& !counts ==> hash_in(cells.push(cell)) == hash_in(cells)
        }),
{
    let all = cells.push(cell);
    let n = cells.len() as int;
    lemma_hash_before_prefix(cells, cell, n);
    law_trim_leaves_the_middle(w1, value, w2, CharClass::Whitespace);
    assert(all[n] == cell);
    if n > 0 {
        assert(all[n - 1] == cells.last());
    }
    if value.len() == 40 {
        if !is_info_hash(value) {
            let i = choose|i: int| 0 <= i < value.len() && !is_hex_digit(#[trigger] value[i]);
            assert(!is_hex_digit(value[i]));
        } else {
            assert forall|i: int| 0 <= i < 40 implies ('0' <= #[trigger] value[i] <= '9') || ('a'
                <= value[i] <= 'f') || ('A' <= value[i] <= 'F') by {
                assert(is_hex_digit(value[i]));
            }
        }
    }
}

proof fn lemma_trackers_before_prefix(cells: Seq<ElementView>, cell: ElementView, n: int)
    requires
        n <= cells.len(),
    ensures
        trackers_before(cells.push(cell), n) == trackers_before(cells, n),
    decreases n,
{
    if n > 1 {
        lemma_trackers_before_prefix(cells, cell, n - 1);
        assert(cells.push(cell)[n - 1] == cells[n - 1]);
        assert(cells.push(cell)[n - 2] == cells[n - 2]);
    }
}

/// Cell by cell: one behind a cell that says `Tracker` and not `Info Hash` adds the addresses on its
/// lines to those found before it, and no other cell adds any.
pub proof fn law_trackers_stand_behind_their_label(cells: Seq<ElementView>, cell: ElementView)
    ensures
        trackers_in(Seq::empty()).len() == 0,
        ({
            let counts = {
                &&& cells.len() > 0
                &&& contains(cells.last().text, "Tracker"@)
                &&& !contains(cells.last().text, "Info Hash"@)
            };
            &&& counts ==> trackers_in(cells.push(cell)) == trackers_in(cells) + tracker_lines(
                lines(cell.text),
            )
            &&& !counts ==> trackers_in(cells.push(cell)) == trackers_in(cells)
        }),
{
    let all = cells.push(cell);
    let n = cells.len() as int;
    lemma_trackers_before_prefix(cells, cell, n);
    assert(all[n] == cell);
    if n > 0 {
        assert(all[n - 1] == cells.last());
    }
}

/// Line by line: one that begins with `udp://`, `http://` or `https://`, whitespace around it aside,
/// adds the rest of itself, and no other line adds anything.
pub proof fn law_tracker_lines_are_kept_whole(
    lines: Seq<Seq<char>>,
    w1: Seq<char>,
    value: Seq<char>,
    w2: Seq<char>,
)
    requires
        all_in(w1, CharClass::Whitespace),
        all_in(w2, CharClass::Whitespace),
        is_stripped(value, CharClass::Whitespace),
    ensures
        tracker_lines(Seq::empty()).len() == 0,
        starts_with(value, "udp://"@) || starts_with(value, "http://"@) || starts_with(
            value,
            "https://"@,
        ) ==> tracker_lines(lines.push(w1 + value + w2)) == tracker_lines(lines).push(value),
        !starts_with(value, "udp://"@) && !starts_with(value, "http://"@) && !starts_with(
            value,
            "https://"@,
        ) ==> tracker_lines(lines.push(w1 + value + w2)) == tracker_lines(lines),
{
    law_trim_leaves_the_middle(w1, value, w2, CharClass::Whitespace);
    assert(lines.push(w1 + value + w2).drop_last() =~= lines);
}

/// The target leads to a .torrent file.
spec fn names_torrent(target: Option<Seq<char>>) -> bool {
    target matches Some(href) && (contains(href, ".torrent"@) || contains(href, "/torrent/"@))
}

proof fn lemma_first_torrent_link(links: Seq<ElementView>, i: int)
    requires
        0 <= i <= links.len(),
        forall|j: int| 0 <= j < i ==> !names_torrent((#[trigger] links[j]).attr),
        i < links.len() ==> names_torrent(links[i].attr),
    ensures
        i < links.len() ==> torrent_link_in(links) == links[i].attr,
        i == links.len() ==> torrent_link_in(links) is None,
    decreases i,
{
    if i > 0 {
        assert(!names_torrent(links[0].attr));
        let rest = links.skip(1);
        assert forall|j: int| 0 <= j < i - 1 implies !names_torrent((#[trigger] rest[j]).attr) by {
            assert(rest[j] == links[j + 1]);
        }
        lemma_first_torrent_link(rest, i - 1);
    }
}

/// The .torrent file is where the first link leads whose target holds `.torrent` or `/torrent/`: at
/// that target as a whole, on the site unless it begins with `http`. Where no link does, there is
/// none.
pub proof fn law_first_torrent_link_counts(links: Seq<ElementView>, i: int, base_url: Seq<char>)
    requires
        0 <= i <= links.len(),
        forall|j: int|
            0 <= j < i ==> ((#[trigger] links[j]).attr matches Some(href) ==> !contains(
                href,
                ".torrent"@,
            ) && !contains(href, "/torrent/"@)),
        i < links.len() ==> (links[i].attr matches Some(href) && (contains(href, ".torrent"@)
            || contains(href, "/torrent/"@))),
    ensures
        i == links.len() ==> torrent_url_in(links, base_url).len() == 0,
        i < links.len() ==> ({
            let href = links[i].attr->0;
            &&& starts_with(href, "http"@) ==> torrent_url_in(links, base_url) == href
            &&& !starts_with(href, "http"@) ==> torrent_url_in(links, base_url) == base_url + href
        }),
{
    assert forall|j: int| 0 <= j < i implies !names_torrent((#[trigger] links[j]).attr) by {}
    lemma_first_torrent_link(links, i);
}

/// An address that begins with `http` is complete, and any other path is put behind the site.
pub proof fn law_addresses_are_kept_whole(base_url: Seq<char>, path: Seq<char>)
    ensures
        absolute_url(base_url, "http"@ + path) == "http"@ + path,
        !starts_with(path, "http"@) ==> absolute_url(base_url, path) == base_url + path,
{
    assert(("http"@ + path).subrange(0, "http"@.len() as int) =~= "http"@);
}

/// A detail page that has an info hash says that hash, the trackers and the .torrent file; one that
/// has none says nothing.
pub proof fn law_detail_has_all_its_parts(
    cells: Seq<ElementView>,
    links: Seq<ElementView>,
    base_url: Seq<char>,
)
    ensures
        hash_in(cells) matches Some(hash) ==> (detail_in(cells, links, base_url) matches Ok(detail)
            && detail.info_hash == hash && detail.trackers == trackers_in(cells)
            && detail.torrent_url == torrent_url_in(links, base_url)),
        hash_in(cells) is None ==> detail_in(cells, links, base_url) == Err::<
            DetailInfoView,
            DetailError,
        >(DetailError::InfoHashNotFound),
{
}

/// The cells of a page are its `td` elements, and its links the `a` elements with their `href`.
pub proof fn law_cells_and_links_are_found_by_their_tags(html: Seq<char>)
    ensures
        cells_of_page(html) == html_elements(html, "td"@, "href"@),
        links_of_page(html) == html_elements(html, "a"@, "href"@),
{
}

/// What a detail page says is what its `td` elements and the `href` of its `a` elements say.
pub proof fn law_detail_is_read_from_cells_and_links(base_url: Seq<char>, html: Seq<char>)
    ensures
        page_detail(base_url, html) == detail_in(
            html_elements(html, "td"@, "href"@),
            html_elements(html, "a"@, "href"@),
            base_url,
        ),
{
}

} // verus!
