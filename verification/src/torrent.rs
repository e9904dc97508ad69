//! The name under which a .torrent file is saved.

use vstd::prelude::*;
use vstd::slice::slice_subrange;
use vstd::string::*;

use crate::text::{all_in, contains, first_at, is_whitespace, law_trim_leaves_the_middle};
use crate::text::{lemma_find, occurs_at, starts_with};
use crate::text::{between, between_chars, chars_of, lemma_strip_chars, string_of, strip};
use crate::text::{strip_chars, text_view, trim, trim_chars, CharClass};

verus! {

/// The character is a letter or a number, by `char::is_alphanumeric`.
pub uninterp spec fn is_alphanumeric(c: char) -> bool;

/// `char::is_alphanumeric`: a function of the character, by the tables of Unicode. For which
/// characters it is true is not stated.
pub assume_specification[ char::is_alphanumeric ](c: char) -> (r: bool)
    ensures
        r == is_alphanumeric(c),
;

/// A letter or a digit of ASCII, or a letter or a number outside it.
pub open spec fn is_word_char(c: char) -> bool {
    if c <= '\u{7f}' {
        'a' <= c <= 'z' || 'A' <= c <= 'Z' || '0' <= c <= '9'
    } else {
        is_alphanumeric(c)
    }
}

/// The character that stands for `c` in a file name.
pub open spec fn safe_char(c: char) -> char {
    if is_word_char(c) || c == ' ' || c == '-' {
        c
    } else {
        '_'
    }
}

/// The file name that a title gives.
pub open spec fn name_from_title(title: Seq<char>) -> Seq<char> {
    trim(title.map_values(|c: char| safe_char(c))) + ".torrent"@
}

/// The character parts a path: a slash, and on Windows also a backslash.
pub open spec fn is_separator(c: char, windows: bool) -> bool {
    c == '/' || (windows && c == '\\')
}

/// The parts of a path, between its separators.
pub open spec fn path_parts(path: Seq<char>, windows: bool) -> Seq<Seq<char>>
    decreases path.len(),
{
    if path.len() == 0 {
        seq![Seq::empty()]
    } else {
        let parts = path_parts(path.drop_last(), windows);
        if is_separator(path.last(), windows) {
            parts.push(Seq::empty())
        } else {
            parts.drop_last().push(parts.last().push(path.last()))
        }
    }
}

/// The part of a path leads on from where the path has got to: it is neither empty nor a dot.
pub open spec fn leads_on(part: Seq<char>) -> bool {
    part.len() > 0 && part != seq!['.']
}

/// How many of the parts lead on.
pub open spec fn steps(parts: Seq<Seq<char>>) -> nat
    decreases parts.len(),
{
    if parts.len() == 0 {
        0
    } else {
        steps(parts.drop_last()) + (if leads_on(parts.last()) {
            1nat
        } else {
            0nat
        })
    }
}

/// The path begins with the letter of a Windows drive.
pub open spec fn has_drive(path: Seq<char>) -> bool {
    &&& path.len() >= 2
    &&& 'a' <= path[0] <= 'z' || 'A' <= path[0] <= 'Z'
    &&& path[1] == ':'
}

/// The path does not start from the directory that it is put behind, but from elsewhere.
pub open spec fn starts_elsewhere(path: Seq<char>, windows: bool) -> bool {
    ||| path.len() > 0 && is_separator(path[0], windows)
    ||| windows && has_drive(path)
}

/// A file that is written under the path, put behind a directory, stands directly in that
/// directory: the path starts there and is no more than one step long. Where the one step is two
/// dots, or there is none, the path is that of a directory, and no file can be written under it.
pub open spec fn stays_in_directory(path: Seq<char>, windows: bool) -> bool {
    !starts_elsewhere(path, windows) && steps(path_parts(path, windows)) <= 1
}

/// The file name in a `Content-Disposition` header: what follows `filename=`, without the quotes
/// around it.
pub open spec fn name_in_header(disposition: Option<Seq<char>>) -> Option<Seq<char>> {
    match disposition {
        Some(d) => match between(d, "filename="@) {
            Some(name) => Some(strip(name, CharClass::Only('"'))),
            None => None,
        },
        None => None,
    }
}

/// The file name for the .torrent file of a book: the one that the site gives, unless it leads out
/// of the directory, else one made of the title.
pub open spec fn torrent_name(
    disposition: Option<Seq<char>>,
    title: Seq<char>,
    windows: bool,
) -> Seq<char> {
    match name_in_header(disposition) {
        Some(name) => if stays_in_directory(name, windows) {
            name
        } else {
            name_from_title(title)
        },
        None => name_from_title(title),
    }
}

fn make_safe(c: char) -> (r: char)
    ensures
        r == safe_char(c),
{
    let word = if c <= '\u{7f}' {
        ('a' <= c && c <= 'z') || ('A' <= c && c <= 'Z') || ('0' <= c && c <= '9')
    } else {
        c.is_alphanumeric()
    };
    if word || c == ' ' || c == '-' {
        c
    } else {
        '_'
    }
}

/// The file name that a title gives.
pub fn filename_from_title(title: &str) -> (r: String)
    ensures
        r@ == name_from_title(title@),
{
    let chars = chars_of(title);
    let mut safe: Vec<char> = Vec::new();
    let mut i: usize = 0;
    while i < chars.len()
        invariant
            chars@ == title@,
            i <= chars@.len(),
            safe@.len() == i,
            forall|j: int| 0 <= j < i ==> safe@[j] == safe_char(#[trigger] chars@[j]),
        decreases chars.len() - i,
    {
        safe.push(make_safe(chars[i]));
        i += 1;
    }
    assert(safe@ =~= title@.map_values(|c: char| safe_char(c)));
    let mut name = string_of(trim_chars(&safe));
    name.append(".torrent");
    name
}

fn is_step(part: &[char]) -> (r: bool)
    ensures
        r == leads_on(part@),
{
    let n: usize = part.len();
    if n == 1 && part[0] == '.' {
        assert(part@ =~= seq!['.']);
        false
    } else {
        assert(part@ == seq!['.'] ==> part@.len() == 1 && part@[0] == '.');
        n > 0
    }
}

fn count_steps(path: &[char], windows: bool) -> (r: usize)
    ensures
        r == steps(path_parts(path@, windows)),
{
    let n: usize = path.len();
    let mut start: usize = 0;
    let mut count: usize = 0;
    let mut i: usize = 0;
    assert(path@.subrange(0, 0) =~= Seq::<char>::empty());
    assert(path_parts(path@.take(0), windows).drop_last() =~= Seq::<Seq<char>>::empty());
    while i < n
        invariant
            n == path@.len(),
            start <= i <= n,
            count <= start,
            path_parts(path@.take(i as int), windows).len() > 0,
            path_parts(path@.take(i as int), windows).last() == path@.subrange(
                start as int,
                i as int,
            ),
            count == steps(path_parts(path@.take(i as int), windows).drop_last()),
        decreases n - i,
    {
        let ghost before = path_parts(path@.take(i as int), windows);
        let ghost now = path_parts(path@.take(i + 1), windows);
        assert(path@.take(i + 1).drop_last() =~= path@.take(i as int));
        assert(path@.take(i + 1).last() == path@[i as int]);
        let c = path[i];
        if c == '/' || (windows && c == '\\') {
            assert(now.drop_last() =~= before);
            if is_step(slice_subrange(path, start, i)) {
                count += 1;
            }
            start = i + 1;
            assert(path@.subrange(start as int, i + 1) =~= Seq::<char>::empty());
        } else {
            assert(now.drop_last() =~= before.drop_last());
            assert(path@.subrange(start as int, i + 1) =~= path@.subrange(
                start as int,
                i as int,
            ).push(c));
        }
        i += 1;
    }
    assert(path@.take(n as int) =~= path@);
    if is_step(slice_subrange(path, start, n)) {
        count + 1
    } else {
        count
    }
}

fn is_inside(path: &[char], windows: bool) -> (r: bool)
    ensures
        r == stays_in_directory(path@, windows),
{
    if path.len() > 0 && (path[0] == '/' || (windows && path[0] == '\\')) {
        return false;
    }
    if windows && path.len() >= 2 && (('a' <= path[0] && path[0] <= 'z') || ('A' <= path[0]
        && path[0] <= 'Z')) && path[1] == ':' {
        return false;
    }
    count_steps(path, windows) <= 1
}

/// The file name for the .torrent file of the book with the given title, where the reply carries
/// the given `Content-Disposition` header. On Windows a path has more ways to lead elsewhere.
pub fn torrent_filename(disposition: Option<String>, title: &str, windows: bool) -> (r: String)
    ensures
        r@ == torrent_name(text_view(disposition), title@, windows),
{
    if let Some(header) = disposition {
        let chars = chars_of(header.as_str());
        if let Some(quoted) = between_chars(&chars, &chars_of("filename=")) {
            let name = strip_chars(quoted, CharClass::Only('"'));
            if is_inside(name, windows) {
                return string_of(name);
            }
        }
    }
    filename_from_title(title)
}

/// A file name made of a title stays in its directory: it holds no slash, no backslash and no
/// colon, and its only dot is the one before `torrent`.
pub proof fn law_title_makes_a_plain_file_name(title: Seq<char>)
    ensures
        forall|i: int|
            0 <= i < name_from_title(title).len() ==> ({
                let c = #[trigger] name_from_title(title)[i];
                &&& c != '/' && c != '\\' && c != ':' && c != '\0'
                &&& c == '.' ==> i == name_from_title(title).len() - 8
            }),
{
    let safe = title.map_values(|c: char| safe_char(c));
    let stem = trim(safe);
    let name = name_from_title(title);
    lemma_strip_chars(safe, CharClass::Whitespace);
    reveal_strlit(".torrent");
    assert forall|i: int| 0 <= i < name.len() implies ({
        let c = #[trigger] name[i];
        &&& c != '/' && c != '\\' && c != ':' && c != '\0'
        &&& c == '.' ==> i == name.len() - 8
    }) by {
        if i < stem.len() {
            assert(name[i] == stem[i]);
            assert(safe.contains(stem[i]));
            let k = choose|k: int| 0 <= k < safe.len() && safe[k] == stem[i];
            assert(safe[k] == safe_char(title[k]));
        } else {
            assert(name[i] == ".torrent"@[i - stem.len()]);
        }
    }
}

proof fn lemma_one_part(path: Seq<char>, windows: bool)
    requires
        forall|i: int| 0 <= i < path.len() ==> !is_separator(#[trigger] path[i], windows),
    ensures
        path_parts(path, windows) == seq![path],
        steps(path_parts(path, windows)) <= 1,
    decreases path.len(),
{
    if path.len() > 0 {
        let shorter = path.drop_last();
        assert forall|i: int| 0 <= i < shorter.len() implies !is_separator(
            #[trigger] shorter[i],
            windows,
        ) by {
            assert(shorter[i] == path[i]);
        }
        lemma_one_part(shorter, windows);
        assert(!is_separator(path[path.len() - 1], windows));
        assert(shorter.push(path.last()) =~= path);
        assert(path_parts(path, windows) =~= seq![path]);
    } else {
        assert(path =~= Seq::<char>::empty());
    }
    assert(seq![path].drop_last() =~= Seq::<Seq<char>>::empty());
    reveal_with_fuel(steps, 2);
}

/// A .torrent file is saved in the directory that the user has named, whatever name the site gives
/// it and whatever the title is.
pub proof fn law_torrent_file_stays_in_directory(
    disposition: Option<Seq<char>>,
    title: Seq<char>,
    windows: bool,
)
    ensures
        stays_in_directory(torrent_name(disposition, title, windows), windows),
{
    let name = name_from_title(title);
    law_title_makes_a_plain_file_name(title);
    assert forall|i: int| 0 <= i < name.len() implies !is_separator(#[trigger] name[i], windows) by {
    }
    lemma_one_part(name, windows);
}

/// The name that the site gives counts, whatever the title is, where it has no separator in it and
/// begins with no drive of Windows.
pub proof fn law_site_names_the_file(
    disposition: Option<Seq<char>>,
    title: Seq<char>,
    windows: bool,
)
    requires
        name_in_header(disposition) matches Some(name) && (forall|i: int|
            0 <= i < name.len() ==> !is_separator(#[trigger] name[i], windows)) && !(windows
            && has_drive(name)),
    ensures
        Some(torrent_name(disposition, title, windows)) == name_in_header(disposition),
{
    let name = name_in_header(disposition)->0;
    lemma_one_part(name, windows);
    assert(name.len() > 0 ==> !is_separator(name[0], windows));
}

/// The file name that a title gives keeps every letter and number of the title, and every blank and
/// hyphen, in its place; every other character gives way to an underscore. Only the blanks at the
/// ends are missing, and `.torrent` comes behind.
pub proof fn law_title_is_kept_letter_by_letter(
    w1: Seq<char>,
    middle: Seq<char>,
    w2: Seq<char>,
)
    requires
        forall|i: int| 0 <= i < w1.len() ==> #[trigger] w1[i] == ' ',
        forall|i: int| 0 <= i < w2.len() ==> #[trigger] w2[i] == ' ',
        middle.len() > 0 ==> middle[0] != ' ' && middle.last() != ' ',
        middle.len() > 0 && is_alphanumeric(middle[0]) ==> !is_whitespace(middle[0]),
        middle.len() > 0 && is_alphanumeric(middle.last()) ==> !is_whitespace(middle.last()),
    ensures
        ({
            let name = name_from_title(w1 + middle + w2);
            &&& name.len() == middle.len() + 8
            &&& name.skip(middle.len() as int) == ".torrent"@
            &&& forall|i: int|
                0 <= i < middle.len() ==> ({
                    let c = #[trigger] middle[i];
                    let kept = 'a' <= c <= 'z' || 'A' <= c <= 'Z' || '0' <= c <= '9' || c == ' '
                        || c == '-' || (c > '\u{7f}' && is_alphanumeric(c));
                    name[i] == (if kept {
                        c
                    } else {
                        '_'
                    })
                })
        }),
{
    let title = w1 + middle + w2;
    let safe = |c: char| safe_char(c);
    let stem = middle.map_values(safe);
    let class = CharClass::Whitespace;
    let a = w1.map_values(safe);
    let b = w2.map_values(safe);
    assert(title.map_values(safe) =~= a + stem + b);
    assert forall|i: int| 0 <= i < a.len() implies class.has(#[trigger] a[i]) by {
        assert(w1[i] == ' ');
    }
    assert forall|i: int| 0 <= i < b.len() implies class.has(#[trigger] b[i]) by {
        assert(w2[i] == ' ');
    }
    if middle.len() > 0 {
        assert(stem[0] == safe_char(middle[0]));
        assert(stem.last() == safe_char(middle.last()));
    }
    law_trim_leaves_the_middle(a, stem, b, class);
    let name = name_from_title(title);
    reveal_strlit(".torrent");
    assert(name =~= stem + ".torrent"@);
    assert(name.skip(middle.len() as int) =~= ".torrent"@);
    assert forall|i: int| 0 <= i < middle.len() implies ({
        let c = #[trigger] middle[i];
        let kept = 'a' <= c <= 'z' || 'A' <= c <= 'Z' || '0' <= c <= '9' || c == ' ' || c == '-'
            || (c > '\u{7f}' && is_alphanumeric(c));
        name[i] == (if kept {
            c
        } else {
            '_'
        })
    }) by {
        assert(name[i] == stem[i]);
    }
}

/// The name that the site gives is everything behind the first `filename=`, up to another one or to
/// the end, but for the quotes around it. Without `filename=` the site gives none.
pub proof fn law_site_name_is_taken_whole(
    head: Seq<char>,
    q1: Seq<char>,
    name: Seq<char>,
    q2: Seq<char>,
    tail: Seq<char>,
)
    requires
        first_at(head + "filename="@ + (q1 + name + q2 + tail), "filename="@, head.len() as int),
        forall|i: int|
            0 <= i < (q1 + name + q2).len() ==> !occurs_at(q1 + name + q2 + tail, "filename="@, i),
        tail.len() == 0 || starts_with(tail, "filename="@),
        forall|i: int| 0 <= i < q1.len() ==> #[trigger] q1[i] == '"',
        forall|i: int| 0 <= i < q2.len() ==> #[trigger] q2[i] == '"',
        name.len() > 0 ==> name[0] != '"' && name.last() != '"',
    ensures
        name_in_header(Some(head + "filename="@ + (q1 + name + q2 + tail))) == Some(name),
{
    let label = "filename="@;
    let piece = q1 + name + q2;
    let rest = q1 + name + q2 + tail;
    let d = head + label + rest;
    let n = piece.len() as int;
    lemma_find(d, label);
    assert(d.skip(head.len() as int + label.len()) =~= rest);
    lemma_find(rest, label);
    reveal_strlit("filename=");
    if tail.len() == 0 {
        assert(rest =~= piece);
        assert forall|i: int| !occurs_at(rest, label, i) by {}
    } else {
        assert(rest.subrange(n, n + label.len()) =~= tail.subrange(0, label.len() as int));
        assert(first_at(rest, label, n));
        assert(rest.take(n) =~= piece);
    }
    let class = CharClass::Only('"');
    assert(all_in(q1, class) && all_in(q2, class)) by {
        assert forall|i: int| 0 <= i < q1.len() implies class.has(#[trigger] q1[i]) by {}
        assert forall|i: int| 0 <= i < q2.len() implies class.has(#[trigger] q2[i]) by {}
    }
    law_trim_leaves_the_middle(q1, name, q2, class);
}

/// Where the site gives no name, the title names the file.
pub proof fn law_title_stands_in_for_the_site(
    disposition: Seq<char>,
    title: Seq<char>,
    windows: bool,
)
    ensures
        torrent_name(None, title, windows) == name_from_title(title),
        !contains(disposition, "filename="@) ==> torrent_name(Some(disposition), title, windows)
            == name_from_title(title),
{
}

proof fn lemma_parts_concat(a: Seq<char>, c: char, b: Seq<char>, windows: bool)
    requires
        is_separator(c, windows),
    ensures
        path_parts(a + seq![c] + b, windows) == path_parts(a, windows) + path_parts(b, windows),
        path_parts(b, windows).len() > 0,
    decreases b.len(),
{
    let path = a + seq![c] + b;
    if b.len() == 0 {
        assert(path.drop_last() =~= a);
        assert(path.last() == c);
        assert(path_parts(path, windows) =~= path_parts(a, windows) + path_parts(b, windows));
    } else {
        let shorter = b.drop_last();
        lemma_parts_concat(a, c, shorter, windows);
        assert(path.drop_last() =~= a + seq![c] + shorter);
        assert(path.last() == b.last());
        assert(path_parts(path, windows) =~= path_parts(a, windows) + path_parts(b, windows));
    }
}

/// The text is a plain name: no path, and neither empty nor a dot.
pub open spec fn is_real_name(name: Seq<char>) -> bool {
    &&& name.len() > 0
    &&& name != seq!['.']
    &&& forall|i: int| 0 <= i < name.len() ==> #[trigger] name[i] != '/' && name[i] != '\\'
}

proof fn lemma_two_names(a: Seq<char>, c: char, b: Seq<char>, windows: bool)
    requires
        is_separator(c, windows),
        is_real_name(a),
        is_real_name(b),
    ensures
        !stays_in_directory(a + seq![c] + b, windows),
{
    lemma_parts_concat(a, c, b, windows);
    lemma_one_part(a, windows);
    lemma_one_part(b, windows);
    let parts = seq![a, b];
    assert(seq![a] + seq![b] =~= parts);
    assert(parts.drop_last() =~= seq![a]);
    assert(seq![a].drop_last() =~= Seq::<Seq<char>>::empty());
    reveal_with_fuel(steps, 3);
}

/// A name that leads elsewhere is passed over, and the title names the file: one that begins with a
/// slash, or has a directory in it, even `..`. On Windows backslashes count too, and so does the
/// letter of a drive in front.
pub proof fn law_name_that_leads_elsewhere_is_passed_over(
    disposition: Option<Seq<char>>,
    title: Seq<char>,
    windows: bool,
    a: Seq<char>,
    b: Seq<char>,
)
    ensures
        ({
            let by_title = torrent_name(disposition, title, windows) == name_from_title(title);
            let given = name_in_header(disposition);
            &&& given == Some(seq!['/'] + b) ==> by_title
            &&& given == Some(a + seq!['/'] + b) && is_real_name(a) && is_real_name(b) ==> by_title
            &&& windows && given == Some(seq!['\\'] + b) ==> by_title
            &&& windows && given == Some(a + seq!['\\'] + b) && is_real_name(a) && is_real_name(b)
                ==> by_title
            &&& windows && given == Some(a + seq![':'] + b) && a.len() == 1 && ('a' <= a[0] <= 'z'
                || 'A' <= a[0] <= 'Z') ==> by_title
        }),
{
    assert((seq!['/'] + b)[0] == '/');
    assert((seq!['\\'] + b)[0] == '\\');
    if is_real_name(a) && is_real_name(b) {
        lemma_two_names(a, '/', b, windows);
        if windows {
            lemma_two_names(a, '\\', b, windows);
        }
    }
    if a.len() == 1 {
        let d = a + seq![':'] + b;
        assert(d[0] == a[0] && d[1] == ':');
    }
}

/// The name that the site gives is kept, whatever the title is, where it has no slash in it, and on
/// Windows no backslash and no drive letter in front; a `./` before such a name changes nothing.
pub proof fn law_plain_name_of_the_site_is_kept(
    disposition: Option<Seq<char>>,
    title: Seq<char>,
    windows: bool,
    name: Seq<char>,
)
    requires
        forall|i: int|
            0 <= i < name.len() ==> #[trigger] name[i] != '/' && (windows ==> name[i] != '\\'),
        windows && name.len() >= 2 && name[1] == ':' ==> !('a' <= name[0] <= 'z') && !('A'
            <= name[0] <= 'Z'),
    ensures
        name_in_header(disposition) == Some(name) ==> torrent_name(disposition, title, windows)
            == name,
        name_in_header(disposition) == Some(seq!['.', '/'] + name) ==> torrent_name(
            disposition,
            title,
            windows,
        ) == seq!['.', '/'] + name,
{
    lemma_one_part(name, windows);
    let dotted = seq!['.', '/'] + name;
    assert(dotted =~= seq!['.'] + seq!['/'] + name);
    lemma_parts_concat(seq!['.'], '/', name, windows);
    lemma_one_part(seq!['.'], windows);
    let parts = seq![seq!['.'], name];
    assert(seq![seq!['.']] + seq![name] =~= parts);
    assert(parts.drop_last() =~= seq![seq!['.']]);
    assert(seq![seq!['.']].drop_last() =~= Seq::<Seq<char>>::empty());
    assert(seq![name].drop_last() =~= Seq::<Seq<char>>::empty());
    reveal_with_fuel(steps, 3);
    assert(dotted[0] == '.' && dotted[1] == '/');
}

proof fn lemma_steps_add(a: Seq<Seq<char>>, b: Seq<Seq<char>>)
    ensures
        steps(a + b) == steps(a) + steps(b),
    decreases b.len(),
{
    if b.len() == 0 {
        assert(a + b =~= a);
    } else {
        lemma_steps_add(a, b.drop_last());
        assert((a + b).drop_last() =~= a + b.drop_last());
    }
}

proof fn lemma_steps_of_one(name: Seq<char>, windows: bool)
    requires
        is_real_name(name),
    ensures
        steps(path_parts(name, windows)) == 1,
{
    lemma_one_part(name, windows);
    assert(seq![name].drop_last() =~= Seq::<Seq<char>>::empty());
    reveal_with_fuel(steps, 2);
}

proof fn lemma_steps_behind(head: Seq<char>, tail: Seq<char>, windows: bool)
    requires
        head.len() > 0 ==> head.last() == '/',
    ensures
        steps(path_parts(head + tail, windows)) >= steps(path_parts(tail, windows)),
{
    if head.len() == 0 {
        assert(head + tail =~= tail);
    } else {
        let dir = head.drop_last();
        assert(head + tail =~= dir + seq!['/'] + tail);
        lemma_parts_concat(dir, '/', tail, windows);
        lemma_steps_add(path_parts(dir, windows), path_parts(tail, windows));
    }
}

/// A name with more than one real name between its slashes is passed over, however deep they stand
/// in it.
pub proof fn law_deep_name_is_passed_over(
    disposition: Option<Seq<char>>,
    title: Seq<char>,
    windows: bool,
    head: Seq<char>,
    a: Seq<char>,
    middle: Seq<char>,
    b: Seq<char>,
)
    requires
        name_in_header(disposition) == Some(head + (a + seq!['/'] + (middle + b))),
        head.len() > 0 ==> head.last() == '/',
        middle.len() > 0 ==> middle.last() == '/',
        is_real_name(a),
        is_real_name(b),
    ensures
        torrent_name(disposition, title, windows) == name_from_title(title),
{
    lemma_steps_behind(head, a + seq!['/'] + (middle + b), windows);
    lemma_parts_concat(a, '/', middle + b, windows);
    lemma_steps_add(path_parts(a, windows), path_parts(middle + b, windows));
    lemma_steps_behind(middle, b, windows);
    lemma_steps_of_one(a, windows);
    lemma_steps_of_one(b, windows);
}

} // verus!
