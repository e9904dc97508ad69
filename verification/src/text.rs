//! Searching, cutting and trimming of text.
//!
//! Text is modelled as a sequence of characters. The executable functions work on slices of
//! characters, so that a part of a text is again a slice and nothing is copied on the way.

use vstd::prelude::*;
use vstd::slice::slice_subrange;
use vstd::string::*;

verus! {

/// `String::push`: the character is added at the end of the text.
pub assume_specification[ String::push ](s: &mut String, c: char)
    ensures
        final(s)@ == old(s)@.push(c),
;

/// The model of an optional text.
pub open spec fn text_view(t: Option<String>) -> Option<Seq<char>> {
    match t {
        Some(s) => Some(s@),
        None => None,
    }
}

/// The texts of a list of strings.
pub open spec fn string_views(strings: Seq<String>) -> Seq<Seq<char>> {
    strings.map_values(|s: String| s@)
}

/// The characters that a trim may remove.
#[derive(Clone, Copy, PartialEq, Eq, Structural, Debug)]
pub enum CharClass {
    /// Every character with the Unicode property `White_Space`.
    Whitespace,
    /// One character.
    Only(char),
}

/// The Unicode property `White_Space`.
pub open spec fn is_whitespace(c: char) -> bool {
    ||| '\u{9}' <= c <= '\u{d}'
    ||| c == ' '
    ||| c == '\u{85}'
    ||| c == '\u{a0}'
    ||| c == '\u{1680}'
    ||| '\u{2000}' <= c <= '\u{200a}'
    ||| c == '\u{2028}'
    ||| c == '\u{2029}'
    ||| c == '\u{202f}'
    ||| c == '\u{205f}'
    ||| c == '\u{3000}'
}

impl CharClass {
    /// Whether `c` belongs to the class.
    pub open spec fn has(self, c: char) -> bool {
        match self {
            CharClass::Whitespace => is_whitespace(c),
            CharClass::Only(only) => c == only,
        }
    }

    /// Whether `c` belongs to the class.
    pub fn matches_char(&self, c: char) -> (r: bool)
        ensures
            r == self.has(c),
    {
        match self {
            CharClass::Whitespace => {
                ('\u{9}' <= c && c <= '\u{d}') || c == ' ' || c == '\u{85}' || c == '\u{a0}' || c
                    == '\u{1680}' || ('\u{2000}' <= c && c <= '\u{200a}') || c == '\u{2028}' || c
                    == '\u{2029}' || c == '\u{202f}' || c == '\u{205f}' || c == '\u{3000}'
            },
            CharClass::Only(only) => c == *only,
        }
    }
}

/// `p` stands in `s` at index `i`.
pub open spec fn occurs_at(s: Seq<char>, p: Seq<char>, i: int) -> bool {
    &&& 0 <= i
    &&& i + p.len() <= s.len()
    &&& s.subrange(i, i + p.len()) == p
}

/// `i` is the first index at which `p` stands in `s`.
pub open spec fn first_at(s: Seq<char>, p: Seq<char>, i: int) -> bool {
    &&& occurs_at(s, p, i)
    &&& forall|j: int| 0 <= j < i ==> !occurs_at(s, p, j)
}

/// `p` stands somewhere in `s`.
pub open spec fn contains(s: Seq<char>, p: Seq<char>) -> bool {
    exists|i: int| occurs_at(s, p, i)
}

/// `s` begins with `p`.
pub open spec fn starts_with(s: Seq<char>, p: Seq<char>) -> bool {
    occurs_at(s, p, 0)
}

/// The first index at which `p` stands in `s`.
pub open spec fn find(s: Seq<char>, p: Seq<char>) -> Option<int> {
    if contains(s, p) {
        Some(choose|i: int| first_at(s, p, i))
    } else {
        None
    }
}

/// What stands in `s` before the first `p`, or all of `s` where there is none.
pub open spec fn before(s: Seq<char>, p: Seq<char>) -> Seq<char> {
    match find(s, p) {
        Some(i) => s.take(i),
        None => s,
    }
}

/// What follows the first `p` in `s`.
pub open spec fn after(s: Seq<char>, p: Seq<char>) -> Option<Seq<char>> {
    match find(s, p) {
        Some(i) => Some(s.skip(i + p.len())),
        None => None,
    }
}

/// What stands in `s` between the first `p` and the next one, or up to the end of `s` where
/// there is no other.
pub open spec fn between(s: Seq<char>, p: Seq<char>) -> Option<Seq<char>> {
    match after(s, p) {
        Some(rest) => Some(before(rest, p)),
        None => None,
    }
}

/// `s` without the characters of `class` that it begins with.
pub open spec fn strip_start(s: Seq<char>, class: CharClass) -> Seq<char>
    decreases s.len(),
{
    if s.len() > 0 && class.has(s[0]) {
        strip_start(s.skip(1), class)
    } else {
        s
    }
}

/// `s` without the characters of `class` that it ends with.
pub open spec fn strip_end(s: Seq<char>, class: CharClass) -> Seq<char>
    decreases s.len(),
{
    if s.len() > 0 && class.has(s.last()) {
        strip_end(s.drop_last(), class)
    } else {
        s
    }
}

/// `s` without the characters of `class` at either end.
pub open spec fn strip(s: Seq<char>, class: CharClass) -> Seq<char> {
    strip_end(strip_start(s, class), class)
}

/// `s` without whitespace at either end.
pub open spec fn trim(s: Seq<char>) -> Seq<char> {
    strip(s, CharClass::Whitespace)
}

/// `s` without one carriage return at its end.
pub open spec fn without_cr(s: Seq<char>) -> Seq<char> {
    if s.len() > 0 && s.last() == '\r' {
        s.drop_last()
    } else {
        s
    }
}

/// The lines of `s`. A line ends with a line feed, or with a carriage return and a line feed,
/// neither of which belongs to it. The last line may lack its end.
pub open spec fn lines(s: Seq<char>) -> Seq<Seq<char>>
    decreases s.len(),
{
    if s.len() == 0 {
        Seq::empty()
    } else {
        match find(s, seq!['\n']) {
            Some(i) => if 0 <= i < s.len() {
                seq![without_cr(s.take(i))] + lines(s.skip(i + 1))
            } else {
                Seq::empty()
            },
            None => seq![s],
        }
    }
}

/// The parts of `s` between the characters `c`.
pub open spec fn split_at_char(s: Seq<char>, c: char) -> Seq<Seq<char>>
    decreases s.len(),
{
    match find(s, seq![c]) {
        Some(i) => if 0 <= i < s.len() {
            seq![s.take(i)] + split_at_char(s.skip(i + 1), c)
        } else {
            Seq::empty()
        },
        None => seq![s],
    }
}

/// The parts, one after the other, with `separator` between them.
pub open spec fn joined(parts: Seq<Seq<char>>, separator: Seq<char>) -> Seq<char>
    decreases parts.len(),
{
    if parts.len() == 0 {
        Seq::empty()
    } else if parts.len() == 1 {
        parts[0]
    } else {
        joined(parts.drop_last(), separator) + separator + parts.last()
    }
}

/// The decimal digit with the value `n`.
pub open spec fn digit(n: nat) -> char {
    ('0' as int + n) as char
}

/// The decimal form of a number.
pub open spec fn decimal(n: nat) -> Seq<char>
    decreases n,
{
    if n < 10 {
        seq![digit(n)]
    } else {
        decimal(n / 10).push(digit(n % 10))
    }
}

/// Where `p` stands in `s` at all, it stands there for a first time.
pub proof fn lemma_first_exists(s: Seq<char>, p: Seq<char>, i: int)
    requires
        occurs_at(s, p, i),
    ensures
        exists|k: int| k <= i && first_at(s, p, k),
    decreases i,
{
    if exists|j: int| 0 <= j < i && occurs_at(s, p, j) {
        let j = choose|j: int| 0 <= j < i && occurs_at(s, p, j);
        lemma_first_exists(s, p, j);
    } else {
        assert(first_at(s, p, i));
    }
}

/// `find` gives the first index, and gives it wherever there is one.
pub proof fn lemma_find(s: Seq<char>, p: Seq<char>)
    ensures
        find(s, p) is Some <==> contains(s, p),
        find(s, p) matches Some(i) ==> first_at(s, p, i),
        forall|i: int| #[trigger] first_at(s, p, i) ==> find(s, p) == Some(i),
{
    if contains(s, p) {
        let i = choose|i: int| occurs_at(s, p, i);
        lemma_first_exists(s, p, i);
        let f = find(s, p)->0;
        assert(first_at(s, p, f));
        assert forall|i: int| #[trigger] first_at(s, p, i) implies find(s, p) == Some(i) by {
            if i < f {
                assert(occurs_at(s, p, i));
            } else if f < i {
                assert(occurs_at(s, p, f));
            }
        }
    } else {
        assert forall|i: int| #[trigger] first_at(s, p, i) implies find(s, p) == Some(i) by {
            assert(occurs_at(s, p, i));
        }
    }
}

/// A text without `c` is one part.
pub proof fn lemma_split_one(s: Seq<char>, c: char)
    requires
        forall|i: int| 0 <= i < s.len() ==> #[trigger] s[i] != c,
    ensures
        split_at_char(s, c) == seq![s],
{
    lemma_find(s, seq![c]);
    assert forall|i: int| !occurs_at(s, seq![c], i) by {
        if occurs_at(s, seq![c], i) {
            assert(s.subrange(i, i + 1)[0] == c);
        }
    }
}

/// What stands before the first `c` is the first part.
pub proof fn lemma_split_step(s: Seq<char>, c: char, rest: Seq<char>)
    requires
        forall|i: int| 0 <= i < s.len() ==> #[trigger] s[i] != c,
    ensures
        split_at_char(s + seq![c] + rest, c) == seq![s] + split_at_char(rest, c),
{
    let t = s + seq![c] + rest;
    let n = s.len() as int;
    lemma_find(t, seq![c]);
    assert(t.subrange(n, n + 1) =~= seq![c]);
    assert forall|i: int| 0 <= i < n implies !occurs_at(t, seq![c], i) by {
        if occurs_at(t, seq![c], i) {
            assert(t.subrange(i, i + 1)[0] == c);
            assert(t[i] == s[i]);
        }
    }
    assert(first_at(t, seq![c], n));
    assert(t.take(n) =~= s);
    assert(t.skip(n + 1) =~= rest);
}

/// A trim removes characters and adds none.
pub proof fn lemma_strip_len(s: Seq<char>, class: CharClass)
    ensures
        strip(s, class).len() <= strip_start(s, class).len() <= s.len(),
{
    lemma_strip_start_len(s, class);
    lemma_strip_end_len(strip_start(s, class), class);
}

proof fn lemma_strip_start_len(s: Seq<char>, class: CharClass)
    ensures
        strip_start(s, class).len() <= s.len(),
    decreases s.len(),
{
    if s.len() > 0 && class.has(s[0]) {
        lemma_strip_start_len(s.skip(1), class);
    }
}

proof fn lemma_strip_end_len(s: Seq<char>, class: CharClass)
    ensures
        strip_end(s, class).len() <= s.len(),
    decreases s.len(),
{
    if s.len() > 0 && class.has(s.last()) {
        lemma_strip_end_len(s.drop_last(), class);
    }
}

/// A text whose end was trimmed does not end with what was removed.
pub proof fn lemma_strip_end_last(s: Seq<char>, class: CharClass)
    ensures
        strip_end(s, class).len() > 0 ==> {
            &&& !class.has(strip_end(s, class).last())
            &&& s.len() > 0
            &&& strip_end(s, class)[0] == s[0]
        },
    decreases s.len(),
{
    if s.len() > 0 && class.has(s.last()) {
        lemma_strip_end_last(s.drop_last(), class);
    }
}

proof fn lemma_strip_start_first(s: Seq<char>, class: CharClass)
    ensures
        strip_start(s, class).len() > 0 ==> !class.has(strip_start(s, class)[0]),
    decreases s.len(),
{
    if s.len() > 0 && class.has(s[0]) {
        lemma_strip_start_first(s.skip(1), class);
    }
}

/// A trimmed text neither begins nor ends with what was removed.
pub proof fn lemma_strip_bounds(s: Seq<char>, class: CharClass)
    ensures
        strip(s, class).len() > 0 ==> !class.has(strip(s, class)[0]) && !class.has(
            strip(s, class).last(),
        ),
{
    lemma_strip_start_first(s, class);
    lemma_strip_end_last(strip_start(s, class), class);
}

/// What a trim leaves stood there before.
pub proof fn lemma_strip_chars(s: Seq<char>, class: CharClass)
    ensures
        forall|i: int|
            0 <= i < strip(s, class).len() ==> s.contains(#[trigger] strip(s, class)[i]),
{
    let t = strip_start(s, class);
    lemma_strip_start_chars(s, class);
    lemma_strip_end_chars(t, class);
    assert forall|i: int| 0 <= i < strip(s, class).len() implies s.contains(
        #[trigger] strip(s, class)[i],
    ) by {
        let c = strip_end(t, class)[i];
        assert(t.contains(c));
        let k = choose|k: int| 0 <= k < t.len() && t[k] == c;
        assert(s.contains(t[k]));
    }
}

proof fn lemma_strip_start_chars(s: Seq<char>, class: CharClass)
    ensures
        forall|i: int|
            0 <= i < strip_start(s, class).len() ==> s.contains(
                #[trigger] strip_start(s, class)[i],
            ),
    decreases s.len(),
{
    if s.len() > 0 && class.has(s[0]) {
        let t = s.skip(1);
        lemma_strip_start_chars(t, class);
        assert forall|i: int| 0 <= i < strip_start(s, class).len() implies s.contains(
            #[trigger] strip_start(s, class)[i],
        ) by {
            let c = strip_start(t, class)[i];
            assert(t.contains(c));
            let k = choose|k: int| 0 <= k < t.len() && t[k] == c;
            assert(s[k + 1] == c);
        }
    }
}

proof fn lemma_strip_end_chars(s: Seq<char>, class: CharClass)
    ensures
        forall|i: int|
            0 <= i < strip_end(s, class).len() ==> s.contains(#[trigger] strip_end(s, class)[i]),
    decreases s.len(),
{
    if s.len() > 0 && class.has(s.last()) {
        let t = s.drop_last();
        lemma_strip_end_chars(t, class);
        assert forall|i: int| 0 <= i < strip_end(s, class).len() implies s.contains(
            #[trigger] strip_end(s, class)[i],
        ) by {
            let c = strip_end(t, class)[i];
            assert(t.contains(c));
            let k = choose|k: int| 0 <= k < t.len() && t[k] == c;
            assert(s[k] == c);
        }
    }
}

/// The characters of `s`.
pub fn chars_of(s: &str) -> (r: Vec<char>)
    ensures
        r@ == s@,
{
    let mut r: Vec<char> = Vec::new();
    for c in it: s.chars()
        invariant
            it.seq() == s@,
            r@ == s@.take(it.index()),
    {
        r.push(c);
        assert(r@ =~= s@.take(it.index() + 1));
    }
    assert(s@.take(s@.len() as int) =~= s@);
    r
}

/// The text that `chars` spells.
pub fn string_of(chars: &[char]) -> (r: String)
    ensures
        r@ == chars@,
{
    let mut r = String::new();
    let mut i: usize = 0;
    while i < chars.len()
        invariant
            i <= chars@.len(),
            r@ == chars@.take(i as int),
        decreases chars.len() - i,
    {
        r.push(chars[i]);
        i += 1;
        assert(r@ =~= chars@.take(i as int));
    }
    assert(chars@.take(chars@.len() as int) =~= chars@);
    r
}

/// The parts, one after the other, with `separator` between them.
pub fn join_strings(parts: &Vec<String>, separator: &str) -> (r: String)
    ensures
        r@ == joined(string_views(parts@), separator@),
{
    let mut r = String::new();
    let mut i: usize = 0;
    let ghost all = string_views(parts@);
    while i < parts.len()
        invariant
            all == string_views(parts@),
            i <= parts@.len(),
            r@ == joined(all.take(i as int), separator@),
        decreases parts.len() - i,
    {
        if i > 0 {
            r.append(separator);
        }
        r.append(parts[i].as_str());
        assert(all.take(i + 1).drop_last() =~= all.take(i as int));
        if i == 0 {
            assert(r@ =~= all[0]);
        }
        i += 1;
    }
    assert(all.take(i as int) =~= all);
    r
}

/// Adds the decimal form of `n` to the text.
pub fn push_decimal(out: &mut String, n: u64)
    ensures
        final(out)@ == old(out)@ + decimal(n as nat),
    decreases n,
{
    if n >= 10 {
        push_decimal(out, n / 10);
    }
    out.push(('0' as u8 + (n % 10) as u8) as char);
    assert(out@ =~= old(out)@ + decimal(n as nat));
}

/// Whether `p` stands in `s` at index `i`.
pub fn occurs_at_index(s: &[char], p: &[char], i: usize) -> (r: bool)
    requires
        i <= s@.len(),
    ensures
        r == occurs_at(s@, p@, i as int),
{
    let n: usize = s.len();
    if p.len() > n - i {
        return false;
    }
    let mut k: usize = 0;
    while k < p.len()
        invariant
            k <= p@.len(),
            n == s@.len(),
            i + p@.len() <= n,
            forall|j: int| 0 <= j < k ==> s@[i + j] == p@[j],
        decreases p.len() - k,
    {
        if s[i + k] != p[k] {
            assert(s@.subrange(i as int, i + p@.len())[k as int] != p@[k as int]);
            return false;
        }
        k += 1;
    }
    assert(s@.subrange(i as int, i + p@.len()) =~= p@);
    true
}

/// The first index at which `p` stands in `s`.
pub fn find_chars(s: &[char], p: &[char]) -> (r: Option<usize>)
    ensures
        r is Some <==> find(s@, p@) is Some,
        r matches Some(i) ==> find(s@, p@) == Some(i as int) && i + p@.len() <= s@.len(),
{
    proof {
        lemma_find(s@, p@);
    }
    let mut i: usize = 0;
    while p.len() <= s.len() - i
        invariant
            i <= s@.len(),
            forall|j: int| 0 <= j < i ==> !occurs_at(s@, p@, j),
        decreases s.len() - i,
    {
        if occurs_at_index(s, p, i) {
            proof {
                lemma_find(s@, p@);
                assert(first_at(s@, p@, i as int));
            }
            return Some(i);
        }
        if i == s.len() {
            assert(forall|j: int| occurs_at(s@, p@, j) ==> j <= s@.len());
            return None;
        }
        i += 1;
    }
    assert(forall|j: int| occurs_at(s@, p@, j) ==> j + p@.len() <= s@.len());
    None
}

/// Whether `p` stands somewhere in `s`.
pub fn contains_chars(s: &[char], p: &[char]) -> (r: bool)
    ensures
        r == contains(s@, p@),
{
    proof {
        lemma_find(s@, p@);
    }
    find_chars(s, p).is_some()
}

/// Whether `p` stands somewhere in `s`.
pub fn contains_str(s: &str, p: &str) -> (r: bool)
    ensures
        r == contains(s@, p@),
{
    contains_chars(&chars_of(s), &chars_of(p))
}

/// Whether `s` begins with `p`.
pub fn starts_with_str(s: &str, p: &str) -> (r: bool)
    ensures
        r == starts_with(s@, p@),
{
    occurs_at_index(&chars_of(s), &chars_of(p), 0)
}

/// What stands in `s` before the first `p`, or all of `s` where there is none.
pub fn before_chars<'a>(s: &'a [char], p: &[char]) -> (r: &'a [char])
    ensures
        r@ == before(s@, p@),
{
    match find_chars(s, p) {
        Some(i) => {
            assert(s@.subrange(0, i as int) =~= s@.take(i as int));
            slice_subrange(s, 0, i)
        },
        None => s,
    }
}

/// What stands in `s` between the first `p` and the next one, or up to the end of `s`.
pub fn between_chars<'a>(s: &'a [char], p: &[char]) -> (r: Option<&'a [char]>)
    ensures
        r is Some <==> between(s@, p@) is Some,
        r matches Some(piece) ==> Some(piece@) == between(s@, p@),
{
    match find_chars(s, p) {
        Some(i) => {
            assert(s@.subrange(i + p@.len(), s@.len() as int) =~= s@.skip(i + p@.len()));
            let n: usize = s.len();
            let rest = slice_subrange(s, i + p.len(), n);
            Some(before_chars(rest, p))
        },
        None => None,
    }
}

/// `s` without the characters of `class` that it begins with.
pub fn strip_start_chars<'a>(s: &'a [char], class: CharClass) -> (r: &'a [char])
    ensures
        r@ == strip_start(s@, class),
{
    let mut i: usize = 0;
    assert(s@.skip(0) =~= s@);
    while i < s.len() && class.matches_char(s[i])
        invariant
            i <= s@.len(),
            strip_start(s@.skip(i as int), class) == strip_start(s@, class),
        ensures
            i <= s@.len(),
            s@.skip(i as int) == strip_start(s@, class),
        decreases s.len() - i,
    {
        assert(s@.skip(i as int).skip(1) =~= s@.skip(i + 1));
        i += 1;
    }
    assert(s@.subrange(i as int, s@.len() as int) =~= s@.skip(i as int));
    slice_subrange(s, i, s.len())
}

/// `s` without the characters of `class` that it ends with.
pub fn strip_end_chars<'a>(s: &'a [char], class: CharClass) -> (r: &'a [char])
    ensures
        r@ == strip_end(s@, class),
{
    let mut n: usize = s.len();
    assert(s@.take(s@.len() as int) =~= s@);
    while n > 0 && class.matches_char(s[n - 1])
        invariant
            n <= s@.len(),
            strip_end(s@.take(n as int), class) == strip_end(s@, class),
        ensures
            n <= s@.len(),
            s@.take(n as int) == strip_end(s@, class),
        decreases n,
    {
        assert(s@.take(n as int).drop_last() =~= s@.take(n - 1));
        n -= 1;
    }
    assert(s@.subrange(0, n as int) =~= s@.take(n as int));
    slice_subrange(s, 0, n)
}

/// `s` without the characters of `class` at either end.
pub fn strip_chars<'a>(s: &'a [char], class: CharClass) -> (r: &'a [char])
    ensures
        r@ == strip(s@, class),
{
    strip_end_chars(strip_start_chars(s, class), class)
}

/// `s` without whitespace at either end.
pub fn trim_chars<'a>(s: &'a [char]) -> (r: &'a [char])
    ensures
        r@ == trim(s@),
{
    strip_chars(s, CharClass::Whitespace)
}

/// `s` without whitespace at either end.
pub fn trim_str(s: &str) -> (r: String)
    ensures
        r@ == trim(s@),
{
    string_of(trim_chars(&chars_of(s)))
}

/// `s` without one carriage return at its end.
fn without_cr_chars<'a>(s: &'a [char]) -> (r: &'a [char])
    ensures
        r@ == without_cr(s@),
{
    if s.len() > 0 && s[s.len() - 1] == '\r' {
        assert(s@.subrange(0, s@.len() - 1) =~= s@.drop_last());
        slice_subrange(s, 0, s.len() - 1)
    } else {
        s
    }
}

/// The contents of each slice.
pub open spec fn slice_views(slices: Seq<&[char]>) -> Seq<Seq<char>> {
    slices.map_values(|s: &[char]| s@)
}

/// The lines of `s`.
pub fn lines_chars<'a>(s: &'a [char]) -> (r: Vec<&'a [char]>)
    ensures
        slice_views(r@) == lines(s@),
{
    let mut r: Vec<&'a [char]> = Vec::new();
    let mut rest: &'a [char] = s;
    let feed: Vec<char> = vec!['\n'];
    assert(feed@ =~= seq!['\n']);
    while rest.len() > 0
        invariant
            feed@ == seq!['\n'],
            slice_views(r@) + lines(rest@) =~= lines(s@),
        decreases rest.len(),
    {
        let ghost old_r = r@;
        let ghost old_rest = rest@;
        match find_chars(rest, &feed) {
            Some(i) => {
                assert(rest@.subrange(0, i as int) =~= rest@.take(i as int));
                assert(rest@.subrange(i + 1, rest@.len() as int) =~= rest@.skip(i + 1));
                r.push(without_cr_chars(slice_subrange(rest, 0, i)));
                rest = slice_subrange(rest, i + 1, rest.len());
                assert(slice_views(r@) =~= slice_views(old_r).push(
                    without_cr(old_rest.take(i as int)),
                ));
            },
            None => {
                r.push(rest);
                rest = slice_subrange(rest, rest.len(), rest.len());
                assert(slice_views(r@) =~= slice_views(old_r).push(old_rest));
            },
        }
    }
    r
}

/// A text is contained in another exactly where some stretch of that other is equal to it.
pub proof fn law_contained_text_is_a_stretch(s: Seq<char>, p: Seq<char>)
    ensures
        contains(s, p) <==> exists|i: int|
            0 <= i <= s.len() && (#[trigger] s.skip(i)).len() >= p.len() && s.skip(i).take(
                p.len() as int,
            ) == p,
{
    if contains(s, p) {
        let i = choose|i: int| occurs_at(s, p, i);
        assert(s.skip(i).take(p.len() as int) =~= s.subrange(i, i + p.len()));
        assert(s.skip(i).len() >= p.len());
    }
    if exists|i: int|
        0 <= i <= s.len() && (#[trigger] s.skip(i)).len() >= p.len() && s.skip(i).take(
            p.len() as int,
        ) == p {
        let i = choose|i: int|
            0 <= i <= s.len() && (#[trigger] s.skip(i)).len() >= p.len() && s.skip(i).take(
                p.len() as int,
            ) == p;
        assert(s.subrange(i, i + p.len()) =~= s.skip(i).take(p.len() as int));
        assert(occurs_at(s, p, i));
    }
}

/// A text contains whatever it was put together from.
pub proof fn law_text_contains_its_parts(a: Seq<char>, p: Seq<char>, b: Seq<char>)
    ensures
        contains(a + p + b, p),
        starts_with(p + b, p),
{
    let s = a + p + b;
    assert(s.subrange(a.len() as int, a.len() as int + p.len()) =~= p);
    assert(occurs_at(s, p, a.len() as int));
    assert((p + b).subrange(0, p.len() as int) =~= p);
}

/// A text is cut at the first place where `p` stands: what was before it comes before, and what was
/// behind it comes after.
pub proof fn law_text_is_cut_at_the_first(head: Seq<char>, p: Seq<char>, tail: Seq<char>)
    requires
        forall|i: int|
            0 <= i < head.len() ==> (#[trigger] (head + p + tail).skip(i)).take(p.len() as int)
                != p,
    ensures
        find(head + p + tail, p) == Some(head.len() as int),
        before(head + p + tail, p) == head,
        after(head + p + tail, p) == Some(tail),
{
    let s = head + p + tail;
    let n = head.len() as int;
    lemma_find(s, p);
    assert(s.subrange(n, n + p.len()) =~= p);
    assert forall|i: int| 0 <= i < n implies !occurs_at(s, p, i) by {
        if occurs_at(s, p, i) {
            assert(s.skip(i).take(p.len() as int) =~= s.subrange(i, i + p.len()));
        }
    }
    assert(first_at(s, p, n));
    assert(s.take(n) =~= head);
    assert(s.skip(n + p.len()) =~= tail);
}

/// A text in which `p` does not stand is not cut.
pub proof fn law_text_without_is_not_cut(s: Seq<char>, p: Seq<char>)
    requires
        !contains(s, p),
    ensures
        before(s, p) == s,
        after(s, p) is None,
        between(s, p) is None,
{
}

/// What stands between the first two `p` is what was put between them, and where there is only one,
/// it reaches to the end.
pub proof fn law_what_was_put_between_is_found(
    head: Seq<char>,
    p: Seq<char>,
    piece: Seq<char>,
    tail: Seq<char>,
)
    requires
        first_at(head + p + piece + p + tail, p, head.len() as int),
        first_at(head + p + piece, p, head.len() as int),
        first_at(piece + p + tail, p, piece.len() as int),
        !contains(piece, p),
    ensures
        between(head + p + piece + p + tail, p) == Some(piece),
        between(head + p + piece, p) == Some(piece),
{
    let s = head + p + piece + p + tail;
    let n = head.len() as int;
    lemma_find(s, p);
    assert(s.skip(n + p.len()) =~= piece + p + tail);
    lemma_find(piece + p + tail, p);
    assert((piece + p + tail).take(piece.len() as int) =~= piece);
    lemma_find(head + p + piece, p);
    assert((head + p + piece).skip(n + p.len()) =~= piece);
    lemma_find(piece, p);
}

/// The characters all belong to the class.
pub open spec fn all_in(s: Seq<char>, class: CharClass) -> bool {
    forall|i: int| 0 <= i < s.len() ==> class.has(#[trigger] s[i])
}

/// Neither the first nor the last of the characters belongs to the class.
pub open spec fn is_stripped(s: Seq<char>, class: CharClass) -> bool {
    s.len() > 0 ==> !class.has(s[0]) && !class.has(s.last())
}

proof fn lemma_strip_start_of(w: Seq<char>, s: Seq<char>, class: CharClass)
    requires
        all_in(w, class),
        s.len() > 0 ==> !class.has(s[0]),
    ensures
        strip_start(w + s, class) == s,
    decreases w.len(),
{
    if w.len() == 0 {
        assert(w + s =~= s);
    } else {
        assert((w + s)[0] == w[0]);
        assert((w + s).skip(1) =~= w.skip(1) + s);
        assert(all_in(w.skip(1), class)) by {
            assert forall|i: int| 0 <= i < w.skip(1).len() implies class.has(
                #[trigger] w.skip(1)[i],
            ) by {
                assert(class.has(w[i + 1]));
            }
        }
        lemma_strip_start_of(w.skip(1), s, class);
    }
}

/// The end of a text that belongs to the class is stripped, and nothing else.
pub proof fn lemma_strip_end_of(s: Seq<char>, w: Seq<char>, class: CharClass)
    requires
        all_in(w, class),
        s.len() > 0 ==> !class.has(s.last()),
    ensures
        strip_end(s + w, class) == s,
    decreases w.len(),
{
    if w.len() == 0 {
        assert(s + w =~= s);
    } else {
        assert((s + w).last() == w.last());
        assert((s + w).drop_last() =~= s + w.drop_last());
        assert(all_in(w.drop_last(), class)) by {
            assert forall|i: int| 0 <= i < w.drop_last().len() implies class.has(
                #[trigger] w.drop_last()[i],
            ) by {
                assert(class.has(w[i]));
            }
        }
        lemma_strip_end_of(s, w.drop_last(), class);
    }
}

/// A trim takes away what belongs to the class at either end, and leaves everything between.
pub proof fn law_trim_leaves_the_middle(
    w1: Seq<char>,
    middle: Seq<char>,
    w2: Seq<char>,
    class: CharClass,
)
    requires
        all_in(w1, class),
        all_in(w2, class),
        is_stripped(middle, class),
    ensures
        strip(w1 + middle + w2, class) == middle,
{
    if middle.len() == 0 {
        let w = w1 + w2;
        assert(w1 + middle + w2 =~= w + middle);
        assert forall|i: int| 0 <= i < w.len() implies class.has(#[trigger] w[i]) by {
            if i < w1.len() {
                assert(w[i] == w1[i]);
            } else {
                assert(w[i] == w2[i - w1.len()]);
            }
        }
        lemma_strip_start_of(w, middle, class);
        assert(strip_end(middle, class) =~= middle);
    } else {
        assert(w1 + middle + w2 =~= w1 + (middle + w2));
        assert((middle + w2)[0] == middle[0]);
        lemma_strip_start_of(w1, middle + w2, class);
        lemma_strip_end_of(middle, w2, class);
    }
}

/// A trim takes nothing away but what belongs to the class at either end.
pub proof fn law_trim_takes_only_the_ends(s: Seq<char>, class: CharClass)
    ensures
        exists|w1: Seq<char>, w2: Seq<char>|
            #![trigger all_in(w1, class), all_in(w2, class)]
            all_in(w1, class) && all_in(w2, class) && s == w1 + strip(s, class) + w2,
        is_stripped(strip(s, class), class),
{
    let (w1, t) = lemma_strip_start_parts(s, class);
    let w2 = lemma_strip_end_parts(t, class);
    assert(s =~= w1 + strip(s, class) + w2);
    assert(all_in(w1, class) && all_in(w2, class));
    lemma_strip_bounds(s, class);
}

proof fn lemma_strip_start_parts(s: Seq<char>, class: CharClass) -> (r: (Seq<char>, Seq<char>))
    ensures
        all_in(r.0, class),
        r.1 == strip_start(s, class),
        s == r.0 + r.1,
    decreases s.len(),
{
    if s.len() > 0 && class.has(s[0]) {
        let (w, t) = lemma_strip_start_parts(s.skip(1), class);
        let w1 = seq![s[0]] + w;
        assert(s =~= seq![s[0]] + s.skip(1));
        assert(s =~= w1 + t);
        assert forall|i: int| 0 <= i < w1.len() implies class.has(#[trigger] w1[i]) by {
            if i > 0 {
                assert(w1[i] == w[i - 1]);
            }
        }
        (w1, t)
    } else {
        assert(s =~= Seq::<char>::empty() + s);
        (Seq::empty(), s)
    }
}

proof fn lemma_strip_end_parts(s: Seq<char>, class: CharClass) -> (w: Seq<char>)
    ensures
        all_in(w, class),
        s == strip_end(s, class) + w,
    decreases s.len(),
{
    if s.len() > 0 && class.has(s.last()) {
        let w = lemma_strip_end_parts(s.drop_last(), class);
        let w2 = w.push(s.last());
        assert(s =~= s.drop_last().push(s.last()));
        assert(s =~= strip_end(s, class) + w2);
        assert forall|i: int| 0 <= i < w2.len() implies class.has(#[trigger] w2[i]) by {
            if i < w.len() {
                assert(w2[i] == w[i]);
            }
        }
        w2
    } else {
        assert(s =~= s + Seq::<char>::empty());
        Seq::empty()
    }
}

proof fn lemma_first_char(s: Seq<char>, c: char, rest: Seq<char>)
    requires
        forall|i: int| 0 <= i < s.len() ==> #[trigger] s[i] != c,
    ensures
        find(s + seq![c] + rest, seq![c]) == Some(s.len() as int),
{
    let t = s + seq![c] + rest;
    let n = s.len() as int;
    lemma_find(t, seq![c]);
    assert(t.subrange(n, n + 1) =~= seq![c]);
    assert forall|i: int| 0 <= i < n implies !occurs_at(t, seq![c], i) by {
        if occurs_at(t, seq![c], i) {
            assert(t.subrange(i, i + 1)[0] == c);
            assert(t[i] == s[i]);
        }
    }
    assert(first_at(t, seq![c], n));
}

/// A line ends before its line feed, and before a carriage return in front of that. The end of the
/// text ends a line too, unless the line would be empty.
pub proof fn law_lines_end_at_line_feeds(line: Seq<char>, rest: Seq<char>)
    requires
        forall|i: int| 0 <= i < line.len() ==> #[trigger] line[i] != '\n',
    ensures
        lines(Seq::empty()) == Seq::<Seq<char>>::empty(),
        line.len() > 0 ==> lines(line) == seq![line],
        lines(line + seq!['\r', '\n'] + rest) == seq![line] + lines(rest),
        line.len() > 0 && line.last() == '\r' || lines(line + seq!['\n'] + rest) == seq![line]
            + lines(rest),
{
    lemma_find(line, seq!['\n']);
    assert forall|i: int| !occurs_at(line, seq!['\n'], i) by {
        if occurs_at(line, seq!['\n'], i) {
            assert(line.subrange(i, i + 1)[0] == '\n');
        }
    }
    let plain = line + seq!['\n'] + rest;
    lemma_first_char(line, '\n', rest);
    assert(plain.take(line.len() as int) =~= line);
    assert(plain.skip(line.len() as int + 1) =~= rest);
    let cr = line.push('\r');
    let full = line + seq!['\r', '\n'] + rest;
    assert(full =~= cr + seq!['\n'] + rest);
    assert forall|i: int| 0 <= i < cr.len() implies #[trigger] cr[i] != '\n' by {
        if i < line.len() {
            assert(cr[i] == line[i]);
        }
    }
    lemma_first_char(cr, '\n', rest);
    assert(full.take(cr.len() as int) =~= cr);
    assert(full.skip(cr.len() as int + 1) =~= rest);
    assert(cr.drop_last() =~= line);
}

/// The number that a row of decimal digits stands for.
pub open spec fn number_of(digits: Seq<char>) -> int
    decreases digits.len(),
{
    if digits.len() == 0 {
        0
    } else {
        number_of(digits.drop_last()) * 10 + (digits.last() as int - '0' as int)
    }
}

/// The decimal form of a number is a row of digits that stands for it, without a zero in front.
pub proof fn law_decimal_stands_for_its_number(n: nat)
    ensures
        number_of(decimal(n)) == n,
        forall|i: int| 0 <= i < decimal(n).len() ==> '0' <= #[trigger] decimal(n)[i] <= '9',
        decimal(n).len() > 0,
        n > 0 ==> decimal(n)[0] != '0',
        n == 0 ==> decimal(n).len() == 1,
    decreases n,
{
    reveal_with_fuel(number_of, 2);
    if n >= 10 {
        let m = n / 10;
        law_decimal_stands_for_its_number(m);
        assert(decimal(n).drop_last() =~= decimal(m));
        assert forall|i: int| 0 <= i < decimal(n).len() implies '0' <= #[trigger] decimal(n)[i]
            <= '9' by {
            if i < decimal(m).len() {
                assert(decimal(n)[i] == decimal(m)[i]);
            }
        }
        assert(decimal(n)[0] == decimal(m)[0]);
    } else {
        assert(decimal(n) =~= seq![digit(n)]);
        assert(decimal(n).drop_last() =~= Seq::<char>::empty());
    }
}

/// Joining puts each part in its place with the separator between: one part stands alone, and one
/// more part comes behind a separator.
pub proof fn law_joined_parts_stand_in_order(
    parts: Seq<Seq<char>>,
    part: Seq<char>,
    separator: Seq<char>,
)
    ensures
        joined(seq![part], separator) == part,
        parts.len() > 0 ==> joined(parts.push(part), separator) == joined(parts, separator)
            + separator + part,
{
    assert(parts.push(part).drop_last() =~= parts);
}

/// Parts that hold no `c` can be told apart again after they were joined with it.
pub proof fn law_joined_parts_can_be_told_apart(parts: Seq<Seq<char>>, c: char)
    requires
        parts.len() > 0,
        forall|i: int, j: int|
            0 <= i < parts.len() && 0 <= j < parts[i].len() ==> #[trigger] parts[i][j] != c,
    ensures
        split_at_char(joined(parts, seq![c]), c) == parts,
    decreases parts.len(),
{
    if parts.len() == 1 {
        assert(parts =~= seq![parts[0]]);
        lemma_split_one(parts[0], c);
    } else {
        let rest = parts.skip(1);
        lemma_joined_first(parts, seq![c]);
        assert forall|i: int, j: int|
            0 <= i < rest.len() && 0 <= j < rest[i].len() implies #[trigger] rest[i][j] != c by {
            assert(parts[i + 1][j] != c);
        }
        law_joined_parts_can_be_told_apart(rest, c);
        lemma_split_step(parts[0], c, joined(rest, seq![c]));
        assert(parts =~= seq![parts[0]] + rest);
    }
}

proof fn lemma_joined_first(parts: Seq<Seq<char>>, separator: Seq<char>)
    requires
        parts.len() > 1,
    ensures
        joined(parts, separator) == parts[0] + separator + joined(parts.skip(1), separator),
    decreases parts.len(),
{
    if parts.len() == 2 {
        assert(parts.drop_last() =~= seq![parts[0]]);
        assert(parts.skip(1) =~= seq![parts[1]]);
        assert(joined(seq![parts[0]], separator) == parts[0]);
        assert(joined(seq![parts[1]], separator) == parts[1]);
    } else {
        lemma_joined_first(parts.drop_last(), separator);
        assert(parts.drop_last().skip(1) =~= parts.skip(1).drop_last());
        assert(joined(parts, separator) =~= parts[0] + separator + joined(
            parts.skip(1),
            separator,
        ));
    }
}

/// Where a text is cut at the first `p` and then at the first `q`, it is cut at whichever comes
/// first.
pub proof fn lemma_cut_at_either(piece: Seq<char>, tail: Seq<char>, p: Seq<char>, q: Seq<char>)
    requires
        p.len() > 0,
        q.len() > 0,
        forall|k: int| 0 <= k < q.len() ==> #[trigger] q[k] != p[0],
        tail.len() == 0 || starts_with(tail, p) || starts_with(tail, q),
        forall|i: int|
            0 <= i < piece.len() ==> !occurs_at(piece + tail, p, i) && !occurs_at(
                piece + tail,
                q,
                i,
            ),
    ensures
        before(before(piece + tail, p), q) == piece,
{
    let s = piece + tail;
    let n = piece.len() as int;
    lemma_find(s, p);
    let cut = before(s, p);
    lemma_find(cut, q);
    if starts_with(tail, p) {
        assert(s.subrange(n, n + p.len()) =~= tail.subrange(0, p.len() as int));
        assert(first_at(s, p, n));
        assert(cut =~= piece);
    } else if tail.len() == 0 {
        assert(s =~= piece);
        assert forall|i: int| !occurs_at(s, p, i) by {}
    } else {
        assert(s.subrange(n, n + q.len()) =~= tail.subrange(0, q.len() as int));
        if contains(s, p) {
            let m = find(s, p)->0;
            assert(s.subrange(m, m + p.len())[0] == p[0]);
            assert(n <= m);
            if m < n + q.len() {
                assert(s[m] == q[m - n]);
            }
        }
        assert(cut.len() >= n + q.len());
        assert(cut.subrange(n, n + q.len()) =~= q);
    }
    assert forall|i: int| 0 <= i < n implies !occurs_at(cut, q, i) by {
        if occurs_at(cut, q, i) {
            assert(s.subrange(i, i + q.len()) =~= cut.subrange(i, i + q.len()));
            assert(occurs_at(s, q, i));
        }
    }
    if cut =~= piece {
        assert forall|i: int| !occurs_at(cut, q, i) by {}
    } else {
        assert(first_at(cut, q, n));
        assert(cut.take(n) =~= piece);
    }
}

/// A text that ends where either `p` or `q` stands for the first time.
pub open spec fn ends_before_either(
    piece: Seq<char>,
    tail: Seq<char>,
    p: Seq<char>,
    q: Seq<char>,
) -> bool {
    &&& tail.len() == 0 || starts_with(tail, p) || starts_with(tail, q)
    &&& forall|i: int|
        0 <= i < piece.len() ==> !occurs_at(piece + tail, p, i) && !occurs_at(piece + tail, q, i)
}

/// A text begins with another exactly where its first characters are those of the other.
pub proof fn law_beginning_is_the_first_characters(s: Seq<char>, p: Seq<char>)
    ensures
        starts_with(s, p) <==> s.len() >= p.len() && s.take(p.len() as int) == p,
        s.len() >= p.len() && s.take(p.len() as int) == p ==> s == p + s.skip(p.len() as int),
{
    if s.len() >= p.len() {
        assert(s.subrange(0, p.len() as int) =~= s.take(p.len() as int));
        assert(s =~= s.take(p.len() as int) + s.skip(p.len() as int));
    }
}

} // verus!
