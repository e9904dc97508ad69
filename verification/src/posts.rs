//! Posts that a page of search results hides from its readers.
//!
//! The site keeps some posts in an invisible `div` whose content is Base64. The page is made
//! readable by putting what the content stands for in its place.

use vstd::prelude::*;
use vstd::slice::slice_subrange;
use vstd::utf8::{decode_utf8, encode_utf8, encode_utf8_decode_utf8, encode_utf8_valid_utf8};
use vstd::utf8::{length_of_first_scalar, pop_first_scalar, valid_utf8};

use crate::text::{all_in, is_stripped, law_trim_leaves_the_middle};
use crate::text::{chars_of, contains, find, find_chars, first_at, lemma_find, lemma_strip_len};
use crate::text::{occurs_at, string_of, trim, trim_chars, CharClass};

verus! {

/// How a hidden post begins.
pub open spec fn marker() -> Seq<char> {
    "class=\"post re-ab\" style=\"display:none;\">"@
}

/// How a visible post begins.
pub open spec fn visible_marker() -> Seq<char> {
    "class=\"post\">"@
}

/// How a hidden post ends.
pub open spec fn closing_tag() -> Seq<char> {
    "</div>"@
}

/// Where the first hidden post of the page stands: the index of its marker, and the index of the
/// closing tag behind it.
pub open spec fn hidden_post(html: Seq<char>) -> Option<(int, int)> {
    match find(html, marker()) {
        Some(start) => match find(html.skip(start + marker().len()), closing_tag()) {
            Some(len) => Some((start, start + marker().len() + len)),
            None => None,
        },
        None => None,
    }
}

/// The content of the first hidden post, without the whitespace around it.
pub open spec fn hidden_text(html: Seq<char>) -> Seq<char> {
    match hidden_post(html) {
        Some((start, end)) => trim(html.subrange(start + marker().len(), end)),
        None => Seq::empty(),
    }
}

/// The text that the bytes are the UTF-8 form of.
pub open spec fn text_of_bytes(bytes: Option<Seq<u8>>) -> Option<Seq<char>> {
    match bytes {
        Some(b) => if valid_utf8(b) {
            Some(decode_utf8(b))
        } else {
            None
        },
        None => None,
    }
}

/// The page with its first hidden post made visible, where the content of that post stands for
/// `bytes`.
pub open spec fn revealed(html: Seq<char>, bytes: Option<Seq<u8>>) -> Option<Seq<char>> {
    match (hidden_post(html), text_of_bytes(bytes)) {
        (Some((start, end)), Some(text)) => Some(
            html.take(start) + visible_marker() + text + html.skip(end),
        ),
        _ => None,
    }
}

/// What the `base64` crate's standard engine makes of a text.
pub uninterp spec fn base64_decoded(text: Seq<char>) -> Option<Seq<u8>>;

/// The bytes that a text stands for in Base64. They are never more than the text has characters.
pub open spec fn base64_bytes(text: Seq<char>) -> Option<Seq<u8>> {
    match base64_decoded(text) {
        Some(bytes) => if bytes.len() <= text.len() {
            Some(bytes)
        } else {
            None
        },
        None => None,
    }
}

/// The page with its first hidden post made visible, where that post can be read.
pub open spec fn first_revealed(html: Seq<char>) -> Option<Seq<char>> {
    revealed(html, base64_bytes(hidden_text(html)))
}

/// The page with one hidden post after the other made visible, until the first that is left
/// cannot be read.
pub open spec fn posts_decoded(html: Seq<char>) -> Seq<char>
    decreases html.len(),
{
    match first_revealed(html) {
        Some(next) => {
            proof {
                lemma_reveal_shrinks(html);
            }
            posts_decoded(next)
        },
        None => html,
    }
}

proof fn lemma_decode_len(bytes: Seq<u8>)
    requires
        valid_utf8(bytes),
    ensures
        decode_utf8(bytes).len() <= bytes.len(),
    decreases bytes.len(),
{
    if bytes.len() > 0 {
        let rest = pop_first_scalar(bytes);
        assert(rest.len() == bytes.len() - length_of_first_scalar(bytes));
        lemma_decode_len(rest);
    }
}

/// Where the parts of the first hidden post are.
pub proof fn lemma_hidden_post(html: Seq<char>)
    ensures
        hidden_post(html) matches Some((start, end)) ==> {
            &&& 0 <= start
            &&& start + marker().len() <= end
            &&& end + closing_tag().len() <= html.len()
            &&& occurs_at(html, marker(), start)
        },
{
    lemma_find(html, marker());
    if let Some(start) = find(html, marker()) {
        lemma_find(html.skip(start + marker().len()), closing_tag());
    }
}

/// Making a hidden post visible makes the page shorter.
pub proof fn lemma_reveal_shrinks(html: Seq<char>)
    ensures
        first_revealed(html) matches Some(next) ==> next.len() < html.len(),
{
    lemma_hidden_post(html);
    if first_revealed(html) is Some {
        let (start, end) = hidden_post(html)->0;
        let content = html.subrange(start + marker().len(), end);
        lemma_strip_len(content, CharClass::Whitespace);
        lemma_decode_len(base64_bytes(trim(content))->0);
        reveal_strlit("class=\"post re-ab\" style=\"display:none;\">");
        reveal_strlit("class=\"post\">");
    }
}

/// The model of optional bytes.
pub open spec fn bytes_view(bytes: Option<Vec<u8>>) -> Option<Seq<u8>> {
    match bytes {
        Some(b) => Some(b@),
        None => None,
    }
}

/// `base64::Engine::decode` of `base64::engine::general_purpose::STANDARD`: a function of the
/// text, which fails or gives bytes. Four symbols give at most three bytes, and every symbol is an
/// ASCII character, so there are no more bytes than characters. Which bytes they are is not
/// stated.
#[verifier::external_body]
pub(crate) fn decode_standard(text: &str) -> (r: Option<Vec<u8>>)
    ensures
        bytes_view(r) == base64_decoded(text@),
        r matches Some(bytes) ==> bytes@.len() <= text@.len(),
{
    base64::Engine::decode(&base64::engine::general_purpose::STANDARD, text).ok()
}

/// `String::from_utf8`: succeeds on exactly the byte sequences that are valid UTF-8, and gives
/// the text that they encode.
#[verifier::external_body]
pub(crate) fn utf8_string(bytes: Vec<u8>) -> (r: Option<String>)
    ensures
        r is Some <==> valid_utf8(bytes@),
        r matches Some(s) ==> s@ == decode_utf8(bytes@),
{
    String::from_utf8(bytes).ok()
}

/// Where the first hidden post of the page stands: the index of its marker, and the index of the
/// closing tag behind it.
pub fn find_hidden_post(html: &[char]) -> (r: Option<(usize, usize)>)
    ensures
        r is Some <==> hidden_post(html@) is Some,
        r matches Some((start, end)) ==> hidden_post(html@) == Some((start as int, end as int)),
{
    let mark = chars_of("class=\"post re-ab\" style=\"display:none;\">");
    let n: usize = html.len();
    match find_chars(html, &mark) {
        Some(start) => {
            let content: usize = start + mark.len();
            assert(html@.subrange(content as int, n as int) =~= html@.skip(content as int));
            match find_chars(slice_subrange(html, content, n), &chars_of("</div>")) {
                Some(len) => Some((start, content + len)),
                None => None,
            }
        },
        None => None,
    }
}

/// The content of the hidden post that stands at `post`, without the whitespace around it.
fn hidden_text_at(html: &[char], post: (usize, usize)) -> (r: String)
    requires
        hidden_post(html@) == Some((post.0 as int, post.1 as int)),
    ensures
        r@ == hidden_text(html@),
{
    proof {
        lemma_hidden_post(html@);
    }
    let content: usize = post.0 + chars_of("class=\"post re-ab\" style=\"display:none;\">").len();
    string_of(trim_chars(slice_subrange(html, content, post.1)))
}

/// The page with its first hidden post made visible, where the content of that post stands for
/// `bytes`.
pub fn reveal_post(html: &[char], bytes: Option<Vec<u8>>) -> (r: Option<Vec<char>>)
    ensures
        r is Some <==> revealed(html@, bytes_view(bytes)) is Some,
        r matches Some(page) ==> revealed(html@, bytes_view(bytes)) == Some(page@),
{
    proof {
        lemma_hidden_post(html@);
    }
    let (start, end) = match find_hidden_post(html) {
        Some(post) => post,
        None => return None,
    };
    let text = match bytes {
        Some(b) => match utf8_string(b) {
            Some(text) => text,
            None => return None,
        },
        None => return None,
    };
    let mut page: Vec<char> = Vec::new();
    page.extend_from_slice(slice_subrange(html, 0, start));
    page.extend_from_slice(&chars_of("class=\"post\">"));
    page.extend_from_slice(&chars_of(text.as_str()));
    page.extend_from_slice(slice_subrange(html, end, html.len()));
    assert(page@ =~= html@.take(start as int) + visible_marker() + text@ + html@.skip(end as int));
    Some(page)
}

/// The page `html` with its hidden posts made visible, one after the other, until the first that
/// is left cannot be read.
pub fn decode_base64_posts(html: &str) -> (r: String)
    ensures
        r@ == posts_decoded(html@),
{
    let mut page = chars_of(html);
    loop
        invariant
            posts_decoded(page@) == posts_decoded(html@),
        decreases page@.len(),
    {
        proof {
            lemma_reveal_shrinks(page@);
        }
        let post = match find_hidden_post(&page) {
            Some(post) => post,
            None => return string_of(&page),
        };
        let text = hidden_text_at(&page, post);
        match reveal_post(&page, decode_standard(text.as_str())) {
            Some(next) => {
                page = next;
            },
            None => return string_of(&page),
        }
    }
}

/// No hidden post that can be read is the first that is left.
pub proof fn law_no_readable_post_is_left(html: Seq<char>)
    ensures
        first_revealed(posts_decoded(html)) is None,
    decreases html.len(),
{
    lemma_reveal_shrinks(html);
    if let Some(next) = first_revealed(html) {
        law_no_readable_post_is_left(next);
    }
}

/// A page whose posts have been made visible stays as it is.
pub proof fn law_decoding_twice_changes_nothing(html: Seq<char>)
    ensures
        posts_decoded(posts_decoded(html)) == posts_decoded(html),
{
    law_no_readable_post_is_left(html);
}

/// A page without a hidden post stays as it is.
pub proof fn law_page_without_hidden_posts_is_kept(html: Seq<char>)
    requires
        !contains(html, marker()),
    ensures
        posts_decoded(html) == html,
{
}

/// A hidden post that can be read is shown in its place, and the rest of the page is then made
/// readable in the same way.
pub proof fn law_hidden_post_is_shown(
    head: Seq<char>,
    content: Seq<char>,
    tail: Seq<char>,
    text: Seq<char>,
)
    requires
        first_at(head + marker() + content + closing_tag() + tail, marker(), head.len() as int),
        first_at(content + closing_tag() + tail, closing_tag(), content.len() as int),
        text_of_bytes(base64_bytes(trim(content))) == Some(text),
    ensures
        posts_decoded(head + marker() + content + closing_tag() + tail) == posts_decoded(
            head + visible_marker() + text + closing_tag() + tail,
        ),
{
    let html = head + marker() + content + closing_tag() + tail;
    let start = head.len() as int;
    let inner = start + marker().len();
    let end = inner + content.len();
    lemma_find(html, marker());
    assert(html.skip(inner) =~= content + closing_tag() + tail);
    lemma_find(html.skip(inner), closing_tag());
    assert(hidden_post(html) == Some((start, end)));
    assert(html.subrange(inner, end) =~= content);
    assert(html.take(start) =~= head);
    assert(html.skip(end) =~= closing_tag() + tail);
    let next = head + visible_marker() + text + closing_tag() + tail;
    assert(head + visible_marker() + text + (closing_tag() + tail) =~= next);
    assert(first_revealed(html) == Some(next));
    lemma_reveal_shrinks(html);
}

/// What stands before the first hidden post is kept, whatever the hidden posts hold.
pub proof fn law_text_before_hidden_posts_is_kept(html: Seq<char>)
    ensures
        hidden_post(html) matches Some((start, end)) ==> {
            &&& start <= posts_decoded(html).len()
            &&& posts_decoded(html).take(start) == html.take(start)
        },
    decreases html.len(),
{
    lemma_hidden_post(html);
    lemma_reveal_shrinks(html);
    if let Some(next) = first_revealed(html) {
        let (start, end) = hidden_post(html)->0;
        lemma_hidden_post(next);
        law_text_before_hidden_posts_is_kept(next);
        assert(next.take(start) =~= html.take(start));
        reveal_strlit("class=\"post re-ab\" style=\"display:none;\">");
        reveal_strlit("class=\"post\">");
        if let Some((start2, end2)) = hidden_post(next) {
            // The marker has its only `c` in front, and the visible marker begins with one: no
            // marker reaches into what was put in.
            if start2 < start {
                lemma_find(html, marker());
                if start2 + marker().len() <= start {
                    assert(next.subrange(start2, start2 + marker().len()) =~= html.subrange(
                        start2,
                        start2 + marker().len(),
                    ));
                    assert(occurs_at(html, marker(), start2));
                } else {
                    let k = start - start2;
                    assert(next[start] == visible_marker()[0]);
                    assert(next.subrange(start2, start2 + marker().len())[k] == next[start]);
                    assert(marker()[k] == 'c');
                }
                assert(false);
            }
            assert(posts_decoded(next).take(start) =~= posts_decoded(next).take(start2).take(
                start,
            ));
            assert(next.take(start2).take(start) =~= next.take(start));
        } else {
            assert(posts_decoded(next) == next);
        }
    } else {
        assert(posts_decoded(html) == html);
    }
}

/// The page `head`, then a hidden post with the given content, then `tail`.
pub open spec fn page_with_post(
    head: Seq<char>,
    content: Seq<char>,
    tail: Seq<char>,
) -> Seq<char> {
    head + "class=\"post re-ab\" style=\"display:none;\">"@ + content + "</div>"@ + tail
}

/// The marker behind `head` is the first of the page, and the closing tag behind `content` is the
/// first behind that marker.
pub open spec fn is_first_post(head: Seq<char>, content: Seq<char>, tail: Seq<char>) -> bool {
    &&& first_at(page_with_post(head, content, tail), "class=\"post re-ab\" style=\"display:none;\">"@, head.len() as int)
    &&& first_at(content + "</div>"@ + tail, "</div>"@, content.len() as int)
}

proof fn lemma_first_post(head: Seq<char>, content: Seq<char>, tail: Seq<char>)
    requires
        is_first_post(head, content, tail),
    ensures
        ({
            let html = page_with_post(head, content, tail);
            let inner = head.len() + "class=\"post re-ab\" style=\"display:none;\">"@.len();
            &&& hidden_post(html) == Some((head.len() as int, (inner + content.len()) as int))
            &&& hidden_text(html) == trim(content)
            &&& html.take(head.len() as int) == head
            &&& html.skip((inner + content.len()) as int) == "</div>"@ + tail
        }),
{
    let html = page_with_post(head, content, tail);
    let start = head.len() as int;
    let inner = start + "class=\"post re-ab\" style=\"display:none;\">"@.len();
    let end = inner + content.len();
    lemma_find(html, "class=\"post re-ab\" style=\"display:none;\">"@);
    assert(html.skip(inner) =~= content + "</div>"@ + tail);
    lemma_find(html.skip(inner), "</div>"@);
    assert(html.subrange(inner, end) =~= content);
    assert(html.take(start) =~= head);
    assert(html.skip(end) =~= "</div>"@ + tail);
}

/// What is put in the place of a hidden post is the whole text that was hidden: the one whose UTF-8
/// form is the bytes that the content stands for, whitespace around the content aside. What stands
/// around the post stays, and the page goes on to be read in the same way.
pub proof fn law_hidden_text_is_shown_whole(
    head: Seq<char>,
    w1: Seq<char>,
    code: Seq<char>,
    w2: Seq<char>,
    tail: Seq<char>,
    text: Seq<char>,
)
    requires
        is_first_post(head, w1 + code + w2, tail),
        all_in(w1, CharClass::Whitespace),
        all_in(w2, CharClass::Whitespace),
        is_stripped(code, CharClass::Whitespace),
        base64_decoded(code) == Some(encode_utf8(text)),
        encode_utf8(text).len() <= code.len(),
    ensures
        revealed(page_with_post(head, w1 + code + w2, tail), Some(encode_utf8(text))) == Some(
            head + "class=\"post\">"@ + text + "</div>"@ + tail,
        ),
        first_revealed(page_with_post(head, w1 + code + w2, tail)) == Some(
            head + "class=\"post\">"@ + text + "</div>"@ + tail,
        ),
        posts_decoded(page_with_post(head, w1 + code + w2, tail)) == posts_decoded(
            head + "class=\"post\">"@ + text + "</div>"@ + tail,
        ),
{
    let html = page_with_post(head, w1 + code + w2, tail);
    let next = head + "class=\"post\">"@ + text + "</div>"@ + tail;
    lemma_first_post(head, w1 + code + w2, tail);
    law_trim_leaves_the_middle(w1, code, w2, CharClass::Whitespace);
    encode_utf8_valid_utf8(text);
    encode_utf8_decode_utf8(text);
    assert(head + "class=\"post\">"@ + text + ("</div>"@ + tail) =~= next);
    lemma_reveal_shrinks(html);
}

/// A first hidden post whose content is no Base64, or stands for bytes that are no UTF-8, leaves
/// the page as it is, with every other post in it.
pub proof fn law_unreadable_post_keeps_the_page(
    head: Seq<char>,
    w1: Seq<char>,
    code: Seq<char>,
    w2: Seq<char>,
    tail: Seq<char>,
)
    requires
        is_first_post(head, w1 + code + w2, tail),
        all_in(w1, CharClass::Whitespace),
        all_in(w2, CharClass::Whitespace),
        is_stripped(code, CharClass::Whitespace),
        match base64_decoded(code) {
            Some(bytes) => !valid_utf8(bytes),
            None => true,
        },
    ensures
        posts_decoded(page_with_post(head, w1 + code + w2, tail)) == page_with_post(
            head,
            w1 + code + w2,
            tail,
        ),
{
    lemma_first_post(head, w1 + code + w2, tail);
    law_trim_leaves_the_middle(w1, code, w2, CharClass::Whitespace);
}

/// A page without the marker of a hidden post, or without a closing tag behind the first one, stays
/// as it is.
pub proof fn law_page_without_complete_post_is_kept(head: Seq<char>, tail: Seq<char>)
    ensures
        !contains(head, "class=\"post re-ab\" style=\"display:none;\">"@) ==> posts_decoded(head) == head,
        first_at(head + "class=\"post re-ab\" style=\"display:none;\">"@ + tail, "class=\"post re-ab\" style=\"display:none;\">"@, head.len() as int) && !contains(tail, "</div>"@)
            ==> posts_decoded(head + "class=\"post re-ab\" style=\"display:none;\">"@ + tail) == head + "class=\"post re-ab\" style=\"display:none;\">"@ + tail,
{
    let html = head + "class=\"post re-ab\" style=\"display:none;\">"@ + tail;
    lemma_find(head, "class=\"post re-ab\" style=\"display:none;\">"@);
    lemma_find(html, "class=\"post re-ab\" style=\"display:none;\">"@);
    assert(html.skip(head.len() as int + "class=\"post re-ab\" style=\"display:none;\">"@.len()) =~= tail);
    lemma_find(tail, "</div>"@);
}

} // verus!
