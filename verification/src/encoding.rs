//! Percent-encoding, for the parts of an address or of a form.

use vstd::prelude::*;
use vstd::utf8::{encode_utf8, encode_utf8_decode_utf8};

verus! {

/// The bytes that stand for themselves: ASCII letters and digits, and `-`, `_`, `.`, `~`.
pub open spec fn is_unreserved(b: u8) -> bool {
    ||| 'A' as u8 <= b <= 'Z' as u8
    ||| 'a' as u8 <= b <= 'z' as u8
    ||| '0' as u8 <= b <= '9' as u8
    ||| b == '-' as u8
    ||| b == '_' as u8
    ||| b == '.' as u8
    ||| b == '~' as u8
}

/// The hexadecimal digit with the value `n`.
pub open spec fn hex_digit(n: int) -> char {
    if n < 10 {
        ('0' as int + n) as char
    } else {
        ('A' as int + n - 10) as char
    }
}

/// How one byte is written: as itself, or as a percent sign and two hexadecimal digits.
pub open spec fn encoded_byte(b: u8) -> Seq<char> {
    if is_unreserved(b) {
        seq![b as char]
    } else {
        seq!['%', hex_digit(b as int / 16), hex_digit(b as int % 16)]
    }
}

/// How the bytes are written, one after the other.
pub open spec fn encoded_bytes(bytes: Seq<u8>) -> Seq<char>
    decreases bytes.len(),
{
    if bytes.len() == 0 {
        Seq::empty()
    } else {
        encoded_byte(bytes[0]) + encoded_bytes(bytes.skip(1))
    }
}

/// How a text is written: the bytes of its UTF-8 form, one after the other.
pub open spec fn urlencoded(s: Seq<char>) -> Seq<char> {
    encoded_bytes(encode_utf8(s))
}

/// The value of a hexadecimal digit.
pub open spec fn hex_value(c: char) -> int {
    if '0' <= c <= '9' {
        c as int - '0' as int
    } else {
        c as int - 'A' as int + 10
    }
}

/// What a reader of a percent-encoded text takes it for.
pub open spec fn percent_decoded(t: Seq<char>) -> Seq<u8>
    decreases t.len(),
{
    if t.len() == 0 {
        Seq::empty()
    } else if t[0] == '%' && t.len() >= 3 {
        seq![(hex_value(t[1]) * 16 + hex_value(t[2])) as u8] + percent_decoded(t.skip(3))
    } else {
        seq![t[0] as u8] + percent_decoded(t.skip(1))
    }
}

/// The characters that can occur in a percent-encoded text.
pub open spec fn is_url_char(c: char) -> bool {
    ||| 'A' <= c <= 'Z'
    ||| 'a' <= c <= 'z'
    ||| '0' <= c <= '9'
    ||| c == '-'
    ||| c == '_'
    ||| c == '.'
    ||| c == '~'
    ||| c == '%'
}

proof fn lemma_decode_encoded(bytes: Seq<u8>)
    ensures
        percent_decoded(encoded_bytes(bytes)) == bytes,
    decreases bytes.len(),
{
    if bytes.len() > 0 {
        let b = bytes[0];
        let rest = encoded_bytes(bytes.skip(1));
        let t = encoded_bytes(bytes);
        lemma_decode_encoded(bytes.skip(1));
        assert(bytes =~= seq![b] + bytes.skip(1));
        if is_unreserved(b) {
            assert(t[0] == b as char);
            assert(t.skip(1) =~= rest);
            assert(percent_decoded(t) =~= seq![b] + percent_decoded(rest));
        } else {
            let hi = b as int / 16;
            let lo = b as int % 16;
            assert(t[0] == '%' && t[1] == hex_digit(hi) && t[2] == hex_digit(lo));
            assert(t.skip(3) =~= rest);
            assert(hex_value(hex_digit(hi)) == hi && hex_value(hex_digit(lo)) == lo);
            assert(percent_decoded(t) =~= seq![b] + percent_decoded(rest));
        }
    }
}

/// A reader of the encoded text gets back the bytes of the text.
pub proof fn law_decoding_gives_text_back(s: Seq<char>)
    ensures
        percent_decoded(urlencoded(s)) == encode_utf8(s),
{
    lemma_decode_encoded(encode_utf8(s));
}

/// Different texts are written differently.
pub proof fn law_encoding_is_injective(s: Seq<char>, t: Seq<char>)
    requires
        urlencoded(s) == urlencoded(t),
    ensures
        s == t,
{
    law_decoding_gives_text_back(s);
    law_decoding_gives_text_back(t);
    encode_utf8_decode_utf8(s);
    encode_utf8_decode_utf8(t);
}

proof fn lemma_encoded_chars(bytes: Seq<u8>)
    ensures
        forall|i: int|
            0 <= i < encoded_bytes(bytes).len() ==> is_url_char(#[trigger] encoded_bytes(bytes)[i]),
    decreases bytes.len(),
{
    if bytes.len() > 0 {
        let head = encoded_byte(bytes[0]);
        lemma_encoded_chars(bytes.skip(1));
        assert forall|i: int| 0 <= i < head.len() implies is_url_char(#[trigger] head[i]) by {
            let hi = bytes[0] as int / 16;
            let lo = bytes[0] as int % 16;
            assert(is_url_char(hex_digit(hi)) && is_url_char(hex_digit(lo)));
        }
        let rest = encoded_bytes(bytes.skip(1));
        assert forall|i: int| 0 <= i < encoded_bytes(bytes).len() implies is_url_char(
            #[trigger] encoded_bytes(bytes)[i],
        ) by {
            if i < head.len() {
                assert(encoded_bytes(bytes)[i] == head[i]);
            } else {
                assert(encoded_bytes(bytes)[i] == rest[i - head.len()]);
            }
        }
    }
}

/// The encoded text holds none of the characters that separate the parts of an address or of a
/// form: it is made of letters, digits, `-`, `_`, `.`, `~` and `%`.
pub proof fn law_encoded_text_is_url_safe(s: Seq<char>)
    ensures
        forall|i: int| 0 <= i < urlencoded(s).len() ==> is_url_char(#[trigger] urlencoded(s)[i]),
{
    lemma_encoded_chars(encode_utf8(s));
}

fn push_hex_digit(out: &mut String, n: u8)
    requires
        n < 16,
    ensures
        final(out)@ == old(out)@.push(hex_digit(n as int)),
{
    if n < 10 {
        out.push(('0' as u8 + n) as char);
    } else {
        out.push(('A' as u8 + (n - 10)) as char);
    }
}

/// The percent-encoded form of `s`.
pub fn urlencoding(s: &str) -> (r: String)
    ensures
        r@ == urlencoded(s@),
{
    let bytes = s.as_bytes();
    let mut out = String::new();
    let mut i: usize = 0;
    let ghost all = bytes@;
    assert(all.skip(0) =~= all);
    assert(out@ + encoded_bytes(all) =~= encoded_bytes(all));
    while i < bytes.len()
        invariant
            all == bytes@,
            i <= all.len(),
            out@ + encoded_bytes(all.skip(i as int)) == encoded_bytes(all),
        decreases bytes.len() - i,
    {
        let b = bytes[i];
        let ghost before = out@;
        let ghost rest = encoded_bytes(all.skip(i + 1));
        assert(all.skip(i as int).skip(1) =~= all.skip(i + 1));
        assert(encoded_bytes(all.skip(i as int)) == encoded_byte(b) + rest);
        if ('A' as u8 <= b && b <= 'Z' as u8) || ('a' as u8 <= b && b <= 'z' as u8) || ('0' as u8
            <= b && b <= '9' as u8) || b == '-' as u8 || b == '_' as u8 || b == '.' as u8 || b
            == '~' as u8 {
            out.push(b as char);
        } else {
            out.push('%');
            push_hex_digit(&mut out, b / 16);
            push_hex_digit(&mut out, b % 16);
        }
        assert(out@ =~= before + encoded_byte(b));
        assert(out@ + rest =~= before + (encoded_byte(b) + rest));
        i += 1;
    }
    assert(all.skip(i as int) =~= Seq::<u8>::empty());
    assert(out@ + encoded_bytes(all.skip(i as int)) =~= out@);
    out
}

proof fn lemma_encoded_concat(a: Seq<u8>, b: Seq<u8>)
    ensures
        encoded_bytes(a + b) == encoded_bytes(a) + encoded_bytes(b),
    decreases a.len(),
{
    if a.len() == 0 {
        assert(a + b =~= b);
        assert(encoded_bytes(a) + encoded_bytes(b) =~= encoded_bytes(b));
    } else {
        assert((a + b).skip(1) =~= a.skip(1) + b);
        lemma_encoded_concat(a.skip(1), b);
        assert(encoded_bytes(a + b) =~= encoded_bytes(a) + encoded_bytes(b));
    }
}

/// Every byte of the UTF-8 form of a text is written in its place: as the ASCII character that it is
/// where that is a letter, a digit or one of `-._~`, and otherwise as a percent sign and its two
/// hexadecimal digits in upper case.
pub proof fn law_every_byte_is_written_in_its_place(
    s: Seq<char>,
    earlier: Seq<u8>,
    b: u8,
    later: Seq<u8>,
)
    requires
        encode_utf8(s) == earlier + seq![b] + later,
    ensures
        ({
            let plain = 0x41 <= b <= 0x5a || 0x61 <= b <= 0x7a || 0x30 <= b <= 0x39 || b == 0x2d
                || b == 0x2e || b == 0x5f || b == 0x7e;
            let written = if plain {
                seq![b as char]
            } else {
                seq![
                    '%',
                    "0123456789ABCDEF"@[b as int / 16],
                    "0123456789ABCDEF"@[b as int % 16],
                ]
            };
            urlencoded(s) == encoded_bytes(earlier) + written + encoded_bytes(later)
        }),
        encoded_bytes(Seq::empty()) == Seq::<char>::empty(),
{
    reveal_strlit("0123456789ABCDEF");
    lemma_encoded_concat(earlier + seq![b], later);
    lemma_encoded_concat(earlier, seq![b]);
    assert(seq![b].skip(1) =~= Seq::<u8>::empty());
    reveal_with_fuel(encoded_bytes, 2);
    assert(encoded_bytes(seq![b]) =~= encoded_byte(b));
    let hi = b as int / 16;
    let lo = b as int % 16;
    assert(0 <= hi < 16 && 0 <= lo < 16);
    assert(hex_digit(hi) == "0123456789ABCDEF"@[hi]);
    assert(hex_digit(lo) == "0123456789ABCDEF"@[lo]);
}

} // verus!
