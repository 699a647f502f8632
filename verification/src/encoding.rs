//! Percent-encoding for URL query values, and the decoding of form-encoded values.
use vstd::prelude::*;
use vstd::utf8::*;

verus! {

/// The bytes that RFC 3986 calls unreserved: letters, digits, `-`, `.`, `_` and `~`.
pub open spec fn is_unreserved(b: u8) -> bool {
    let c = b as char;
    ||| 'A' <= c <= 'Z'
    ||| 'a' <= c <= 'z'
    ||| '0' <= c <= '9'
    ||| c == '-'
    ||| c == '.'
    ||| c == '_'
    ||| c == '~'
}

/// The upper-case hexadecimal digit for `n`, which is below 16.
pub open spec fn hex_digit(n: u8) -> char {
    if n < 10 {
        ('0' as u8 + n) as char
    } else {
        ('A' as u8 + (n - 10)) as char
    }
}

/// One byte as it stands in a query value: itself when unreserved, else `%` and two digits.
pub open spec fn pct_byte(b: u8) -> Seq<char> {
    if is_unreserved(b) {
        seq![b as char]
    } else {
        seq!['%', hex_digit(b / 16), hex_digit(b % 16)]
    }
}

/// Bytes as they stand in a query value.
pub open spec fn pct_bytes(bytes: Seq<u8>) -> Seq<char>
    decreases bytes.len(),
{
    if bytes.len() == 0 {
        Seq::empty()
    } else {
        pct_byte(bytes[0]) + pct_bytes(bytes.skip(1))
    }
}

/// A text as it stands in a query value: its UTF-8 bytes, percent-encoded.
pub open spec fn pct_text(s: Seq<char>) -> Seq<char> {
    pct_bytes(encode_utf8(s))
}

/// The value of a hexadecimal digit of either case.
pub open spec fn hex_value(b: u8) -> Option<u8> {
    if '0' as u8 <= b <= '9' as u8 {
        Some((b - '0' as u8) as u8)
    } else if 'a' as u8 <= b <= 'f' as u8 {
        Some((b - 'a' as u8 + 10) as u8)
    } else if 'A' as u8 <= b <= 'F' as u8 {
        Some((b - 'A' as u8 + 10) as u8)
    } else {
        None
    }
}

/// Whether `bytes` begins with a whole escape: `%` and two hexadecimal digits.
pub open spec fn begins_with_escape(bytes: Seq<u8>) -> bool {
    &&& bytes.len() >= 3
    &&& bytes[0] == '%' as u8
    &&& hex_value(bytes[1]) is Some
    &&& hex_value(bytes[2]) is Some
}

/// The bytes that a form-encoded value stands for: `+` is a space, an escape is the byte it names,
/// and everything else, an incomplete escape too, is itself.
pub open spec fn form_bytes(bytes: Seq<u8>) -> Seq<u8>
    decreases bytes.len(),
{
    if bytes.len() == 0 {
        Seq::empty()
    } else if bytes[0] == '+' as u8 {
        seq![' ' as u8] + form_bytes(bytes.skip(1))
    } else if begins_with_escape(bytes) {
        seq![(hex_value(bytes[1])->0 * 16 + hex_value(bytes[2])->0) as u8] + form_bytes(
            bytes.skip(3),
        )
    } else {
        seq![bytes[0]] + form_bytes(bytes.skip(1))
    }
}

/// What `String::from_utf8_lossy` makes of bytes that are not UTF-8: a text with replacement
/// characters where they are not.
pub uninterp spec fn repaired_utf8(bytes: Seq<u8>) -> Seq<char>;

/// The text of some bytes: their UTF-8 decoding, repaired where they are not UTF-8.
pub open spec fn utf8_text(bytes: Seq<u8>) -> Seq<char> {
    if valid_utf8(bytes) {
        decode_utf8(bytes)
    } else {
        repaired_utf8(bytes)
    }
}

/// The text that a form-encoded value stands for.
pub open spec fn form_text(s: Seq<char>) -> Seq<char> {
    utf8_text(form_bytes(encode_utf8(s)))
}

/// `String::from_utf8_lossy`: the decoding of UTF-8 bytes. Other bytes give a text that depends on them
/// alone and holds a replacement character; how many there are, and where, is left unsaid.
#[verifier::external_body]
fn from_utf8_lossy(bytes: &[u8]) -> (r: String)
    ensures
        valid_utf8(bytes@) ==> r@ == decode_utf8(bytes@),
        !valid_utf8(bytes@) ==> r@ == repaired_utf8(bytes@),
        !valid_utf8(bytes@) ==> r@.contains('\u{fffd}'),
{
    String::from_utf8_lossy(bytes).into_owned()
}

/// Whether a byte stands for itself in a query value.
fn unreserved(b: u8) -> (r: bool)
    ensures
        r == is_unreserved(b),
{
    let c = b as char;
    ('A' <= c && c <= 'Z') || ('a' <= c && c <= 'z') || ('0' <= c && c <= '9') || c == '-' || c
        == '.' || c == '_' || c == '~'
}

/// The upper-case hexadecimal digit for `n`.
fn hex_char(n: u8) -> (r: char)
    requires
        n < 16,
    ensures
        r == hex_digit(n),
{
    if n < 10 {
        ('0' as u8 + n) as char
    } else {
        ('A' as u8 + (n - 10)) as char
    }
}

/// The value of a hexadecimal digit of either case.
fn digit_value(b: u8) -> (r: Option<u8>)
    ensures
        r == hex_value(b),
{
    if '0' as u8 <= b && b <= '9' as u8 {
        Some(b - '0' as u8)
    } else if 'a' as u8 <= b && b <= 'f' as u8 {
        Some(b - 'a' as u8 + 10)
    } else if 'A' as u8 <= b && b <= 'F' as u8 {
        Some(b - 'A' as u8 + 10)
    } else {
        None
    }
}

/// Percent-encodes `s` for a URL query value: unreserved characters stay, every other byte is escaped.
pub fn pct(s: &str) -> (r: String)
    ensures
        r@ == pct_text(s@),
{
    let bytes = s.as_bytes();
    let mut out = String::new();
    let mut i: usize = 0;
    assert(bytes@.skip(0) == bytes@);
    while i < bytes.len()
        invariant
            i <= bytes.len(),
            out@ + pct_bytes(bytes@.skip(i as int)) == pct_bytes(bytes@),
        decreases bytes.len() - i,
    {
        let b: u8 = bytes[i];
        let ghost before = out@;
        if unreserved(b) {
            out.push(b as char);
        } else {
            out.push('%');
            out.push(hex_char(b / 16));
            out.push(hex_char(b % 16));
        }
        assert(out@ == before + pct_byte(b));
        assert(bytes@.skip(i as int).skip(1) == bytes@.skip(i + 1));
        i = i + 1;
    }
    assert(out@ + pct_bytes(bytes@.skip(i as int)) == out@);
    out
}

/// Decodes a form-encoded value.
pub fn form_decode(s: &str) -> (r: String)
    ensures
        r@ == form_text(s@),
        !valid_utf8(form_bytes(encode_utf8(s@))) ==> r@.contains('\u{fffd}'),
{
    let bytes = s.as_bytes();
    let mut out: Vec<u8> = Vec::new();
    let mut i: usize = 0;
    assert(bytes@.skip(0) == bytes@);
    while i < bytes.len()
        invariant
            i <= bytes.len(),
            out@ + form_bytes(bytes@.skip(i as int)) == form_bytes(bytes@),
        decreases bytes.len() - i,
    {
        let ghost rest = bytes@.skip(i as int);
        let ghost before = out@;
        let b: u8 = bytes[i];
        let mut step: usize = 1;
        if b == '+' as u8 {
            out.push(' ' as u8);
        } else if b == '%' as u8 && bytes.len() - i > 2 {
            match (digit_value(bytes[i + 1]), digit_value(bytes[i + 2])) {
                (Some(hi), Some(lo)) => {
                    out.push(hi * 16 + lo);
                    step = 3;
                },
                _ => {
                    out.push(b);
                },
            }
        } else {
            out.push(b);
        }
        assert(rest.skip(step as int) == bytes@.skip(i + step));
        i = i + step;
        assert(out@ + form_bytes(bytes@.skip(i as int)) == before + form_bytes(rest));
    }
    assert(out@ + form_bytes(bytes@.skip(i as int)) == out@);
    from_utf8_lossy(out.as_slice())
}

/// Whether a character may stand in a percent-encoded value: an unreserved one, or the sign of an
/// escape.
pub open spec fn is_pct_char(c: char) -> bool {
    c == '%' || c <= '\u{7f}' && is_unreserved(c as u8)
}

/// Characters below 128 as bytes.
spec fn ascii_bytes(s: Seq<char>) -> Seq<u8> {
    Seq::new(s.len(), |i: int| s[i] as u8)
}

proof fn lemma_pct_char_is_ascii(c: char)
    requires
        is_pct_char(c),
    ensures
        '\0' <= c <= '\u{7f}',
{
}

proof fn lemma_pct_byte(b: u8)
    ensures
        forall|i: int| 0 <= i < pct_byte(b).len() ==> is_pct_char(#[trigger] pct_byte(b)[i]),
{
    let p = pct_byte(b);
    if is_unreserved(b) {
        assert(p[0] as u8 == b);
    } else {
        assert(is_pct_char(p[1]));
        assert(is_pct_char(p[2]));
    }
}

proof fn lemma_pct_bytes(bytes: Seq<u8>)
    ensures
        forall|i: int| 0 <= i < pct_bytes(bytes).len() ==> is_pct_char(#[trigger] pct_bytes(bytes)[i]),
    decreases bytes.len(),
{
    if bytes.len() > 0 {
        lemma_pct_byte(bytes[0]);
        lemma_pct_bytes(bytes.skip(1));
        let head = pct_byte(bytes[0]);
        let tail = pct_bytes(bytes.skip(1));
        assert forall|i: int| 0 <= i < pct_bytes(bytes).len() implies is_pct_char(
            #[trigger] pct_bytes(bytes)[i],
        ) by {
            if i < head.len() {
                assert(pct_bytes(bytes)[i] == head[i]);
            } else {
                assert(pct_bytes(bytes)[i] == tail[i - head.len()]);
            }
        }
    }
}

proof fn lemma_form_undoes_pct(bytes: Seq<u8>)
    ensures
        form_bytes(ascii_bytes(pct_bytes(bytes))) == bytes,
    decreases bytes.len(),
{
    if bytes.len() > 0 {
        let b = bytes[0];
        let rest = bytes.skip(1);
        lemma_form_undoes_pct(rest);
        let tail = ascii_bytes(pct_bytes(rest));
        let whole = ascii_bytes(pct_bytes(bytes));
        let n = pct_byte(b).len();
        assert(whole.skip(n as int) =~= tail);
        assert(whole[0] == pct_byte(b)[0] as u8);
        if is_unreserved(b) {
            assert(whole[0] == b);
        } else {
            assert(whole[1] == pct_byte(b)[1] as u8);
            assert(whole[2] == pct_byte(b)[2] as u8);
            assert(hex_value(whole[1]) == Some((b / 16) as u8));
            assert(hex_value(whole[2]) == Some((b % 16) as u8));
            assert(begins_with_escape(whole));
        }
        assert(form_bytes(whole) =~= seq![b] + rest);
        assert(bytes =~= seq![b] + rest);
    }
}

/// A percent-encoded value holds nothing but unreserved characters and the sign of an escape, so
/// nothing in it can end the value or the query: no `&`, `=`, `#`, `+` or space.
pub proof fn law_pct_characters(s: Seq<char>)
    ensures
        forall|i: int| 0 <= i < pct_text(s).len() ==> is_pct_char(#[trigger] pct_text(s)[i]),
        forall|i: int|
            0 <= i < pct_text(s).len() ==> {
                let c = #[trigger] pct_text(s)[i];
                c != '&' && c != '=' && c != '#' && c != '+' && c != ' ' && c != '?' && c != '/'
            },
{
    lemma_pct_bytes(encode_utf8(s));
}

/// Decoding a percent-encoded value gives the value back.
pub proof fn law_pct_round_trip(s: Seq<char>)
    ensures
        form_text(pct_text(s)) == s,
{
    let bytes = encode_utf8(s);
    let encoded = pct_text(s);
    lemma_pct_bytes(bytes);
    assert forall|i: int| 0 <= i < encoded.len() implies '\0' <= #[trigger] encoded[i] <= '\u{7f}' by {
        assert(is_pct_char(pct_bytes(bytes)[i]));
        lemma_pct_char_is_ascii(encoded[i]);
    }
    is_ascii_chars_encode_utf8(encoded);
    assert(encode_utf8(encoded) =~= ascii_bytes(encoded));
    lemma_form_undoes_pct(bytes);
    encode_utf8_valid_utf8(s);
    encode_utf8_decode_utf8(s);
}

/// A text of unreserved characters is its own encoding, and its own decoding.
pub proof fn law_pct_unreserved(s: Seq<char>)
    requires
        forall|i: int| 0 <= i < s.len() ==> is_pct_char(#[trigger] s[i]) && s[i] != '%',
    ensures
        pct_text(s) == s,
        form_text(s) == s,
{
    assert forall|i: int| 0 <= i < s.len() implies '\0' <= #[trigger] s[i] <= '\u{7f}' by {
        lemma_pct_char_is_ascii(s[i]);
    }
    is_ascii_chars_encode_utf8(s);
    assert(encode_utf8(s) =~= ascii_bytes(s));
    lemma_unreserved_bytes(s);
    law_pct_round_trip(s);
}

proof fn lemma_unreserved_bytes(s: Seq<char>)
    requires
        forall|i: int| 0 <= i < s.len() ==> is_pct_char(#[trigger] s[i]) && s[i] != '%',
    ensures
        pct_bytes(ascii_bytes(s)) == s,
    decreases s.len(),
{
    if s.len() > 0 {
        let bytes = ascii_bytes(s);
        assert(is_pct_char(s[0]));
        lemma_pct_char_is_ascii(s[0]);
        assert(bytes.skip(1) =~= ascii_bytes(s.skip(1)));
        lemma_unreserved_bytes(s.skip(1));
        assert(pct_byte(bytes[0]) =~= seq![s[0]]);
        assert(s =~= seq![s[0]] + s.skip(1));
    }
}

/// Encoding goes byte by byte: the encoding of some bytes and then others is that of the first and then
/// that of the others, and a text is encoded as its UTF-8 bytes are.
pub proof fn law_pct_byte_by_byte(first: Seq<u8>, second: Seq<u8>, s: Seq<char>)
    ensures
        pct_bytes(first + second) == pct_bytes(first) + pct_bytes(second),
        pct_bytes(Seq::empty()) == Seq::<char>::empty(),
        pct_text(s) == pct_bytes(encode_utf8(s)),
    decreases first.len(),
{
    if first.len() == 0 {
        assert(first + second =~= second);
        assert(pct_bytes(first) + pct_bytes(second) =~= pct_bytes(second));
    } else {
        assert((first + second).skip(1) =~= first.skip(1) + second);
        law_pct_byte_by_byte(first.skip(1), second, s);
        assert(pct_bytes(first + second) =~= pct_bytes(first) + pct_bytes(second));
    }
}

/// A letter, a digit and each of `-`, `.`, `_` and `~` stands for itself; every other byte becomes a
/// percent sign and its two upper-case hexadecimal digits.
pub proof fn law_pct_one_byte(b: u8)
    ensures
        ({
            let c = b as char;
            let plain = 'A' <= c <= 'Z' || 'a' <= c <= 'z' || '0' <= c <= '9' || c == '-' || c == '.'
                || c == '_' || c == '~';
            &&& plain ==> pct_bytes(seq![b]) == seq![c]
            &&& !plain ==> pct_bytes(seq![b]) == seq![
                '%',
                "0123456789ABCDEF"@[b as int / 16],
                "0123456789ABCDEF"@[b as int % 16],
            ]
        }),
{
    assert(seq![b].skip(1) =~= Seq::<u8>::empty());
    assert(pct_bytes(seq![b].skip(1)) =~= Seq::<char>::empty());
    assert(pct_bytes(seq![b]) =~= pct_byte(b));
    lemma_hex_digit((b / 16) as u8);
    lemma_hex_digit((b % 16) as u8);
}

proof fn lemma_hex_digit(n: u8)
    requires
        n < 16,
    ensures
        hex_digit(n) == "0123456789ABCDEF"@[n as int],
        hex_value("0123456789ABCDEF"@[n as int] as u8) == Some(n),
        hex_value("0123456789abcdef"@[n as int] as u8) == Some(n),
{
    reveal_strlit("0123456789ABCDEF");
    reveal_strlit("0123456789abcdef");
}

/// Whether a byte is a hexadecimal digit of either case.
pub open spec fn is_hex(b: u8) -> bool {
    let c = b as char;
    '0' <= c <= '9' || 'a' <= c <= 'f' || 'A' <= c <= 'F'
}

/// Decoding goes from the left: a plus is a space, a percent sign with two hexadecimal digits, of either
/// case each, is the byte they name, a percent sign without them is itself, and so is every other byte.
pub proof fn law_form_from_the_left(b: u8, rest: Seq<u8>)
    ensures
        form_bytes(Seq::empty()) == Seq::<u8>::empty(),
        form_bytes(seq!['+' as u8] + rest) == seq![' ' as u8] + form_bytes(rest),
        b != '+' as u8 && b != '%' as u8 ==> form_bytes(seq![b] + rest) == seq![b] + form_bytes(rest),
        form_bytes(
            seq![
                '%' as u8,
                "0123456789ABCDEF"@[b as int / 16] as u8,
                "0123456789ABCDEF"@[b as int % 16] as u8,
            ] + rest,
        ) == seq![b] + form_bytes(rest),
        form_bytes(
            seq![
                '%' as u8,
                "0123456789abcdef"@[b as int / 16] as u8,
                "0123456789abcdef"@[b as int % 16] as u8,
            ] + rest,
        ) == seq![b] + form_bytes(rest),
        form_bytes(
            seq![
                '%' as u8,
                "0123456789ABCDEF"@[b as int / 16] as u8,
                "0123456789abcdef"@[b as int % 16] as u8,
            ] + rest,
        ) == seq![b] + form_bytes(rest),
        form_bytes(
            seq![
                '%' as u8,
                "0123456789abcdef"@[b as int / 16] as u8,
                "0123456789ABCDEF"@[b as int % 16] as u8,
            ] + rest,
        ) == seq![b] + form_bytes(rest),
        rest.len() < 2 || !is_hex(rest[0]) || !is_hex(rest[1]) ==> form_bytes(seq!['%' as u8] + rest)
            == seq!['%' as u8] + form_bytes(rest),
{
    assert((seq!['+' as u8] + rest).skip(1) =~= rest);
    assert((seq!['%' as u8] + rest).skip(1) =~= rest);
    assert((seq![b] + rest).skip(1) =~= rest);
    lemma_hex_digit((b / 16) as u8);
    lemma_hex_digit((b % 16) as u8);
    let hi = "0123456789ABCDEF"@[b as int / 16] as u8;
    let lo = "0123456789ABCDEF"@[b as int % 16] as u8;
    let low_hi = "0123456789abcdef"@[b as int / 16] as u8;
    let low_lo = "0123456789abcdef"@[b as int % 16] as u8;
    lemma_form_escape(hi, lo, b, rest);
    lemma_form_escape(low_hi, low_lo, b, rest);
    lemma_form_escape(hi, low_lo, b, rest);
    lemma_form_escape(low_hi, lo, b, rest);
    if rest.len() < 2 || !is_hex(rest[0]) || !is_hex(rest[1]) {
        let whole = seq!['%' as u8] + rest;
        if rest.len() >= 2 {
            assert(whole[1] == rest[0] && whole[2] == rest[1]);
        }
        assert(!begins_with_escape(whole));
    }
}

proof fn lemma_form_escape(hi: u8, lo: u8, b: u8, rest: Seq<u8>)
    requires
        hex_value(hi) == Some((b / 16) as u8),
        hex_value(lo) == Some((b % 16) as u8),
    ensures
        form_bytes(seq!['%' as u8, hi, lo] + rest) == seq![b] + form_bytes(rest),
{
    let whole = seq!['%' as u8, hi, lo] + rest;
    assert(whole[0] == '%' as u8 && whole[1] == hi && whole[2] == lo);
    assert(begins_with_escape(whole));
    assert(whole.skip(3) =~= rest);
}

/// The text decoded is the one whose UTF-8 bytes are the decoded bytes, whenever these are UTF-8.
pub proof fn law_form_text_bytes(s: Seq<char>)
    ensures
        valid_utf8(form_bytes(encode_utf8(s))) ==> encode_utf8(form_text(s)) == form_bytes(
            encode_utf8(s),
        ),
        !valid_utf8(form_bytes(encode_utf8(s))) ==> form_text(s) == repaired_utf8(
            form_bytes(encode_utf8(s)),
        ),
{
    let bytes = form_bytes(encode_utf8(s));
    if valid_utf8(bytes) {
        decode_utf8_encode_utf8(bytes);
    }
}

/// A value without a plus or a percent sign decodes to itself, whatever other characters it holds.
pub proof fn law_form_plain(s: Seq<char>)
    requires
        !s.contains('+'),
        !s.contains('%'),
    ensures
        form_text(s) == s,
{
    lemma_plain_chars(s);
    lemma_form_plain_bytes(encode_utf8(s));
    encode_utf8_valid_utf8(s);
    encode_utf8_decode_utf8(s);
}

proof fn lemma_form_plain_bytes(bytes: Seq<u8>)
    requires
        forall|i: int| 0 <= i < bytes.len() ==> #[trigger] bytes[i] != '+' as u8 && bytes[i] != '%' as u8,
    ensures
        form_bytes(bytes) == bytes,
    decreases bytes.len(),
{
    if bytes.len() > 0 {
        assert(bytes[0] != '+' as u8);
        lemma_form_plain_bytes(bytes.skip(1));
        assert(bytes =~= seq![bytes[0]] + bytes.skip(1));
    }
}

proof fn lemma_plain_chars(s: Seq<char>)
    requires
        !s.contains('+'),
        !s.contains('%'),
    ensures
        forall|i: int|
            0 <= i < encode_utf8(s).len() ==> #[trigger] encode_utf8(s)[i] != '+' as u8
                && encode_utf8(s)[i] != '%' as u8,
    decreases s.len(),
{
    if s.len() > 0 {
        let rest = s.drop_first();
        assert(!rest.contains('+')) by {
            if rest.contains('+') {
                let i = choose|i: int| 0 <= i < rest.len() && rest[i] == '+';
                assert(s[i + 1] == '+');
            }
        }
        assert(!rest.contains('%')) by {
            if rest.contains('%') {
                let i = choose|i: int| 0 <= i < rest.len() && rest[i] == '%';
                assert(s[i + 1] == '%');
            }
        }
        lemma_plain_chars(rest);
        let head = encode_scalar(s[0] as u32);
        assert(s.contains(s[0]));
        lemma_scalar_bytes(s[0]);
        assert(encode_utf8(s) =~= head + encode_utf8(rest));
        assert forall|i: int| 0 <= i < encode_utf8(s).len() implies #[trigger] encode_utf8(s)[i]
            != '+' as u8 && encode_utf8(s)[i] != '%' as u8 by {
            if i < head.len() {
                assert(encode_utf8(s)[i] == head[i]);
            } else {
                assert(encode_utf8(s)[i] == encode_utf8(rest)[i - head.len()]);
            }
        }
    }
}

proof fn lemma_scalar_bytes(c: char)
    requires
        c != '+',
        c != '%',
    ensures
        forall|i: int|
            0 <= i < encode_scalar(c as u32).len() ==> #[trigger] encode_scalar(c as u32)[i]
                != '+' as u8 && encode_scalar(c as u32)[i] != '%' as u8,
{
    let v = c as u32;
    char_is_scalar(c);
    if has_width_1_encoding(v) {
        assert(leading_byte_width_1(v) == v as u8) by (bit_vector)
            requires
                v <= 0x7f,
        ;
    } else {
        assert(leading_byte_width_2(v) >= 0x80 && leading_byte_width_3(v) >= 0x80
            && leading_byte_width_4(v) >= 0x80 && last_continuation_byte(v) >= 0x80
            && second_last_continuation_byte(v) >= 0x80 && third_last_continuation_byte(v) >= 0x80)
            by (bit_vector);
    }
}

} // verus!
