//! Percent-escapes and form queries: what they stand for.
use crate::text::{lemma_first_position, split_around};
use vstd::prelude::*;
use vstd::utf8::{
    char_u32_cast, decode_utf8, encode_scalar, encode_utf8, encode_utf8_decode_utf8,
    encode_utf8_valid_utf8, has_width_1_encoding, is_ascii_chars_encode_utf8,
    last_continuation_byte, leading_byte_width_1, leading_byte_width_2, leading_byte_width_3,
    leading_byte_width_4, second_last_continuation_byte, third_last_continuation_byte, valid_utf8,
};

verus! {

/// The value of a hexadecimal digit.
pub open spec fn hex_value(c: char) -> Option<int> {
    if '0' <= c <= '9' {
        Some(c as int - '0' as int)
    } else if 'A' <= c <= 'F' {
        Some(c as int - 'A' as int + 10)
    } else if 'a' <= c <= 'f' {
        Some(c as int - 'a' as int + 10)
    } else {
        None
    }
}

/// Whether `bytes` begins with a percent sign and two hexadecimal digits.
pub open spec fn begins_with_escape(bytes: Seq<u8>) -> bool {
    &&& bytes.len() >= 3
    &&& bytes[0] == '%' as u8
    &&& hex_value(bytes[1] as char) is Some
    &&& hex_value(bytes[2] as char) is Some
}

/// `bytes` with the byte that it stands for in place of each percent-escape.
pub open spec fn unescaped(bytes: Seq<u8>) -> Seq<u8>
    decreases bytes.len(),
{
    if bytes.len() == 0 {
        bytes
    } else if begins_with_escape(bytes) {
        let high = hex_value(bytes[1] as char)->0;
        let low = hex_value(bytes[2] as char)->0;
        seq![(high * 16 + low) as u8] + unescaped(bytes.skip(3))
    } else {
        seq![bytes[0]] + unescaped(bytes.drop_first())
    }
}

/// The text that `data` encodes with percent-escapes, if it is UTF-8.
pub open spec fn percent_decoded(data: Seq<char>) -> Option<Seq<char>> {
    let bytes = unescaped(encode_utf8(data));
    if valid_utf8(bytes) {
        Some(decode_utf8(bytes))
    } else {
        None
    }
}

/// What `String::from_utf8_lossy` makes of bytes that are not UTF-8.
pub uninterp spec fn with_replacements(bytes: Seq<u8>) -> Seq<char>;

/// The text that `bytes` encodes, with replacement characters for what is not UTF-8.
pub open spec fn lossy_text(bytes: Seq<u8>) -> Seq<char> {
    if valid_utf8(bytes) {
        decode_utf8(bytes)
    } else {
        with_replacements(bytes)
    }
}

/// `s` with a space for each plus sign.
pub open spec fn with_spaces(s: Seq<char>) -> Seq<char> {
    s.map_values(
        |c: char|
            if c == '+' {
                ' '
            } else {
                c
            },
    )
}

/// What a name or a value of a form query stands for.
pub open spec fn form_text(s: Seq<char>) -> Seq<char> {
    lossy_text(unescaped(encode_utf8(with_spaces(s))))
}

/// The name and the value of one part of a form query.
pub open spec fn form_pair(part: Seq<char>) -> (Seq<char>, Seq<char>) {
    match split_around(part, '=') {
        Some((name, value)) => (form_text(name), form_text(value)),
        None => (form_text(part), Seq::empty()),
    }
}

/// The names and values of a form query: those of its parts, between the
/// ampersands, that are not empty.
pub open spec fn form_pairs(query: Seq<char>) -> Seq<(Seq<char>, Seq<char>)>
    decreases query.len(),
{
    if query.len() == 0 {
        Seq::empty()
    } else {
        let (part, rest) = match split_around(query, '&') {
            Some(parts) => parts,
            None => (query, Seq::empty()),
        };
        if part.len() == 0 {
            form_pairs(rest)
        } else {
            seq![form_pair(part)] + form_pairs(rest)
        }
    }
}

proof fn lemma_unescaped_plain(bytes: Seq<u8>)
    requires
        forall|i: int| 0 <= i < bytes.len() ==> bytes[i] != '%' as u8,
    ensures
        unescaped(bytes) == bytes,
    decreases bytes.len(),
{
    if bytes.len() > 0 {
        lemma_unescaped_plain(bytes.drop_first());
        assert(seq![bytes[0]] + bytes.drop_first() =~= bytes);
    }
}

proof fn lemma_scalar_bytes(scalar: u32)
    by (bit_vector)
    ensures
        has_width_1_encoding(scalar) ==> leading_byte_width_1(scalar) == scalar,
        leading_byte_width_2(scalar) >= 0x80,
        leading_byte_width_3(scalar) >= 0x80,
        leading_byte_width_4(scalar) >= 0x80,
        last_continuation_byte(scalar) >= 0x80,
        second_last_continuation_byte(scalar) >= 0x80,
        third_last_continuation_byte(scalar) >= 0x80,
{
}

proof fn lemma_encoded_without_percent(s: Seq<char>)
    requires
        !s.contains('%'),
    ensures
        forall|i: int| 0 <= i < encode_utf8(s).len() ==> encode_utf8(s)[i] != '%' as u8,
    decreases s.len(),
{
    if s.len() > 0 {
        let first = encode_scalar(s[0] as u32);
        let rest = s.drop_first();
        assert(!rest.contains('%')) by {
            if rest.contains('%') {
                let i = choose|i: int| 0 <= i < rest.len() && rest[i] == '%';
                assert(s[i + 1] == '%');
            }
        }
        lemma_encoded_without_percent(rest);
        let scalar = s[0] as u32;
        assert(scalar != 0x25) by {
            char_u32_cast(s[0], scalar);
            assert(s.contains(s[0]));
        }
        lemma_scalar_bytes(scalar);
        assert forall|i: int| 0 <= i < encode_utf8(s).len() implies encode_utf8(s)[i]
            != '%' as u8 by {
            if i < first.len() {
                assert(encode_utf8(s)[i] == first[i]);
                assert(i == 0 || i == 1 || i == 2 || i == 3);
            } else {
                assert(encode_utf8(s)[i] == encode_utf8(rest)[i - first.len()]);
            }
        }
    }
}

/// Text without a percent sign stands for itself; in a form query it must not
/// hold a plus sign either.
pub proof fn law_plain_text_stands_for_itself(s: Seq<char>)
    requires
        !s.contains('%'),
    ensures
        percent_decoded(s) == Some(s),
        !s.contains('+') ==> form_text(s) == s,
{
    lemma_encoded_without_percent(s);
    lemma_unescaped_plain(encode_utf8(s));
    encode_utf8_valid_utf8(s);
    encode_utf8_decode_utf8(s);
    if !s.contains('+') {
        assert(with_spaces(s) =~= s);
    }
}

/// The hexadecimal digit of value `n`.
pub open spec fn hex_digit(n: int) -> char {
    if n < 10 {
        ('0' as int + n) as char
    } else {
        ('A' as int + n - 10) as char
    }
}

/// A percent-escape for each of `bytes`.
pub open spec fn escapes(bytes: Seq<u8>) -> Seq<char>
    decreases bytes.len(),
{
    if bytes.len() == 0 {
        Seq::empty()
    } else {
        seq!['%', hex_digit(bytes[0] as int / 16), hex_digit(bytes[0] as int % 16)] + escapes(
            bytes.drop_first(),
        )
    }
}

/// `s` as percent-escapes alone.
pub open spec fn escaped(s: Seq<char>) -> Seq<char> {
    escapes(encode_utf8(s))
}

/// Whether `c` can stand in an escape.
pub open spec fn is_escape_char(c: char) -> bool {
    c == '%' || '0' <= c <= '9' || 'A' <= c <= 'F'
}

proof fn lemma_escapes_chars(bytes: Seq<u8>)
    ensures
        escapes(bytes).len() == 3 * bytes.len(),
        forall|i: int|
            0 <= i < escapes(bytes).len() ==> is_escape_char(#[trigger] escapes(bytes)[i]),
    decreases bytes.len(),
{
    if bytes.len() > 0 {
        lemma_escapes_chars(bytes.drop_first());
        assert forall|i: int| 0 <= i < escapes(bytes).len() implies is_escape_char(
            #[trigger] escapes(bytes)[i],
        ) by {
            if i >= 3 {
                assert(escapes(bytes)[i] == escapes(bytes.drop_first())[i - 3]);
            }
        }
    }
}

proof fn lemma_unescaped_escapes(bytes: Seq<u8>)
    ensures
        unescaped(encode_utf8(escapes(bytes))) == bytes,
    decreases bytes.len(),
{
    let chars = escapes(bytes);
    lemma_escapes_chars(bytes);
    is_ascii_chars_encode_utf8(chars);
    let encoded = encode_utf8(chars);
    if bytes.len() > 0 {
        let rest = escapes(bytes.drop_first());
        lemma_unescaped_escapes(bytes.drop_first());
        lemma_escapes_chars(bytes.drop_first());
        is_ascii_chars_encode_utf8(rest);
        assert(encoded.skip(3) =~= encode_utf8(rest)) by {
            assert forall|i: int| 0 <= i < rest.len() implies encoded.skip(3)[i] == encode_utf8(
                rest,
            )[i] by {
                assert(chars[i + 3] == rest[i]);
            }
        }
        assert(encoded[0] == chars[0] as u8);
        assert(encoded[1] == chars[1] as u8);
        assert(encoded[2] == chars[2] as u8);
        assert(hex_value(encoded[1] as char) == Some(bytes[0] as int / 16));
        assert(hex_value(encoded[2] as char) == Some(bytes[0] as int % 16));
        assert(begins_with_escape(encoded));
        assert(unescaped(encoded) =~= seq![bytes[0]] + bytes.drop_first());
        assert(seq![bytes[0]] + bytes.drop_first() =~= bytes);
    } else {
        assert(encoded =~= bytes);
    }
}

/// Any text can be written in percent-escapes, and stands for itself then.
pub proof fn law_escaped_text_reads_back(s: Seq<char>)
    ensures
        percent_decoded(escaped(s)) == Some(s),
        form_text(escaped(s)) == s,
        forall|c: char| !is_escape_char(c) ==> !#[trigger] escaped(s).contains(c),
{
    let bytes = encode_utf8(s);
    lemma_escapes_chars(bytes);
    lemma_unescaped_escapes(bytes);
    encode_utf8_valid_utf8(s);
    encode_utf8_decode_utf8(s);
    assert(with_spaces(escaped(s)) =~= escaped(s));
}

/// A query of one part gives the name and the value that the part's two sides stand for.
pub proof fn law_single_pair(name: Seq<char>, value: Seq<char>)
    requires
        !name.contains('&') && !name.contains('='),
        !value.contains('&'),
    ensures
        form_pairs(name.push('=') + value) == seq![(form_text(name), form_text(value))],
{
    let query = name.push('=') + value;
    assert(query[name.len() as int] == '=');
    assert forall|j: int| 0 <= j < query.len() implies query[j] != '&' by {
        if j < name.len() {
            assert(name.contains(name[j]));
        } else if j > name.len() {
            assert(value.contains(value[j - name.len() - 1]));
        }
    }
    lemma_first_position(query, '&', query.len() as int);
    assert forall|j: int| 0 <= j < name.len() implies query[j] != '=' by {
        assert(name.contains(name[j]));
    }
    lemma_first_position(query, '=', name.len() as int);
    assert(query.take(name.len() as int) =~= name);
    assert(query.skip(name.len() as int + 1) =~= value);
    reveal_with_fuel(form_pairs, 2);
    assert(form_pairs(query) =~= seq![(form_text(name), form_text(value))]);
}

} // verus!
