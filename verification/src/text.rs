//! Small building blocks for the texts that the crate puts together.

use vstd::prelude::*;
use vstd::utf8::*;

verus! {

/// `String::push` appends the given character to the string.
pub assume_specification[ String::push ](string: &mut String, c: char)
    ensures
        final(string)@ == old(string)@.push(c),
;

/// The character of a decimal digit.
pub open spec fn digit(d: nat) -> char {
    (48 + d) as char
}

/// The decimal notation of `n`, without leading zeros.
pub open spec fn decimal_text(n: nat) -> Seq<char>
    decreases n,
{
    if n < 10 {
        seq![digit(n)]
    } else {
        decimal_text(n / 10).push(digit(n % 10))
    }
}

/// Returns `n` in decimal notation.
pub fn decimal(n: u128) -> (text: String)
    ensures
        text@ == decimal_text(n as nat),
    decreases n,
{
    let mut text: String = if n < 10 {
        String::new()
    } else {
        decimal(n / 10)
    };
    text.push((48 + (n % 10) as u8) as char);
    text
}

/// The decimal notation of `n`, with a minus sign if it is negative.
pub open spec fn signed_decimal_text(n: int) -> Seq<char> {
    if n < 0 {
        "-"@ + decimal_text((-n) as nat)
    } else {
        decimal_text(n as nat)
    }
}

/// Returns `n` in decimal notation, with a minus sign if it is negative.
pub fn signed_decimal(n: i32) -> (text: String)
    ensures
        text@ == signed_decimal_text(n as int),
{
    if n < 0 {
        concat2("-", decimal((-(n as i64)) as u128).as_str())
    } else {
        decimal(n as u128)
    }
}

/// Returns the concatenation of two texts.
pub fn concat2(a: &str, b: &str) -> (text: String)
    ensures
        text@ == a@ + b@,
{
    let mut text: String = a.to_owned();
    text.append(b);
    text
}

/// Returns the concatenation of three texts.
pub fn concat3(a: &str, b: &str, c: &str) -> (text: String)
    ensures
        text@ == a@ + b@ + c@,
{
    let mut text: String = concat2(a, b);
    text.append(c);
    text
}

/// Whether a character is white space.
pub open spec fn is_white_space(c: char) -> bool {
    let code = c as u32;
    ||| 0x9 <= code <= 0xd
    ||| code == 0x20
    ||| code == 0x85
    ||| code == 0xa0
    ||| code == 0x1680
    ||| 0x2000 <= code <= 0x200a
    ||| code == 0x2028
    ||| code == 0x2029
    ||| code == 0x202f
    ||| code == 0x205f
    ||| code == 0x3000
}

/// The text without the white space that it starts with.
pub open spec fn trimmed_start(s: Seq<char>) -> Seq<char>
    decreases s.len(),
{
    if s.len() > 0 && is_white_space(s[0]) {
        trimmed_start(s.drop_first())
    } else {
        s
    }
}

/// The text without the white space that it ends with.
pub open spec fn trimmed_end(s: Seq<char>) -> Seq<char>
    decreases s.len(),
{
    if s.len() > 0 && is_white_space(s.last()) {
        trimmed_end(s.drop_last())
    } else {
        s
    }
}

/// The text without the white space that it starts and ends with.
pub open spec fn trimmed(s: Seq<char>) -> Seq<char> {
    trimmed_end(trimmed_start(s))
}

/// Returns whether a character is white space.
fn white_space(c: char) -> (res: bool)
    ensures
        res == is_white_space(c),
{
    let code: u32 = c as u32;
    0x9 <= code && code <= 0xd || code == 0x20 || code == 0x85 || code == 0xa0 || code == 0x1680
        || 0x2000 <= code && code <= 0x200a || code == 0x2028 || code == 0x2029 || code == 0x202f
        || code == 0x205f || code == 0x3000
}

/// Returns the text without the white space that it starts and ends with.
pub fn trim(s: &str) -> (text: String)
    ensures
        text@ == trimmed(s@),
{
    let len: usize = s.unicode_len();
    let mut start: usize = 0;
    assert(s@.subrange(0, len as int) =~= s@);
    while start < len && white_space(s.get_char(start))
        invariant
            start <= len == s@.len(),
            trimmed_start(s@.subrange(start as int, len as int)) == trimmed_start(s@),
        ensures
            start <= len,
            s@.subrange(start as int, len as int) == trimmed_start(s@),
        decreases len - start,
    {
        assert(s@.subrange(start as int, len as int).drop_first() =~= s@.subrange(
            start + 1,
            len as int,
        ));
        start = start + 1;
    }
    let mut end: usize = len;
    while start < end && white_space(s.get_char(end - 1))
        invariant
            start <= end <= len == s@.len(),
            trimmed_end(s@.subrange(start as int, end as int)) == trimmed(s@),
        ensures
            start <= end <= len,
            s@.subrange(start as int, end as int) == trimmed(s@),
        decreases end,
    {
        assert(s@.subrange(start as int, end as int).drop_last() =~= s@.subrange(
            start as int,
            end - 1,
        ));
        end = end - 1;
    }
    s.substring_char(start, end).to_owned()
}

/// The character, in lower case if it is an ASCII letter.
pub open spec fn ascii_lowercase(c: char) -> char {
    if 'A' <= c <= 'Z' {
        (c as u8 + 32) as char
    } else {
        c
    }
}

/// The text with its ASCII letters in lower case.
pub open spec fn ascii_lowercase_text(s: Seq<char>) -> Seq<char> {
    s.map_values(|c: char| ascii_lowercase(c))
}

/// Returns the text with its ASCII letters in lower case.
pub fn to_ascii_lowercase(s: &str) -> (text: String)
    ensures
        text@ == ascii_lowercase_text(s@),
{
    let len: usize = s.unicode_len();
    let mut text: String = String::new();
    for i in 0..len
        invariant
            len == s@.len(),
            text@ == ascii_lowercase_text(s@.take(i as int)),
    {
        let c: char = s.get_char(i);
        text.push(
            if 'A' <= c && c <= 'Z' {
                (c as u8 + 32) as char
            } else {
                c
            },
        );
        assert(ascii_lowercase_text(s@.take(i + 1)) =~= ascii_lowercase_text(
            s@.take(i as int),
        ).push(ascii_lowercase(s@[i as int])));
    }
    assert(s@.take(len as int) =~= s@);
    text
}

/// `std::str::from_utf8` accepts exactly the byte strings that are valid UTF-8,
/// and hands back the text that they encode. On other byte strings the text of
/// its error is a function of the bytes, which [`utf8_error_text`] names.
#[verifier::external_body]
pub(crate) fn from_utf8(bytes: &[u8]) -> (text: Result<String, String>)
    ensures
        match text {
            Ok(text) => valid_utf8(bytes@) && text@ == decode_utf8(bytes@),
            Err(message) => !valid_utf8(bytes@) && message@ == utf8_error_text(bytes@),
        },
{
    match std::str::from_utf8(bytes) {
        Ok(text) => Ok(text.to_owned()),
        Err(error) => Err(error.to_string()),
    }
}

/// The text of the error with which `std::str::from_utf8` turns down a byte
/// string.
pub uninterp spec fn utf8_error_text(bytes: Seq<u8>) -> Seq<char>;

/// The text that `String::from_utf8_lossy` makes of a byte string that is not
/// valid UTF-8.
pub uninterp spec fn utf8_lossy_text(bytes: Seq<u8>) -> Seq<char>;

/// `String::from_utf8_lossy` hands back the text that a byte string encodes if
/// it is valid UTF-8. Otherwise it puts replacement characters in the place of
/// the bytes that are not. The text that this gives is a function of the bytes,
/// which [`utf8_lossy_text`] names.
#[verifier::external_body]
pub(crate) fn from_utf8_lossy(bytes: &[u8]) -> (text: String)
    ensures
        text@ == if valid_utf8(bytes@) {
            decode_utf8(bytes@)
        } else {
            utf8_lossy_text(bytes@)
        },
{
    String::from_utf8_lossy(bytes).into_owned()
}

/// The text of a byte string, in which replacement characters stand in the
/// place of what is not valid UTF-8.
pub open spec fn lossy(bytes: Seq<u8>) -> Seq<char> {
    if valid_utf8(bytes) {
        decode_utf8(bytes)
    } else {
        utf8_lossy_text(bytes)
    }
}

/// The encoding of a concatenation is the concatenation of the encodings.
pub proof fn lemma_encode_concat(a: Seq<char>, b: Seq<char>)
    ensures
        encode_utf8(a + b) == encode_utf8(a) + encode_utf8(b),
    decreases a.len(),
{
    if a.len() == 0 {
        assert(a + b =~= b);
        assert(encode_utf8(a) + encode_utf8(b) =~= encode_utf8(b));
    } else {
        lemma_encode_concat(a.drop_first(), b);
        assert((a + b).drop_first() =~= a.drop_first() + b);
        assert((a + b)[0] == a[0]);
        assert(encode_utf8(a + b) =~= encode_utf8(a) + encode_utf8(b));
    }
}

/// Two texts with the same encoding are the same text.
pub proof fn lemma_encode_injective(a: Seq<char>, b: Seq<char>)
    requires
        encode_utf8(a) == encode_utf8(b),
    ensures
        a == b,
{
    encode_utf8_decode_utf8(a);
    encode_utf8_decode_utf8(b);
}

/// The encoding of a character is one byte, the character itself, if the
/// character is ASCII, and otherwise holds no ASCII byte.
proof fn lemma_encode_scalar_ascii(c: char)
    ensures
        (c as u32) < 0x80 ==> encode_scalar(c as u32) == seq![c as u8] && (c as u8) as char == c,
        (c as u32) >= 0x80 ==> forall|i: int|
            0 <= i < encode_scalar(c as u32).len() ==> #[trigger] encode_scalar(c as u32)[i]
                >= 0x80,
{
    let s = c as u32;
    char_is_scalar(c);
    if has_width_1_encoding(s) {
        assert((s & 0x7F) as u8 == s as u8) by (bit_vector)
            requires
                s <= 0x7F,
        ;
        assert(c as u8 == s as u8);
    } else {
        assert((0xC0 | ((s >> 6) & 0x1F) as u8) >= 0x80u8) by (bit_vector);
        assert((0xE0 | ((s >> 12) & 0x0F) as u8) >= 0x80u8) by (bit_vector);
        assert((0xF0 | ((s >> 18) & 0x7) as u8) >= 0x80u8) by (bit_vector);
        assert((0x80 | (s & 0x3F) as u8) >= 0x80u8) by (bit_vector);
        assert((0x80 | ((s >> 6) & 0x3F) as u8) >= 0x80u8) by (bit_vector);
        assert((0x80 | ((s >> 12) & 0x3F) as u8) >= 0x80u8) by (bit_vector);
    }
}

/// An ASCII byte occurs in the encoding of a text exactly if the character
/// occurs in the text.
pub proof fn lemma_encode_ascii(chars: Seq<char>, b: u8)
    requires
        b < 0x80,
    ensures
        encode_utf8(chars).contains(b) <==> chars.contains(b as char),
    decreases chars.len(),
{
    if chars.len() > 0 {
        let head = encode_scalar(chars[0] as u32);
        let rest = chars.drop_first();
        lemma_encode_ascii(rest, b);
        lemma_encode_scalar_ascii(chars[0]);
        let bytes = encode_utf8(chars);
        assert(bytes == head + encode_utf8(rest));
        if chars.contains(b as char) {
            let i = choose|i: int| 0 <= i < chars.len() && chars[i] == b as char;
            if i == 0 {
                assert(head[0] == b);
                assert(bytes[0] == b);
            } else {
                assert(rest[i - 1] == b as char);
                let k = choose|k: int|
                    0 <= k < encode_utf8(rest).len() && encode_utf8(rest)[k] == b;
                assert(bytes[head.len() + k] == b);
            }
        }
        if bytes.contains(b) {
            let k = choose|k: int| 0 <= k < bytes.len() && bytes[k] == b;
            if k < head.len() {
                assert(head[k] == b);
                assert(chars[0] as u8 == b);
                assert(chars[0] == b as char);
            } else {
                assert(encode_utf8(rest)[k - head.len()] == b);
                let i = choose|i: int| 0 <= i < rest.len() && rest[i] == b as char;
                assert(chars[i + 1] == b as char);
            }
        }
    }
}

/// The number that a text is read as, digit by digit.
pub open spec fn decimal_value(s: Seq<char>) -> nat
    decreases s.len(),
{
    if s.len() == 0 {
        0
    } else {
        (10 * decimal_value(s.drop_last()) + (s.last() as u32 - 48)) as nat
    }
}

/// The decimal notation of a number holds digits only, is read as that number,
/// and has no zero before it. That of a negative number has a minus sign before
/// the notation of its absolute value.
pub proof fn law_decimal_notation_is_read_back(n: nat)
    ensures
        decimal_value(decimal_text(n)) == n,
        decimal_text(n).len() > 0,
        forall|i: int|
            0 <= i < decimal_text(n).len() ==> '0' <= #[trigger] decimal_text(n)[i] <= '9',
        n > 0 ==> decimal_text(n)[0] != '0',
        n == 0 ==> decimal_text(n).len() == 1,
        signed_decimal_text(n as int) == decimal_text(n),
        n > 0 ==> signed_decimal_text(-n) == seq!['-'] + decimal_text(n),
    decreases n,
{
    let digits = decimal_text(n);
    reveal_strlit("-");
    assert("-"@ =~= seq!['-']);
    if n < 10 {
        assert(digits.drop_last() =~= seq![]);
        reveal_with_fuel(decimal_value, 2);
        assert(digits[0] as u32 == 48 + n);
    } else {
        law_decimal_notation_is_read_back(n / 10);
        let front = decimal_text(n / 10);
        assert(digits.drop_last() =~= front);
        assert(digits.last() as u32 == 48 + n % 10);
        assert(digits[0] == front[0]);
        assert forall|i: int| 0 <= i < digits.len() implies '0' <= #[trigger] digits[i] <= '9' by {
            if i < front.len() {
                assert(digits[i] == front[i]);
            }
        }
    }
}

/// A text is its trimmed form with white space before and after it, and the
/// trimmed form neither starts nor ends with white space.
pub proof fn law_trimming_takes_off_white_space(s: Seq<char>)
    ensures
        exists|before: Seq<char>, after: Seq<char>|
            s == #[trigger] (before + trimmed(s) + after) && (forall|i: int|
                0 <= i < before.len() ==> is_white_space(#[trigger] before[i])) && (forall|i: int|
                0 <= i < after.len() ==> is_white_space(#[trigger] after[i])),
        trimmed(s).len() > 0 ==> !is_white_space(trimmed(s)[0]) && !is_white_space(
            trimmed(s).last(),
        ),
{
    let middle = trimmed_start(s);
    lemma_trimmed_start(s);
    lemma_trimmed_end(middle);
    let inner = trimmed_end(middle);
    let before = s.take(s.len() - middle.len());
    let after = middle.skip(inner.len() as int);
    assert(s =~= before + trimmed(s) + after);
    assert forall|i: int| 0 <= i < before.len() implies is_white_space(#[trigger] before[i]) by {
        assert(before[i] == s[i]);
    }
    assert forall|i: int| 0 <= i < after.len() implies is_white_space(#[trigger] after[i]) by {
        assert(after[i] == middle[inner.len() + i]);
    }
    if inner.len() > 0 {
        assert(inner[0] == middle[0]);
    }
}

proof fn lemma_trimmed_start(s: Seq<char>)
    ensures
        trimmed_start(s).len() <= s.len(),
        trimmed_start(s) == s.skip(s.len() - trimmed_start(s).len()),
        forall|i: int|
            0 <= i < s.len() - trimmed_start(s).len() ==> is_white_space(#[trigger] s[i]),
        trimmed_start(s).len() > 0 ==> !is_white_space(trimmed_start(s)[0]),
    decreases s.len(),
{
    if s.len() > 0 && is_white_space(s[0]) {
        let rest = s.drop_first();
        lemma_trimmed_start(rest);
        assert(trimmed_start(s) =~= s.skip(s.len() - trimmed_start(s).len()));
        assert forall|i: int| 0 <= i < s.len() - trimmed_start(s).len() implies is_white_space(
            #[trigger] s[i],
        ) by {
            if i > 0 {
                assert(s[i] == rest[i - 1]);
            }
        }
    } else {
        assert(s.skip(0) =~= s);
    }
}

proof fn lemma_trimmed_end(s: Seq<char>)
    ensures
        trimmed_end(s).len() <= s.len(),
        trimmed_end(s) == s.take(trimmed_end(s).len() as int),
        forall|i: int| trimmed_end(s).len() <= i < s.len() ==> is_white_space(#[trigger] s[i]),
        trimmed_end(s).len() > 0 ==> !is_white_space(trimmed_end(s).last()),
    decreases s.len(),
{
    if s.len() > 0 && is_white_space(s.last()) {
        let rest = s.drop_last();
        lemma_trimmed_end(rest);
        assert(trimmed_end(s) =~= s.take(trimmed_end(s).len() as int));
        assert forall|i: int| trimmed_end(s).len() <= i < s.len() implies is_white_space(
            #[trigger] s[i],
        ) by {
            if i < rest.len() {
                assert(s[i] == rest[i]);
            }
        }
    } else {
        assert(s.take(s.len() as int) =~= s);
    }
}

/// A text with white space before and after it is trimmed to the text, if that
/// neither starts nor ends with white space.
pub proof fn law_trimming_leaves_the_text(before: Seq<char>, s: Seq<char>, after: Seq<char>)
    requires
        forall|i: int| 0 <= i < before.len() ==> is_white_space(#[trigger] before[i]),
        forall|i: int| 0 <= i < after.len() ==> is_white_space(#[trigger] after[i]),
        s.len() > 0 ==> !is_white_space(s[0]) && !is_white_space(s.last()),
    ensures
        trimmed(before + s + after) == s,
    decreases before.len() + after.len(),
{
    let all = before + s + after;
    if before.len() > 0 {
        assert(all[0] == before[0]);
        let rest = before.drop_first();
        assert forall|i: int| 0 <= i < rest.len() implies is_white_space(#[trigger] rest[i]) by {
            assert(rest[i] == before[i + 1]);
        }
        assert(all.drop_first() =~= rest + s + after);
        law_trimming_leaves_the_text(rest, s, after);
    } else if s.len() > 0 {
        assert(all =~= s + after);
        assert(all[0] == s[0]);
        assert(trimmed_start(all) == all);
        if after.len() > 0 {
            assert(all.last() == after.last());
            assert(is_white_space(after[after.len() - 1]));
            let rest = after.drop_last();
            assert forall|i: int| 0 <= i < rest.len() implies is_white_space(
                #[trigger] rest[i],
            ) by {
                assert(rest[i] == after[i]);
            }
            assert(all.drop_last() =~= before + s + rest);
            assert((before + s + rest)[0] == s[0]);
            law_trimming_leaves_the_text(before, s, rest);
        } else {
            assert(all =~= s);
        }
    } else {
        assert(all =~= after);
        lemma_trimmed_start(all);
        let middle = trimmed_start(all);
        if middle.len() > 0 {
            assert(middle[0] == all[all.len() - middle.len()]);
        }
        assert(middle =~= seq![]);
        assert(trimmed(all) =~= s);
    }
}

/// The white space that has a single byte in UTF-8 is the space, and the five
/// control characters from the tab to the carriage return. Besides there are a
/// next-line character, and spaces and separators of other widths.
pub proof fn law_white_space(c: char)
    ensures
        (c as u32) < 0x80 ==> (is_white_space(c) <==> c == ' ' || c == '\t' || c == '\n' || c
            == '\r' || c as u32 == 0xb || c as u32 == 0xc),
        (c as u32) >= 0x80 ==> (is_white_space(c) <==> seq![
            '\u{85}',
            '\u{a0}',
            '\u{1680}',
            '\u{2000}',
            '\u{2001}',
            '\u{2002}',
            '\u{2003}',
            '\u{2004}',
            '\u{2005}',
            '\u{2006}',
            '\u{2007}',
            '\u{2008}',
            '\u{2009}',
            '\u{200a}',
            '\u{2028}',
            '\u{2029}',
            '\u{202f}',
            '\u{205f}',
            '\u{3000}',
        ].contains(c)),
{
    let wide = seq![
        '\u{85}',
        '\u{a0}',
        '\u{1680}',
        '\u{2000}',
        '\u{2001}',
        '\u{2002}',
        '\u{2003}',
        '\u{2004}',
        '\u{2005}',
        '\u{2006}',
        '\u{2007}',
        '\u{2008}',
        '\u{2009}',
        '\u{200a}',
        '\u{2028}',
        '\u{2029}',
        '\u{202f}',
        '\u{205f}',
        '\u{3000}',
    ];
    let code = c as u32;
    if code >= 0x80 && is_white_space(c) {
        let i = if code == 0x85 {
            0
        } else if code == 0xa0 {
            1
        } else if code == 0x1680 {
            2
        } else if code <= 0x200a {
            code - 0x2000 + 3
        } else if code <= 0x2029 {
            code - 0x2028 + 14
        } else if code == 0x202f {
            16
        } else if code == 0x205f {
            17
        } else {
            18
        };
        assert(wide[i] as u32 == code);
        assert(wide[i] == c);
    }
}

/// In lower case a text has as many characters: each letter from `A` to `Z` becomes
/// the character whose code is greater by 32, and every other one is as it was.
pub proof fn law_lower_case_changes_capitals_only(s: Seq<char>)
    ensures
        ascii_lowercase_text(s).len() == s.len(),
        forall|i: int|
            0 <= i < s.len() ==> {
                let c = #[trigger] ascii_lowercase_text(s)[i];
                if 'A' <= s[i] <= 'Z' {
                    c as u32 == s[i] as u32 + 32
                } else {
                    c == s[i]
                }
            },
{
}

/// A text that is written in UTF-8 is read as it was.
pub proof fn law_valid_text_is_read_as_it_is(s: Seq<char>)
    ensures
        lossy(encode_utf8(s)) == s,
{
    encode_utf8_valid_utf8(s);
    encode_utf8_decode_utf8(s);
}

} // verus!
