//! Text helpers shared by the parsers: UTF-8 decoding, trimming, case folding and reading
//! unsigned numbers.
use vstd::prelude::*;
use vstd::string::{StrSliceExecFns, StringExecFns};
use vstd::utf8::{decode_utf8, valid_utf8};

verus! {

/// The text of the `Utf8Error` that `std::str::from_utf8` gives for bytes that are not
/// valid UTF-8 (where the first bad sequence starts, and how long it is).
pub uninterp spec fn utf8_error_text(bytes: Seq<u8>) -> Seq<char>;

/// `std::str::from_utf8`: the bytes are accepted exactly when they are valid UTF-8, and the
/// text then holds the characters that the bytes encode. The error's message (its
/// `Display` text) depends on the bytes alone and is named `utf8_error_text`; what it says
/// is not written out.
#[verifier::external_body]
pub fn utf8_to_str<'a>(bytes: &'a [u8]) -> (res: Result<&'a str, String>)
    ensures
        res is Ok <==> valid_utf8(bytes@),
        res matches Ok(s) ==> s@ == decode_utf8(bytes@),
        res matches Err(e) ==> e@ == utf8_error_text(bytes@),
{
    std::str::from_utf8(bytes).map_err(|e| e.to_string())
}

/// Whether a character has the Unicode `White_Space` property: the tab, line feed, line
/// tabulation, form feed and carriage return (U+0009 to U+000D), the space, the next line
/// (U+0085), the no-break space (U+00A0), the Ogham space mark (U+1680), the spaces U+2000
/// to U+200A, the line and paragraph separators (U+2028, U+2029), the narrow no-break space
/// (U+202F), the medium mathematical space (U+205F) and the ideographic space (U+3000).
pub open spec fn white_space(c: char) -> bool {
    let u = c as u32;
    ||| 0x09 <= u <= 0x0d
    ||| u == 0x20
    ||| u == 0x85
    ||| u == 0xa0
    ||| u == 0x1680
    ||| 0x2000 <= u <= 0x200a
    ||| u == 0x2028
    ||| u == 0x2029
    ||| u == 0x202f
    ||| u == 0x205f
    ||| u == 0x3000
}

/// Whether the character has the Unicode `White_Space` property, as `char::is_whitespace`
/// answers: the twenty-five code points that `white_space` lists.
pub fn is_whitespace(c: char) -> (r: bool)
    ensures
        r == white_space(c),
{
    let u = c as u32;
    (0x09 <= u && u <= 0x0d) || u == 0x20 || u == 0x85 || u == 0xa0 || u == 0x1680 || (0x2000
        <= u && u <= 0x200a) || u == 0x2028 || u == 0x2029 || u == 0x202f || u == 0x205f || u
        == 0x3000
}

/// The text without its leading white space.
pub open spec fn trim_start(s: Seq<char>) -> Seq<char>
    decreases s.len(),
{
    if s.len() > 0 && white_space(s[0]) {
        trim_start(s.drop_first())
    } else {
        s
    }
}

/// The text without its trailing white space.
pub open spec fn trim_end(s: Seq<char>) -> Seq<char>
    decreases s.len(),
{
    if s.len() > 0 && white_space(s.last()) {
        trim_end(s.drop_last())
    } else {
        s
    }
}

/// The text without leading and trailing white space, as `str::trim` gives it.
pub open spec fn trim(s: Seq<char>) -> Seq<char> {
    trim_end(trim_start(s))
}

/// The characters of a text.
pub fn chars_of(s: &str) -> (v: Vec<char>)
    ensures
        v@ == s@,
{
    let n = s.unicode_len();
    let mut v: Vec<char> = Vec::new();
    let mut i: usize = 0;
    while i < n
        invariant
            n == s@.len(),
            i <= n,
            v@ == s@.take(i as int),
        decreases n - i,
    {
        v.push(s.get_char(i));
        i = i + 1;
        assert(v@ =~= s@.take(i as int));
    }
    assert(s@.take(n as int) =~= s@);
    v
}

/// The text between two character positions, as a new `String`.
pub fn substring(s: &str, from: usize, to: usize) -> (r: String)
    requires
        from <= to <= s@.len(),
    ensures
        r@ == s@.subrange(from as int, to as int),
{
    String::from_str(s.substring_char(from, to))
}

/// `str::trim`: the text without leading and trailing white space.
pub fn trim_str(s: &str) -> (r: String)
    ensures
        r@ == trim(s@),
{
    let chars = chars_of(s);
    let n = chars.len();
    let mut i: usize = 0;
    assert(s@.skip(0) =~= s@);
    while i < n && is_whitespace(chars[i])
        invariant
            n == s@.len(),
            chars@ == s@,
            i <= n,
            trim_start(s@) == trim_start(s@.skip(i as int)),
        decreases n - i,
    {
        assert(s@.skip(i as int).drop_first() =~= s@.skip(i + 1));
        i = i + 1;
    }
    assert(trim_start(s@) == s@.skip(i as int));
    let mut j: usize = n;
    assert(s@.skip(i as int) =~= s@.subrange(i as int, j as int));
    while j > i && is_whitespace(chars[j - 1])
        invariant
            n == s@.len(),
            chars@ == s@,
            i <= j <= n,
            trim(s@) == trim_end(s@.subrange(i as int, j as int)),
        decreases j - i,
    {
        assert(s@.subrange(i as int, j as int).drop_last() =~= s@.subrange(i as int, j - 1));
        j = j - 1;
    }
    substring(s, i, j)
}

/// A character with ASCII letters `A` to `Z` mapped to `a` to `z`.
pub open spec fn ascii_lower(c: char) -> char {
    if 65 <= (c as u32) <= 90 {
        ((c as u32) + 32) as char
    } else {
        c
    }
}

/// `str::to_ascii_lowercase`: the text with ASCII letters `A` to `Z` mapped to `a` to `z`
/// and every other character kept.
#[verifier::external_body]
pub fn to_ascii_lowercase(s: &str) -> (r: String)
    ensures
        r@ == s@.map_values(|c: char| ascii_lower(c)),
{
    s.to_ascii_lowercase()
}

/// The value of a digit in bases up to 36 (`0`-`9`, then `a`-`z` or `A`-`Z`), or 99 for any
/// other character.
pub open spec fn digit_of(c: char) -> int {
    let v = c as u32 as int;
    if 48 <= v <= 57 {
        v - 48
    } else if 97 <= v <= 122 {
        v - 87
    } else if 65 <= v <= 90 {
        v - 55
    } else {
        99
    }
}

/// Whether every character is a digit of the base.
pub open spec fn all_digits(s: Seq<char>, radix: int) -> bool {
    forall|i: int| 0 <= i < s.len() ==> #[trigger] digit_of(s[i]) < radix
}

/// The number that the digits write in the base, most significant digit first.
pub open spec fn digits_value(s: Seq<char>, radix: int) -> int
    decreases s.len(),
{
    if s.len() == 0 {
        0
    } else {
        digits_value(s.drop_last(), radix) * radix + digit_of(s.last())
    }
}

/// Reading an unsigned number in a base, as `from_str_radix` of an unsigned type whose
/// largest value is `max` does: an optional `+`, then one digit or more, with a value of at
/// most `max`.
pub open spec fn parse_unsigned(s: Seq<char>, radix: int, max: int) -> Option<int> {
    let t = if s.len() > 0 && s[0] == '+' {
        s.drop_first()
    } else {
        s
    };
    if t.len() == 0 || !all_digits(t, radix) || digits_value(t, radix) > max {
        None
    } else {
        Some(digits_value(t, radix))
    }
}

/// The message of the `ParseIntError` met while reading digits from position `i` on, with
/// `v` the value read so far: the first character that is not a digit of the base is an
/// invalid digit, and the first digit that takes the value past `max` makes it too large.
/// Empty when the digits read to the end.
pub open spec fn int_scan_error(t: Seq<char>, radix: int, max: int, i: int, v: int) -> Seq<char>
    decreases t.len() - i,
{
    if i < 0 || i >= t.len() {
        Seq::empty()
    } else if digit_of(t[i]) >= radix {
        "invalid digit found in string"@
    } else if v * radix + digit_of(t[i]) > max {
        "number too large to fit in target type"@
    } else {
        int_scan_error(t, radix, max, i + 1, v * radix + digit_of(t[i]))
    }
}

/// The message of the error that reading an unsigned number in a base (as `from_str_radix`
/// of an unsigned type whose largest value is `max` does) gives: for an empty text, for a
/// lone sign, then as `int_scan_error` reads the digits after an optional `+`.
pub open spec fn int_error(s: Seq<char>, radix: int, max: int) -> Seq<char> {
    if s.len() == 0 {
        "cannot parse integer from empty string"@
    } else if s.len() == 1 && (s[0] == '+' || s[0] == '-') {
        "invalid digit found in string"@
    } else if s[0] == '+' {
        int_scan_error(s, radix, max, 1, 0)
    } else {
        int_scan_error(s, radix, max, 0, 0)
    }
}

/// The message of the error of reading an unsigned number, as `int_error` states.
pub fn int_error_text(s: &[char], radix: u32, max: u64) -> (r: String)
    requires
        2 <= radix <= 36,
    ensures
        r@ == int_error(s@, radix as int, max as int),
{
    let n = s.len();
    if n == 0 {
        return String::from_str("cannot parse integer from empty string");
    }
    if n == 1 && (s[0] == '+' || s[0] == '-') {
        return String::from_str("invalid digit found in string");
    }
    let mut i: usize = if s[0] == '+' {
        1
    } else {
        0
    };
    let mut v: u64 = 0;
    while i < n
        invariant
            n == s@.len(),
            i <= n,
            2 <= radix <= 36,
            v <= max,
            int_error(s@, radix as int, max as int) == int_scan_error(
                s@,
                radix as int,
                max as int,
                i as int,
                v as int,
            ),
        decreases n - i,
    {
        let d = digit_exec(s[i]);
        if d >= radix {
            return String::from_str("invalid digit found in string");
        }
        assert((v as u128) * (radix as u128) <= 36 * 18446744073709551615u128) by (nonlinear_arith)
            requires
                v <= 18446744073709551615u64,
                radix <= 36,
        ;
        let next: u128 = (v as u128) * (radix as u128) + (d as u128);
        if next > max as u128 {
            return String::from_str("number too large to fit in target type");
        }
        v = next as u64;
        i = i + 1;
    }
    String::new()
}

fn digit_exec(c: char) -> (r: u32)
    ensures
        r == digit_of(c),
{
    let v = c as u32;
    if 48 <= v && v <= 57 {
        v - 48
    } else if 97 <= v && v <= 122 {
        v - 87
    } else if 65 <= v && v <= 90 {
        v - 55
    } else {
        99
    }
}

/// Reads an unsigned number in base `radix` of at most `max` from `s`, as `parse_unsigned`
/// states.
pub fn parse_unsigned_exec(s: &[char], radix: u32, max: u64) -> (r: Option<u64>)
    requires
        2 <= radix <= 36,
    ensures
        match parse_unsigned(s@, radix as int, max as int) {
            None => r is None,
            Some(v) => r matches Some(x) && x == v,
        },
{
    let n = s.len();
    let start: usize = if n > 0 && s[0] == '+' {
        1
    } else {
        0
    };
    let ghost t = if s@.len() > 0 && s@[0] == '+' {
        s@.drop_first()
    } else {
        s@
    };
    assert(t =~= s@.skip(start as int));
    if start == n {
        return None;
    }
    let cap: u128 = max as u128 + 1;
    let mut acc: u128 = 0;
    let mut i: usize = start;
    while i < n
        invariant
            start <= i <= n,
            n == s@.len(),
            2 <= radix <= 36,
            cap == max + 1,
            t == s@.skip(start as int),
            t == (if s@.len() > 0 && s@[0] == '+' {
                s@.drop_first()
            } else {
                s@
            }),
            all_digits(s@.subrange(start as int, i as int), radix as int),
            acc == (if digits_value(s@.subrange(start as int, i as int), radix as int) > max {
                cap as int
            } else {
                digits_value(s@.subrange(start as int, i as int), radix as int)
            }),
        decreases n - i,
    {
        let d = digit_exec(s[i]);
        if d >= radix {
            assert(!all_digits(t, radix as int)) by {
                assert(t[i - start] == s@[i as int]);
                assert(digit_of(t[i - start]) >= radix);
            }
            return None;
        }
        let ghost prev = s@.subrange(start as int, i as int);
        let ghost next = s@.subrange(start as int, i + 1);
        assert(next.drop_last() =~= prev);
        let ghost pv = digits_value(prev, radix as int);
        assert(pv >= 0) by {
            lemma_digits_value_nonneg(prev, radix as int);
        }
        assert(pv * radix >= pv) by (nonlinear_arith)
            requires
                pv >= 0,
                radix >= 2,
        ;
        if acc == cap {
            assert(digits_value(next, radix as int) > max);
        } else {
            assert(acc * (radix as u128) + (d as u128) <= (max as int + 1) * 36 + 36) by (
            nonlinear_arith)
                requires
                    acc <= max,
                    radix <= 36,
                    d < radix,
            ;
            assert((max as int + 1) * 36 + 36 <= 0xffff_ffff_ffff_ffff_ffff_ffff_ffff_ffff) by (
            nonlinear_arith)
                requires
                    max <= 0xffff_ffff_ffff_ffff,
            ;
            let v = acc * (radix as u128) + (d as u128);
            acc = if v > max as u128 {
                cap
            } else {
                v
            };
        }
        i = i + 1;
        assert(all_digits(s@.subrange(start as int, i as int), radix as int)) by {
            assert forall|k: int| 0 <= k < next.len() implies #[trigger] digit_of(next[k])
                < radix by {
                if k < next.len() - 1 {
                    assert(next[k] == prev[k]);
                }
            }
        }
    }
    assert(s@.subrange(start as int, n as int) =~= t);
    if acc == cap {
        None
    } else {
        Some(acc as u64)
    }
}

/// The value of digits is not negative.
pub proof fn lemma_digits_value_nonneg(s: Seq<char>, radix: int)
    requires
        radix >= 2,
        all_digits(s, radix),
    ensures
        digits_value(s, radix) >= 0,
    decreases s.len(),
{
    if s.len() > 0 {
        assert(all_digits(s.drop_last(), radix)) by {
            assert forall|k: int| 0 <= k < s.drop_last().len() implies #[trigger] digit_of(
                s.drop_last()[k],
            ) < radix by {
                assert(s.drop_last()[k] == s[k]);
            }
        }
        lemma_digits_value_nonneg(s.drop_last(), radix);
        let p = digits_value(s.drop_last(), radix);
        assert(p * radix >= 0) by (nonlinear_arith)
            requires
                p >= 0,
                radix >= 2,
        ;
        assert(digit_of(s[s.len() - 1]) >= 0);
    }
}

/// The character of a digit below 16: `0`-`9`, then `a`-`f`.
pub open spec fn digit_char(d: int) -> char {
    if d < 10 {
        (48 + d) as char
    } else {
        (87 + d) as char
    }
}

/// The digits of `n` in a base from 2 to 16, most significant first, without leading zeros.
pub open spec fn radix_digits(n: nat, radix: nat) -> Seq<char>
    decreases n,
{
    if radix < 2 || n < radix {
        seq![digit_char(n as int)]
    } else {
        proof {
            assert(n / radix < n) by (nonlinear_arith)
                requires
                    radix >= 2,
                    n >= radix,
            ;
        }
        radix_digits(n / radix, radix).push(digit_char((n % radix) as int))
    }
}

/// The characters of digits, least significant first in `ds`, in writing order.
pub open spec fn digits_text(ds: Seq<u64>) -> Seq<char> {
    ds.reverse().map_values(|d: u64| digit_char(d as int))
}

fn digit_str(d: u64) -> (r: &'static str)
    requires
        d < 16,
    ensures
        r@ == seq![digit_char(d as int)],
{
    proof {
        reveal_strlit("0");
        reveal_strlit("1");
        reveal_strlit("2");
        reveal_strlit("3");
        reveal_strlit("4");
        reveal_strlit("5");
        reveal_strlit("6");
        reveal_strlit("7");
        reveal_strlit("8");
        reveal_strlit("9");
        reveal_strlit("a");
        reveal_strlit("b");
        reveal_strlit("c");
        reveal_strlit("d");
        reveal_strlit("e");
        reveal_strlit("f");
    }
    match d {
        0 => "0",
        1 => "1",
        2 => "2",
        3 => "3",
        4 => "4",
        5 => "5",
        6 => "6",
        7 => "7",
        8 => "8",
        9 => "9",
        10 => "a",
        11 => "b",
        12 => "c",
        13 => "d",
        14 => "e",
        15 => "f",
        _ => "f",
    }
}

/// Writes `n` in a base from 2 to 16, lower-case, without leading zeros.
#[verifier::spinoff_prover]
pub fn format_radix(n: u64, radix: u64) -> (r: String)
    requires
        2 <= radix <= 16,
    ensures
        r@ == radix_digits(n as nat, radix as nat),
{
    let mut digits: Vec<u64> = Vec::new();
    let mut m = n;
    while m >= radix
        invariant
            2 <= radix <= 16,
            radix_digits(n as nat, radix as nat) == radix_digits(m as nat, radix as nat) + digits_text(
                digits@,
            ),
            forall|k: int| 0 <= k < digits@.len() ==> #[trigger] digits@[k] < radix,
        decreases m,
    {
        let d = m % radix;
        let ghost before = digits@;
        proof {
            assert(radix_digits(m as nat, radix as nat) == radix_digits((m / radix) as nat, radix as nat).push(
                digit_char(d as int),
            ));
        }
        digits.push(d);
        m = m / radix;
        proof {
            assert(digits@.reverse() =~= seq![d] + before.reverse());
            assert(digits_text(digits@) =~= seq![digit_char(d as int)] + digits_text(before));
        }
        assert(radix_digits(n as nat, radix as nat) =~= radix_digits(m as nat, radix as nat) + digits_text(
            digits@,
        ));
    }
    let mut r = String::from_str(digit_str(m));
    let mut i = digits.len();
    assert(digits@.subrange(0, i as int) =~= digits@);
    while i > 0
        invariant
            2 <= radix <= 16,
            i <= digits@.len(),
            forall|k: int| 0 <= k < digits@.len() ==> #[trigger] digits@[k] < radix,
            r@ + digits_text(digits@.subrange(0, i as int)) == radix_digits(n as nat, radix as nat),
        decreases i,
    {
        i = i - 1;
        let ghost before = r@;
        let ghost prefix = digits@.subrange(0, i + 1);
        r.append(digit_str(digits[i]));
        proof {
            assert(prefix.reverse() =~= seq![digits@[i as int]] + digits@.subrange(0, i as int).reverse());
            assert(digits_text(prefix) =~= seq![digit_char(digits@[i as int] as int)] + digits_text(
                digits@.subrange(0, i as int),
            ));
        }
        assert(r@ + digits_text(digits@.subrange(0, i as int)) =~= before + digits_text(prefix));
    }
    assert(digits_text(digits@.subrange(0, 0)) =~= Seq::<char>::empty());
    assert(r@ =~= radix_digits(n as nat, radix as nat));
    r
}

/// The first position at or after `from` that holds `c`, or -1.
pub open spec fn index_from(s: Seq<char>, c: char, from: int) -> int
    decreases s.len() - from,
{
    if from < 0 || from >= s.len() {
        -1
    } else if s[from] == c {
        from
    } else {
        index_from(s, c, from + 1)
    }
}

pub proof fn lemma_index_from(s: Seq<char>, c: char, from: int)
    requires
        0 <= from,
    ensures
        index_from(s, c, from) == -1 || (from <= index_from(s, c, from) < s.len() && s[index_from(
            s,
            c,
            from,
        )] == c),
    decreases s.len() - from,
{
    if from < s.len() && s[from] != c {
        lemma_index_from(s, c, from + 1);
    }
}

/// The first position at or after `from` that holds `c`.
pub fn index_from_exec(s: &Vec<char>, c: char, from: usize) -> (r: Option<usize>)
    ensures
        match r {
            None => index_from(s@, c, from as int) < 0,
            Some(i) => i == index_from(s@, c, from as int),
        },
{
    let n = s.len();
    let mut i = from;
    while i < n
        invariant
            n == s@.len(),
            from <= i,
            index_from(s@, c, from as int) == index_from(s@, c, i as int),
        decreases n - i,
    {
        if s[i] == c {
            return Some(i);
        }
        i = i + 1;
    }
    None
}

} // verus!
