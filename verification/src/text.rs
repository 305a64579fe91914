//! Text helpers: comparison, numerals, character classes and truncation.
//!
//! Every function speaks of a string through its sequence of characters
//! (`s@`), or, where a byte budget matters, through its UTF-8 bytes.

use vstd::prelude::*;
use vstd::string::*;
use vstd::utf8::*;

verus! {

/// Whether two strings hold the same characters.
pub fn same_text(a: &str, b: &str) -> (same: bool)
    ensures
        same == (a@ == b@),
{
    proof {
        encode_utf8_decode_utf8(a@);
        encode_utf8_decode_utf8(b@);
    }
    let x: &[u8] = a.as_bytes();
    let y: &[u8] = b.as_bytes();
    if x.len() != y.len() {
        return false;
    }
    let mut i: usize = 0;
    while i < x.len()
        invariant
            x@.len() == y@.len(),
            i <= x@.len(),
            x@ == encode_utf8(a@),
            y@ == encode_utf8(b@),
            forall|k: int| 0 <= k < i ==> x@[k] == y@[k],
        decreases x.len() - i,
    {
        if x[i] != y[i] {
            assert(x@[i as int] != y@[i as int]);
            return false;
        }
        i = i + 1;
    }
    assert(x@ =~= y@);
    true
}

/// The characters of a string, as a vector.
pub fn to_chars(s: &str) -> (chars: Vec<char>)
    ensures
        chars@ == s@,
{
    let mut chars: Vec<char> = Vec::new();
    for c in iter: s.chars()
        invariant
            iter.seq() == s@,
            chars@ == s@.take(iter.index()),
    {
        chars.push(c);
    }
    assert(s@.take(s@.len() as int) =~= s@);
    chars
}

/// The character that stands for a digit below ten.
pub open spec fn digit_char(d: int) -> char {
    ('0' as int + d) as char
}

/// The numeral of `n` in `base`, most significant digit first.
pub open spec fn numeral(n: nat, base: nat) -> Seq<char>
    decreases n,
{
    if base < 2 {
        Seq::empty()
    } else if n < base {
        seq![digit_char(n as int)]
    } else {
        proof {
            lemma_quotient_decreases(n, base);
        }
        numeral(n / base, base).push(digit_char((n % base) as int))
    }
}

/// Dividing by a base makes a number smaller.
pub proof fn lemma_quotient_decreases(n: nat, base: nat)
    requires
        n >= base,
        base >= 2,
    ensures
        n / base < n,
{
    assert(n / base < n) by (nonlinear_arith)
        requires
            n >= base,
            base >= 2,
    ;
}

/// The decimal numeral of `n`.
pub open spec fn decimal(n: nat) -> Seq<char> {
    numeral(n, 10)
}

/// The octal numeral of `n`.
pub open spec fn octal(n: nat) -> Seq<char> {
    numeral(n, 8)
}

fn digit_text(d: u64) -> (text: &'static str)
    requires
        d < 10,
    ensures
        text@ == seq![digit_char(d as int)],
{
    proof {
        reveal_strlit("0");
        reveal_strlit("1");
        reveal_strlit("2");
        reveal_strlit("3");
        reveal_strlit("4");
        reveal_strlit("5");
        reveal_strlit("6");
        reveal_strlit("7");
        reveal_strlit("8");
        reveal_strlit("9");
    }
    match d {
        0 => "0",
        1 => "1",
        2 => "2",
        3 => "3",
        4 => "4",
        5 => "5",
        6 => "6",
        7 => "7",
        8 => "8",
        _ => "9",
    }
}

/// Write `n` as a numeral in a base from two to ten.
pub fn write_numeral(n: u64, base: u64) -> (text: String)
    requires
        2 <= base <= 10,
    ensures
        text@ == numeral(n as nat, base as nat),
    decreases n,
{
    if n < base {
        digit_text(n).to_owned()
    } else {
        proof {
            lemma_quotient_decreases(n as nat, base as nat);
        }
        let mut text: String = write_numeral(n / base, base);
        let last: &str = digit_text(n % base);
        text.append(last);
        assert(text@ =~= numeral((n / base) as nat, base as nat).push(
            digit_char((n % base) as int),
        ));
        text
    }
}

/// Write `n` in decimal.
pub fn write_decimal(n: u64) -> (text: String)
    ensures
        text@ == decimal(n as nat),
{
    write_numeral(n, 10)
}

/// Write `n` in octal.
pub fn write_octal(n: u32) -> (text: String)
    ensures
        text@ == octal(n as nat),
{
    write_numeral(n as u64, 8)
}

/// A string in quotes with its special characters escaped, as the standard
/// library's `Debug` writes it.
pub uninterp spec fn quoted(s: Seq<char>) -> Seq<char>;

/// Formats with `{:?}`, the `Debug` of `str`, and claims that the result is a
/// function of the characters. Which characters it escapes, and how, is for
/// the standard library to say.
#[verifier::external_body]
pub(crate) fn quote(s: &str) -> (text: String)
    ensures
        text@ == quoted(s@),
{
    format!("{:?}", s)
}

/// A control character: U+0000 to U+001F and U+007F to U+009F.
pub open spec fn control_char(c: char) -> bool {
    (c as u32) < 0x20 || 0x7f <= (c as u32) <= 0x9f
}

/// Whether `c` is a control character.
pub fn is_control_char(c: char) -> (yes: bool)
    ensures
        yes == control_char(c),
{
    let v: u32 = c as u32;
    v < 0x20 || (0x7f <= v && v <= 0x9f)
}

/// A white-space character: the code points of Unicode's `White_Space`
/// property.
pub open spec fn whitespace_char(c: char) -> bool {
    let v = c as u32;
    ||| 0x09 <= v <= 0x0d
    ||| v == 0x20
    ||| v == 0x85
    ||| v == 0xa0
    ||| v == 0x1680
    ||| 0x2000 <= v <= 0x200a
    ||| v == 0x2028
    ||| v == 0x2029
    ||| v == 0x202f
    ||| v == 0x205f
    ||| v == 0x3000
}

/// Whether `c` is a white-space character.
pub fn is_whitespace_char(c: char) -> (yes: bool)
    ensures
        yes == whitespace_char(c),
{
    let v: u32 = c as u32;
    (0x09 <= v && v <= 0x0d) || v == 0x20 || v == 0x85 || v == 0xa0 || v == 0x1680 || (0x2000 <= v
        && v <= 0x200a) || v == 0x2028 || v == 0x2029 || v == 0x202f || v == 0x205f || v == 0x3000
}

/// A text with nothing in it but white space.
pub open spec fn blank(s: Seq<char>) -> bool {
    forall|i: int| 0 <= i < s.len() ==> whitespace_char(#[trigger] s[i])
}

/// Whether `s` is empty or holds only white space.
pub fn is_blank(s: &str) -> (yes: bool)
    ensures
        yes == blank(s@),
{
    let chars: Vec<char> = to_chars(s);
    let mut i: usize = 0;
    while i < chars.len()
        invariant
            chars@ == s@,
            i <= chars@.len(),
            forall|k: int| 0 <= k < i ==> whitespace_char(#[trigger] s@[k]),
        decreases chars.len() - i,
    {
        if !is_whitespace_char(chars[i]) {
            assert(!whitespace_char(s@[i as int]));
            return false;
        }
        i = i + 1;
    }
    true
}

/// The longest prefix of a text that takes at most `max` bytes in UTF-8.
pub open spec fn fitting(s: Seq<char>, max: int) -> Seq<char>
    decreases s.len(),
{
    if s.len() == 0 || encode_utf8(s).len() <= max {
        s
    } else {
        fitting(s.drop_last(), max)
    }
}

/// The bytes of a prefix of a text are a prefix of its bytes, and end at a
/// character boundary.
proof fn lemma_prefix_bytes(s: Seq<char>, m: int)
    requires
        0 <= m <= s.len(),
    ensures
        encode_utf8(s.take(m)).len() <= encode_utf8(s).len(),
        encode_utf8(s).subrange(0, encode_utf8(s.take(m)).len() as int) == encode_utf8(s.take(m)),
        is_char_boundary(encode_utf8(s), encode_utf8(s.take(m)).len() as int),
    decreases s.len(),
{
    let bytes = encode_utf8(s);
    encode_utf8_valid_utf8(s);
    if m == 0 {
        assert(s.take(0) =~= Seq::empty());
        assert(bytes.subrange(0, 0) =~= Seq::empty());
    } else {
        let rest = s.drop_first();
        let head = encode_scalar(s[0] as u32);
        lemma_prefix_bytes(rest, m - 1);
        encode_utf8_first_scalar(s);
        assert(s.take(m).drop_first() =~= rest.take(m - 1));
        assert(s.take(m)[0] == s[0]);
        let part = encode_utf8(s.take(m));
        assert(part == head + encode_utf8(rest.take(m - 1)));
        assert(bytes.subrange(0, part.len() as int) =~= part) by {
            let tail = encode_utf8(rest.take(m - 1));
            assert forall|i: int| 0 <= i < part.len() implies bytes[i] == part[i] by {
                if i >= head.len() {
                    assert(tail[i - head.len()] == encode_utf8(rest).subrange(
                        0,
                        tail.len() as int,
                    )[i - head.len()]);
                }
            }
        }
        assert(pop_first_scalar(bytes) =~= encode_utf8(rest));
    }
}

/// A cut at the last character boundary up to `max` leaves the longest prefix
/// that fits.
proof fn lemma_cut_fits(s: Seq<char>, max: int, cut: Seq<char>, end: int)
    requires
        encode_utf8(s).len() > max,
        0 <= end <= max,
        is_char_boundary(encode_utf8(s), end),
        forall|k: int| end < k <= max ==> !#[trigger] is_char_boundary(encode_utf8(s), k),
        encode_utf8(cut) == encode_utf8(s).subrange(0, end),
    ensures
        cut == fitting(s, max),
{
    let bytes = encode_utf8(s);
    let n = cut.len() as int;
    encode_utf8_valid_utf8(s);
    encode_utf8_decode_utf8(s);
    encode_utf8_decode_utf8(cut);
    decode_utf8_split(bytes, end);
    assert(cut =~= s.take(n));
    assert forall|m: int| n < m <= s.len() implies encode_utf8(#[trigger] s.take(m)).len() > max by {
        lemma_prefix_bytes(s, m);
        lemma_prefix_bytes(s.take(m), n);
        assert(s.take(m).take(n) =~= cut);
        if encode_utf8(s.take(m)).len() == end {
            assert(encode_utf8(s.take(m)) =~= encode_utf8(cut));
            encode_utf8_decode_utf8(s.take(m));
        }
        assert(is_char_boundary(bytes, encode_utf8(s.take(m)).len() as int));
    }
    assert(s.take(s.len() as int) =~= s);
    lemma_fitting(s, max, n, s.len() as int);
}

proof fn lemma_fitting(s: Seq<char>, max: int, n: int, m: int)
    requires
        0 <= n <= m <= s.len(),
        encode_utf8(s.take(n)).len() <= max,
        forall|k: int| n < k <= m ==> encode_utf8(#[trigger] s.take(k)).len() > max,
    ensures
        fitting(s.take(m), max) == s.take(n),
    decreases m,
{
    if m > n {
        assert(s.take(m).drop_last() =~= s.take(m - 1));
        lemma_fitting(s, max, n, m - 1);
    }
}

/// The longest prefix of `s` made of whole characters that takes at most
/// `max_bytes` bytes.
pub fn truncate_at_char_boundary(s: &str, max_bytes: usize) -> (cut: &str)
    ensures
        cut@ == fitting(s@, max_bytes as int),
{
    let ghost bytes: Seq<u8> = s.spec_bytes();
    if s.as_bytes().len() <= max_bytes {
        return s;
    }
    proof {
        encode_utf8_valid_utf8(s@);
        is_char_boundary_start_end_of_seq(bytes);
    }
    let mut end: usize = max_bytes;
    while !s.is_char_boundary(end)
        invariant
            bytes == s.spec_bytes(),
            end <= max_bytes < bytes.len(),
            is_char_boundary(bytes, 0),
            forall|k: int| end < k <= max_bytes ==> !#[trigger] is_char_boundary(bytes, k),
        decreases end,
    {
        assert(end != 0);
        end = end - 1;
    }
    let cut: &str = s.split_at(end).0;
    proof {
        lemma_cut_fits(s@, max_bytes as int, cut@, end as int);
    }
    cut
}

// ── Laws ─────────────────────────────────────────────────────────────────────

/// The number that digits stand for.
pub open spec fn value(digits: Seq<char>, base: nat) -> int
    decreases digits.len(),
{
    if digits.len() == 0 {
        0
    } else {
        value(digits.drop_last(), base) * base + (digits.last() as int - '0' as int)
    }
}

/// A numeral stands for its number: read digit by digit it gives the number
/// back, each of its characters is a digit of the base, and it has no zero in
/// front.
pub proof fn law_numerals_read_back(n: nat, base: nat)
    requires
        2 <= base <= 10,
    ensures
        value(numeral(n, base), base) == n,
        numeral(n, base).len() > 0,
        forall|i: int|
            0 <= i < numeral(n, base).len() ==> {
                let digit = (#[trigger] numeral(n, base)[i]) as int - '0' as int;
                0 <= digit && digit < base
            },
        n > 0 ==> numeral(n, base)[0] != '0',
    decreases n,
{
    let digits = numeral(n, base);
    if n < base {
        assert(digits.drop_last() =~= Seq::empty());
        assert(value(digits.drop_last(), base) == 0);
        assert(0 * base == 0);
    } else {
        lemma_quotient_decreases(n, base);
        let rest = n / base;
        law_numerals_read_back(rest, base);
        assert(digits.drop_last() =~= numeral(rest, base));
        assert(n == rest * base + n % base && n % base < base && rest > 0) by (nonlinear_arith)
            requires
                rest == n / base,
                n >= base,
                base >= 2,
        ;
        assert forall|i: int| 0 <= i < digits.len() implies ({
            let digit = (#[trigger] digits[i]) as int - '0' as int;
            0 <= digit && digit < base
        }) by {
            if i < digits.len() - 1 {
                assert(digits[i] == numeral(rest, base)[i]);
            }
        }
        assert(digits[0] == numeral(rest, base)[0]);
    }
}

/// No two numbers have one numeral.
pub proof fn law_numerals_tell_numbers(a: nat, b: nat, base: nat)
    requires
        2 <= base <= 10,
        numeral(a, base) == numeral(b, base),
    ensures
        a == b,
{
    law_numerals_read_back(a, base);
    law_numerals_read_back(b, base);
}

/// Numbers are written in tens, and modes in eights.
pub proof fn law_bases(n: nat)
    ensures
        value(decimal(n), 10) == n,
        value(octal(n), 8) == n,
{
    law_numerals_read_back(n, 10);
    law_numerals_read_back(n, 8);
}

proof fn lemma_fitting_is_longest(s: Seq<char>, max: int, n: int)
    requires
        0 <= max,
        0 <= n <= s.len(),
        encode_utf8(s.take(n)).len() <= max,
    ensures
        fitting(s, max).is_prefix_of(s),
        encode_utf8(fitting(s, max)).len() <= max,
        n <= fitting(s, max).len(),
    decreases s.len(),
{
    if s.len() == 0 {
        assert(s.take(n) =~= s);
    } else if encode_utf8(s).len() > max {
        if n == s.len() {
            assert(s.take(n) =~= s);
        }
        let rest = s.drop_last();
        assert(rest.take(n) =~= s.take(n));
        lemma_fitting_is_longest(rest, max, n);
        assert(fitting(s, max) =~= s.take(fitting(s, max).len() as int)) by {
            assert(fitting(s, max) =~= rest.take(fitting(s, max).len() as int));
        }
    }
}

/// A text that is cut keeps its beginning, fits, and is the longest that does:
/// every beginning of the text that fits is no longer.
pub proof fn law_cut_keeps_what_fits(s: Seq<char>, max: nat, n: int)
    requires
        0 <= n <= s.len(),
        encode_utf8(s.take(n)).len() <= max,
    ensures
        fitting(s, max as int).is_prefix_of(s),
        encode_utf8(fitting(s, max as int)).len() <= max,
        n <= fitting(s, max as int).len(),
{
    lemma_fitting_is_longest(s, max as int, n);
}

} // verus!
