//! What trimming and decimal notation do.
use vstd::prelude::*;

use crate::text::{
    decimal, digit, digits_value, is_digit, is_white_space, parsed_u64, texts, trimmed,
    trimmed_end, trimmed_start, unsigned_digits,
};

verus! {

/// `s[a..b]` is `s` without its surrounding whitespace: nothing but whitespace
/// stands before and after it, and it neither starts nor ends with any.
pub open spec fn is_trim_of(s: Seq<char>, a: int, b: int) -> bool {
    &&& 0 <= a <= b <= s.len()
    &&& forall|i: int| 0 <= i < a ==> is_white_space(#[trigger] s[i])
    &&& forall|i: int| b <= i < s.len() ==> is_white_space(#[trigger] s[i])
    &&& a < b ==> !is_white_space(s[a]) && !is_white_space(s[b - 1])
}

pub(crate) proof fn lemma_trimmed_start(s: Seq<char>) -> (a: int)
    ensures
        0 <= a <= s.len(),
        trimmed_start(s) == s.skip(a),
        forall|i: int| 0 <= i < a ==> is_white_space(#[trigger] s[i]),
        a < s.len() ==> !is_white_space(s[a]),
    decreases s.len(),
{
    if s.len() > 0 && is_white_space(s[0]) {
        let rest = s.drop_first();
        let k = lemma_trimmed_start(rest);
        assert(rest.skip(k) =~= s.skip(k + 1));
        assert forall|i: int| 0 <= i < k + 1 implies is_white_space(#[trigger] s[i]) by {
            if i > 0 {
                assert(rest[i - 1] == s[i]);
            }
        }
        k + 1
    } else {
        assert(s.skip(0) =~= s);
        0
    }
}

proof fn lemma_trimmed_end(s: Seq<char>) -> (b: int)
    ensures
        0 <= b <= s.len(),
        trimmed_end(s) == s.take(b),
        forall|i: int| b <= i < s.len() ==> is_white_space(#[trigger] s[i]),
        b > 0 ==> !is_white_space(s[b - 1]),
    decreases s.len(),
{
    if s.len() > 0 && is_white_space(s.last()) {
        let rest = s.drop_last();
        let k = lemma_trimmed_end(rest);
        assert(rest.take(k) =~= s.take(k));
        assert forall|i: int| k <= i < s.len() implies is_white_space(#[trigger] s[i]) by {
            if i < rest.len() {
                assert(rest[i] == s[i]);
            }
        }
        k
    } else {
        assert(s.take(s.len() as int) =~= s);
        s.len() as int
    }
}

/// Trimming takes away the surrounding whitespace, all of it and nothing else.
pub proof fn law_trimming_leaves_what_is_inside(s: Seq<char>)
    ensures
        exists|a: int, b: int| #[trigger] is_trim_of(s, a, b) && trimmed(s) == s.subrange(a, b),
{
    let a = lemma_trimmed_start(s);
    let mid = s.skip(a);
    let k = lemma_trimmed_end(mid);
    let b = a + k;
    assert(mid.take(k) =~= s.subrange(a, b));
    assert forall|i: int| b <= i < s.len() implies is_white_space(#[trigger] s[i]) by {
        assert(mid[i - a] == s[i]);
    }
    if a < b {
        assert(mid[k - 1] == s[b - 1]);
    }
    assert(is_trim_of(s, a, b));
}

/// Blanks, tabs and line ends are whitespace; no printable ASCII character is.
pub proof fn law_whitespace_is_what_does_not_show(c: char)
    ensures
        c == ' ' || c == '\t' || c == '\n' || c == '\r' ==> is_white_space(c),
        '!' <= c <= '~' ==> !is_white_space(c),
        c == '\u{a0}' || c == '\u{2028}' || c == '\u{3000}' ==> is_white_space(c),
        c == '\u{200b}' || c == '\u{feff}' ==> !is_white_space(c),
{
}

proof fn lemma_decimal(n: nat)
    ensures
        digits_value(decimal(n)) == n,
        decimal(n).len() >= 1,
        forall|i: int| 0 <= i < decimal(n).len() ==> '0' <= #[trigger] decimal(n)[i] <= '9',
        n > 0 ==> decimal(n)[0] != '0',
        n == 0 ==> decimal(n) == seq!['0'],
    decreases n,
{
    reveal_with_fuel(digits_value, 2);
    if n < 10 {
        assert(decimal(n).drop_last() =~= Seq::<char>::empty());
        if n == 0 {
            assert(decimal(n) =~= seq!['0']);
        }
    } else {
        lemma_decimal(n / 10);
        let head = decimal(n / 10);
        assert(decimal(n).drop_last() =~= head);
        assert(decimal(n).last() == digit(n % 10));
        assert forall|i: int| 0 <= i < decimal(n).len() implies '0' <= #[trigger] decimal(n)[i]
            <= '9' by {
            if i < head.len() {
                assert(decimal(n)[i] == head[i]);
            }
        }
    }
}

/// A number in decimal is digits, read from the left by tens, without a leading
/// zero unless it is zero.
pub proof fn law_decimal_reads_back(n: nat, s: Seq<char>, c: char)
    ensures
        digits_value(decimal(n)) == n,
        decimal(n).len() >= 1,
        forall|i: int| 0 <= i < decimal(n).len() ==> '0' <= #[trigger] decimal(n)[i] <= '9',
        n > 0 ==> decimal(n)[0] != '0',
        n == 0 ==> decimal(n) == seq!['0'],
        digits_value(Seq::empty()) == 0,
        '0' <= c <= '9' ==> digits_value(s.push(c)) == 10 * digits_value(s) + (c as int - '0' as int),
{
    lemma_decimal(n);
    assert(s.push(c).drop_last() =~= s);
}

/// A `u64` is read from its decimal notation, with or without a plus sign; what
/// holds no digit, or anything but digits behind an optional plus sign, or a
/// number out of range, is none.
pub proof fn law_a_number_is_read_as_written(n: u64, s: Seq<char>)
    ensures
        parsed_u64(decimal(n as nat)) == Some(n),
        parsed_u64(seq!['+'] + decimal(n as nat)) == Some(n),
        parsed_u64(Seq::empty()) is None,
        parsed_u64(seq!['+']) is None,
        (exists|i: int|
            0 <= i < s.len() && !('0' <= #[trigger] s[i] <= '9') && !(i == 0 && s[i] == '+'))
            ==> parsed_u64(s) is None,
        s.len() > 0 && s[0] != '+' && digits_value(s) > u64::MAX ==> parsed_u64(s) is None,
{
    lemma_decimal(n as nat);
    let d = decimal(n as nat);
    assert(d[0] != '+');
    assert((seq!['+'] + d).drop_first() =~= d);
    assert(seq!['+'].drop_first() =~= Seq::<char>::empty());
    if exists|i: int|
        0 <= i < s.len() && !('0' <= #[trigger] s[i] <= '9') && !(i == 0 && s[i] == '+') {
        let i = choose|i: int|
            0 <= i < s.len() && !('0' <= #[trigger] s[i] <= '9') && !(i == 0 && s[i] == '+');
        let digits = unsigned_digits(s);
        if s[0] == '+' {
            assert(digits[i - 1] == s[i]);
            assert(!is_digit(digits[i - 1]));
        } else {
            assert(digits[i] == s[i]);
            assert(!is_digit(digits[i]));
        }
    }
}

/// The texts of a list of strings are theirs, in order.
pub proof fn law_texts_are_read_in_order(strings: Seq<String>, k: int)
    requires
        0 <= k < strings.len(),
    ensures
        texts(strings).len() == strings.len(),
        texts(strings)[k] == strings[k]@,
{
}

} // verus!
