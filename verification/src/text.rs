//! Text helpers: decimal numbers, trimming and prefixes, all over `Seq<char>`.

use vstd::prelude::*;

verus! {

/// The characters of an optional text.
pub open spec fn opt_text(text: Option<String>) -> Option<Seq<char>> {
    match text {
        Some(s) => Some(s@),
        None => None,
    }
}

/// Copies an optional text.
pub fn copy_opt_text(text: &Option<String>) -> (copy: Option<String>)
    ensures
        opt_text(copy) == opt_text(*text),
{
    match text {
        Some(s) => Some(s.clone()),
        None => None,
    }
}

/// Whether two texts hold the same characters.
pub fn same_text(a: &str, b: &str) -> (same: bool)
    ensures
        same == (a@ == b@),
{
    a.to_owned() == b.to_owned()
}

/// `s` without the slashes at its end.
pub open spec fn without_end_slashes(s: Seq<char>) -> Seq<char>
    decreases s.len(),
{
    if s.len() > 0 && s.last() == '/' {
        without_end_slashes(s.drop_last())
    } else {
        s
    }
}

/// Removes every slash at the end of `s`.
pub fn trim_end_slashes(s: &str) -> (trimmed: String)
    ensures
        trimmed@ == without_end_slashes(s@),
{
    let mut end: usize = s.unicode_len();
    assert(s@.subrange(0, end as int) =~= s@);
    while end > 0 && s.get_char(end - 1) == '/'
        invariant
            end <= s@.len(),
            without_end_slashes(s@.subrange(0, end as int)) == without_end_slashes(s@),
        ensures
            end <= s@.len(),
            without_end_slashes(s@.subrange(0, end as int)) == without_end_slashes(s@),
            end == 0 || s@[end - 1] != '/',
        decreases end,
    {
        assert(s@.subrange(0, end as int).drop_last() =~= s@.subrange(0, end - 1));
        end = end - 1;
    }
    s.substring_char(0, end).to_owned()
}

/// The first `count` characters of `s`, or all of them where there are fewer.
pub open spec fn first_chars(s: Seq<char>, count: int) -> Seq<char> {
    if s.len() <= count {
        s
    } else {
        s.take(count)
    }
}

/// Copies at most `count` characters from the start of `s`.
pub fn leading_chars(s: &str, count: usize) -> (prefix: String)
    ensures
        prefix@ == first_chars(s@, count as int),
{
    if s.unicode_len() <= count {
        s.to_owned()
    } else {
        s.substring_char(0, count).to_owned()
    }
}

/// The digit that stands for `d`, for `d` from 0 to 9.
pub open spec fn digit_char(d: int) -> char {
    "0123456789"@[d]
}

/// `n` written in decimal, without leading zeros.
pub open spec fn decimal_text(n: nat) -> Seq<char>
    decreases n,
{
    if n < 10 {
        seq![digit_char(n as int)]
    } else {
        decimal_text(n / 10).push(digit_char((n % 10) as int))
    }
}

/// Writes `n` in decimal.
pub fn decimal(n: u64) -> (text: String)
    ensures
        text@ == decimal_text(n as nat),
    decreases n,
{
    proof {
        reveal_strlit("0123456789");
    }
    let d: usize = (n % 10) as usize;
    let digit = "0123456789".substring_char(d, d + 1);
    if n < 10 {
        digit.to_owned()
    } else {
        let mut text = decimal(n / 10);
        text.append(digit);
        text
    }
}

/// Whether `c` is an ASCII decimal digit.
pub open spec fn is_digit(c: char) -> bool {
    '0' <= c && c <= '9'
}

/// The number that the decimal digits `s` stand for; 0 for no digits.
pub open spec fn digits_value(s: Seq<char>) -> nat
    decreases s.len(),
{
    if s.len() == 0 {
        0
    } else {
        (10 * digits_value(s.drop_last()) + (s.last() as int - '0' as int)) as nat
    }
}

/// Whether every character of `s` is an ASCII decimal digit.
pub open spec fn all_digits(s: Seq<char>) -> bool {
    forall|i: int| 0 <= i < s.len() ==> is_digit(#[trigger] s[i])
}

/// `s` without one leading plus sign.
pub open spec fn without_plus(s: Seq<char>) -> Seq<char> {
    if s.len() > 0 && s[0] == '+' {
        s.skip(1)
    } else {
        s
    }
}

/// The 64-bit number that `s` writes: an optional plus sign, then one or more
/// decimal digits; `None` for any other text and for a number that is too large.
pub open spec fn parsed_u64(s: Seq<char>) -> Option<u64> {
    let digits = without_plus(s);
    if digits.len() > 0 && all_digits(digits) && digits_value(digits) <= u64::MAX {
        Some(digits_value(digits) as u64)
    } else {
        None
    }
}

proof fn lemma_prefix_value(s: Seq<char>, end: int)
    requires
        all_digits(s),
        0 <= end <= s.len(),
    ensures
        digits_value(s.take(end)) <= digits_value(s),
    decreases s.len(),
{
    if end < s.len() {
        lemma_prefix_value(s.drop_last(), end);
        assert(s.drop_last().take(end) =~= s.take(end));
    } else {
        assert(s.take(end) =~= s);
    }
}

/// Reads a decimal number.
pub fn parse_u64(s: &str) -> (n: Option<u64>)
    ensures
        n == parsed_u64(s@),
{
    let len: usize = s.unicode_len();
    let start: usize = if len > 0 && s.get_char(0) == '+' {
        1
    } else {
        0
    };
    let ghost digits = without_plus(s@);
    if start == len {
        return None;
    }
    let mut value: u64 = 0;
    let mut at: usize = start;
    while at < len
        invariant
            start <= at <= len,
            len == s@.len(),
            start < len,
            digits == without_plus(s@),
            digits == s@.skip(start as int),
            forall|i: int| 0 <= i < at - start ==> is_digit(#[trigger] digits[i]),
            value == digits_value(digits.take(at - start)),
        decreases len - at,
    {
        let c: char = s.get_char(at);
        let ghost k = at - start;
        assert(digits[k] == c);
        if c < '0' || c > '9' {
            return None;
        }
        let digit: u64 = c as u64 - '0' as u64;
        assert(digits.take(k + 1).drop_last() =~= digits.take(k));
        if value > (u64::MAX - digit) / 10 {
            proof {
                if all_digits(digits) {
                    lemma_prefix_value(digits, k + 1);
                }
            }
            return None;
        }
        value = value * 10 + digit;
        at = at + 1;
    }
    assert(digits.take(len - start) =~= digits);
    Some(value)
}

proof fn lemma_digit_char(d: int)
    requires
        0 <= d < 10,
    ensures
        is_digit(digit_char(d)),
        digit_char(d) as int - '0' as int == d,
{
    reveal_strlit("0123456789");
    assert(d == 0 || d == 1 || d == 2 || d == 3 || d == 4 || d == 5 || d == 6 || d == 7 || d == 8
        || d == 9);
}

/// What is written in decimal reads back as the same number, and holds digits
/// alone.
pub proof fn law_decimal_reads_back(n: u64)
    ensures
        all_digits(decimal_text(n as nat)),
        parsed_u64(decimal_text(n as nat)) == Some(n),
{
    lemma_decimal_text(n as nat);
}

pub(crate) proof fn lemma_decimal_text(n: nat)
    ensures
        decimal_text(n).len() > 0,
        all_digits(decimal_text(n)),
        digits_value(decimal_text(n)) == n,
    decreases n,
{
    lemma_digit_char((n % 10) as int);
    if n < 10 {
        reveal_with_fuel(digits_value, 2);
    } else {
        lemma_decimal_text(n / 10);
        assert(decimal_text(n).drop_last() =~= decimal_text(n / 10));
    }
}

/// Trimming leaves a prefix that does not end in a slash, drops nothing but
/// slashes, and changes nothing when done again.
pub proof fn law_trimmed_has_no_end_slash(s: Seq<char>)
    ensures
        without_end_slashes(s).len() <= s.len(),
        without_end_slashes(s) == s.take(without_end_slashes(s).len() as int),
        forall|i: int| without_end_slashes(s).len() <= i < s.len() ==> #[trigger] s[i] == '/',
        without_end_slashes(s).len() > 0 ==> without_end_slashes(s).last() != '/',
        without_end_slashes(without_end_slashes(s)) == without_end_slashes(s),
    decreases s.len(),
{
    if s.len() > 0 && s.last() == '/' {
        let rest = s.drop_last();
        law_trimmed_has_no_end_slash(rest);
        let n = without_end_slashes(s).len();
        assert forall|i: int| n <= i < s.len() implies #[trigger] s[i] == '/' by {
            if i < rest.len() {
                assert(rest[i] == '/');
            }
        }
    }
}

/// Trimming leaves nothing of a text exactly where the text holds nothing but slashes.
pub proof fn law_only_slashes_trim_to_nothing(s: Seq<char>)
    ensures
        without_end_slashes(s).len() == 0 <==> forall|i: int|
            0 <= i < s.len() ==> #[trigger] s[i] == '/',
{
    law_trimmed_has_no_end_slash(s);
}

/// Whether `s` holds no line break.
pub open spec fn no_line_break(s: Seq<char>) -> bool {
    forall|i: int| 0 <= i < s.len() ==> #[trigger] s[i] != '\n'
}

/// The number of line breaks in `s`.
pub open spec fn line_breaks(s: Seq<char>) -> nat
    decreases s.len(),
{
    if s.len() == 0 {
        0
    } else {
        line_breaks(s.drop_last()) + (if s.last() == '\n' {
            1nat
        } else {
            0nat
        })
    }
}

pub(crate) broadcast proof fn lemma_line_breaks_concat(a: Seq<char>, b: Seq<char>)
    ensures
        #[trigger] line_breaks(a + b) == line_breaks(a) + line_breaks(b),
    decreases b.len(),
{
    if b.len() == 0 {
        assert(a + b =~= a);
    } else {
        lemma_line_breaks_concat(a, b.drop_last());
        assert((a + b).drop_last() =~= a + b.drop_last());
    }
}

pub(crate) proof fn lemma_no_line_break(s: Seq<char>)
    requires
        no_line_break(s),
    ensures
        line_breaks(s) == 0,
    decreases s.len(),
{
    if s.len() > 0 {
        lemma_no_line_break(s.drop_last());
    }
}

pub(crate) proof fn lemma_one_line_break(s: Seq<char>, at: int)
    requires
        0 <= at < s.len(),
        s[at] == '\n',
        forall|i: int| 0 <= i < s.len() && i != at ==> #[trigger] s[i] != '\n',
    ensures
        line_breaks(s) == 1,
    decreases s.len(),
{
    if at == s.len() - 1 {
        lemma_no_line_break(s.drop_last());
    } else {
        lemma_one_line_break(s.drop_last(), at);
    }
}

pub(crate) proof fn lemma_decimal_has_no_line_break(n: nat)
    ensures
        line_breaks(decimal_text(n)) == 0,
{
    lemma_decimal_text(n);
    assert forall|i: int| 0 <= i < decimal_text(n).len() implies #[trigger] decimal_text(n)[i]
        != '\n' by {
        assert(is_digit(decimal_text(n)[i]));
    }
    lemma_no_line_break(decimal_text(n));
}

/// An optional text has the characters of the text that it holds, all of them.
pub proof fn law_optional_text_is_whole(text: String)
    ensures
        opt_text(Some(text)) == Some(text@),
        opt_text(None) is None,
{
}

/// A prefix of `count` characters is made of the first characters, and is shorter only
/// where the text is.
pub proof fn law_prefix_is_the_start(s: Seq<char>, count: nat)
    ensures
        first_chars(s, count as int).len() == (if s.len() < count {
            s.len()
        } else {
            count
        }),
        forall|i: int|
            0 <= i < first_chars(s, count as int).len() ==> #[trigger] first_chars(
                s,
                count as int,
            )[i] == s[i],
{
}

/// A decimal digit more makes ten times the number, plus the digit; no digits make zero.
pub proof fn law_digits_add_up(s: Seq<char>, c: char)
    requires
        48 <= c as int <= 57,
    ensures
        digits_value(Seq::empty()) == 0,
        digits_value(s.push(c)) == 10 * digits_value(s) + (c as int - 48),
{
    assert(s.push(c).drop_last() =~= s);
}

/// A text is a number exactly where, after at most one plus sign, it is one or more of the
/// characters 0 to 9 and what they stand for has no more than 64 bits; it is then that
/// number.
pub proof fn law_numbers_are_read(s: Seq<char>, digits: Seq<char>)
    requires
        s == digits && (s.len() > 0 ==> s[0] != '+') || s == seq!['+'] + digits,
    ensures
        parsed_u64(s) is Some <==> {
            &&& digits.len() > 0
            &&& forall|i: int| 0 <= i < digits.len() ==> 48 <= (#[trigger] digits[i]) as int <= 57
            &&& digits_value(digits) <= 0xffff_ffff_ffff_ffff
        },
        parsed_u64(s) is Some ==> parsed_u64(s)->0 == digits_value(digits),
{
    assert(without_plus(s) =~= digits);
    assert forall|i: int| 0 <= i < digits.len() implies (is_digit(#[trigger] digits[i]) <==> 48
        <= digits[i] as int <= 57) by {}
}

proof fn lemma_decimal_lead(n: nat)
    requires
        n > 0,
    ensures
        decimal_text(n).len() > 0,
        decimal_text(n)[0] != '0',
    decreases n,
{
    lemma_digit_char((n % 10) as int);
    if n >= 10 {
        lemma_decimal_lead(n / 10);
    }
}

/// A number in decimal is made of the characters 0 to 9, stands for the number, and has no
/// zero in front of another digit.
pub proof fn law_decimal_stands_for_its_number(n: nat)
    ensures
        decimal_text(n).len() > 0,
        forall|i: int|
            0 <= i < decimal_text(n).len() ==> 48 <= (#[trigger] decimal_text(n)[i]) as int <= 57,
        digits_value(decimal_text(n)) == n,
        decimal_text(n).len() > 1 ==> decimal_text(n)[0] != '0',
{
    lemma_decimal_text(n);
    assert forall|i: int| 0 <= i < decimal_text(n).len() implies 48 <= (
    #[trigger] decimal_text(n)[i]) as int <= 57 by {
        assert(is_digit(decimal_text(n)[i]));
    }
    if n > 0 {
        lemma_decimal_lead(n);
    }
}

/// Line breaks are counted one by one.
pub proof fn law_line_breaks_are_counted(s: Seq<char>, c: char)
    ensures
        line_breaks(Seq::empty()) == 0,
        line_breaks(s.push(c)) == line_breaks(s) + (if c as int == 10 {
            1nat
        } else {
            0nat
        }),
        line_breaks(s) == 0 <==> forall|i: int|
            0 <= i < s.len() ==> (#[trigger] s[i]) as int != 10,
    decreases s.len(),
{
    assert(s.push(c).drop_last() =~= s);
    if s.len() > 0 {
        law_line_breaks_are_counted(s.drop_last(), s.last());
        assert(s.drop_last().push(s.last()) =~= s);
        if line_breaks(s) == 0 {
            assert forall|i: int| 0 <= i < s.len() implies (#[trigger] s[i]) as int != 10 by {
                if i < s.len() - 1 {
                    assert(s.drop_last()[i] as int != 10);
                }
            }
        }
        if forall|i: int| 0 <= i < s.len() ==> (#[trigger] s[i]) as int != 10 {
            lemma_no_line_break(s);
        }
    }
}

} // verus!
