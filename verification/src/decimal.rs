//! Decimal text of unsigned integers: reading a `u64` the way `str::parse`
//! does, and writing a `usize` the way `Display` does.

use vstd::prelude::*;
use vstd::string::*;

verus! {

pub open spec fn is_decimal_digit(c: char) -> bool {
    '0' <= c && c <= '9'
}

pub open spec fn digit_value(c: char) -> int {
    (c as int) - ('0' as int)
}

pub open spec fn all_decimal_digits(s: Seq<char>) -> bool {
    forall|i: int| 0 <= i < s.len() ==> is_decimal_digit(#[trigger] s[i])
}

/// The number that a string of decimal digits denotes, most significant first.
pub open spec fn digits_value(s: Seq<char>) -> int
    decreases s.len(),
{
    if s.len() == 0 {
        0
    } else {
        digits_value(s.drop_last()) * 10 + digit_value(s.last())
    }
}

/// The digits of an unsigned number's text: one leading `+` is allowed.
pub open spec fn unsigned_body(s: Seq<char>) -> Seq<char> {
    if s.len() > 0 && s[0] == '+' {
        s.drop_first()
    } else {
        s
    }
}

/// What `s.parse::<u64>()` gives, as an `Option`: an optional `+` followed by at
/// least one decimal digit and nothing else, denoting a number that fits in a `u64`.
pub open spec fn parsed_u64(s: Seq<char>) -> Option<u64> {
    let body = unsigned_body(s);
    if body.len() > 0 && all_decimal_digits(body) && digits_value(body) <= u64::MAX {
        Some(digits_value(body) as u64)
    } else {
        None
    }
}

proof fn lemma_digits_value_nonneg(s: Seq<char>)
    requires
        all_decimal_digits(s),
    ensures
        digits_value(s) >= 0,
    decreases s.len(),
{
    if s.len() > 0 {
        assert(is_decimal_digit(s[s.len() - 1]));
        lemma_digits_value_nonneg(s.drop_last());
    }
}

/// A longer run of digits denotes at least as much as any of its prefixes.
proof fn lemma_digits_value_prefix(s: Seq<char>, k: int)
    requires
        all_decimal_digits(s),
        0 <= k <= s.len(),
    ensures
        digits_value(s.take(k)) <= digits_value(s),
    decreases s.len() - k,
{
    if k < s.len() {
        let t = s.take(k + 1);
        assert(all_decimal_digits(t));
        assert(t.drop_last() =~= s.take(k));
        assert(is_decimal_digit(t[k]));
        lemma_digits_value_nonneg(s.take(k));
        lemma_digits_value_prefix(s, k + 1);
    } else {
        assert(s.take(k) =~= s);
    }
}

/// Reads an unsigned number as `s.parse::<u64>().ok()` does.
pub fn parse_u64(s: &str) -> (r: Option<u64>)
    ensures
        r == parsed_u64(s@),
{
    let n: usize = s.unicode_len();
    if n == 0 {
        return None;
    }
    let start: usize = if s.get_char(0) == '+' { 1 } else { 0 };
    let ghost body = unsigned_body(s@);
    assert(body =~= s@.subrange(start as int, n as int));
    if start == n {
        return None;
    }
    let mut acc: u64 = 0;
    let mut i: usize = start;
    while i < n
        invariant
            start <= i <= n,
            n == s@.len(),
            body == s@.subrange(start as int, n as int),
            body == unsigned_body(s@),
            body.len() > 0,
            all_decimal_digits(body.take(i - start)),
            acc == digits_value(body.take(i - start)),
        decreases n - i,
    {
        let c = s.get_char(i);
        let ghost k: int = i - start;
        assert(body[k] == c);
        if !('0' <= c && c <= '9') {
            assert(!is_decimal_digit(body[k]));
            assert(!all_decimal_digits(body));
            return None;
        }
        let d: u64 = (c as u32 - '0' as u32) as u64;
        assert(body.take(k + 1).drop_last() =~= body.take(k));
        assert(all_decimal_digits(body.take(k + 1)));
        match acc.checked_mul(10) {
            None => {
                proof {
                    lemma_digits_value_nonneg(body.take(k));
                    if all_decimal_digits(body) {
                        lemma_digits_value_prefix(body, k + 1);
                    }
                }
                return None;
            },
            Some(m) => match m.checked_add(d) {
                None => {
                    proof {
                        if all_decimal_digits(body) {
                            lemma_digits_value_prefix(body, k + 1);
                        }
                    }
                    return None;
                },
                Some(v) => {
                    acc = v;
                },
            },
        }
        i = i + 1;
    }
    assert(body.take(n - start) =~= body);
    Some(acc)
}

/// Reads a candle's timestamp field: the number it denotes, or `0` where it
/// is not the text of a `u64`.
pub fn parse_timestamp(s: &str) -> (r: u64)
    ensures
        r == match parsed_u64(s@) {
            Some(v) => v,
            None => 0,
        },
{
    match parse_u64(s) {
        Some(v) => v,
        None => 0,
    }
}


/// The character of a digit `0..=9`.
pub open spec fn digit_char(d: nat) -> char {
    ((d as int) + ('0' as int)) as char
}

/// The decimal text of a number as `Display` writes it: no sign, no leading zeros.
pub open spec fn decimal_text(n: nat) -> Seq<char>
    decreases n,
{
    if n < 10 {
        seq![digit_char(n)]
    } else {
        decimal_text(n / 10) + seq![digit_char(n % 10)]
    }
}

fn digit_str(d: usize) -> (r: &'static str)
    requires
        d < 10,
    ensures
        r@ == seq![digit_char(d as nat)],
{
    let r = match d {
        0 => "0",
        1 => "1",
        2 => "2",
        3 => "3",
        4 => "4",
        5 => "5",
        6 => "6",
        7 => "7",
        8 => "8",
        _ => "9",
    };
    proof {
        reveal_strlit("0");
        reveal_strlit("1");
        reveal_strlit("2");
        reveal_strlit("3");
        reveal_strlit("4");
        reveal_strlit("5");
        reveal_strlit("6");
        reveal_strlit("7");
        reveal_strlit("8");
        reveal_strlit("9");
        assert(r@ =~= seq![digit_char(d as nat)]);
    }
    r
}

/// Appends the decimal text of `n` to `out`.
pub fn push_decimal(out: &mut String, n: usize)
    ensures
        final(out)@ == old(out)@ + decimal_text(n as nat),
    decreases n,
{
    if n >= 10 {
        push_decimal(out, n / 10);
    }
    out.append(digit_str(n % 10));
    proof {
        if n >= 10 {
            assert(decimal_text(n as nat) == decimal_text((n / 10) as nat) + seq![digit_char((n % 10) as nat)]);
        }
    }
    assert(out@ =~= old(out)@ + decimal_text(n as nat));
}

proof fn lemma_digit_char(d: nat)
    requires
        d < 10,
    ensures
        is_decimal_digit(digit_char(d)),
        digit_char(d) as int == d + 48,
{
}

/// The decimal text of a number is a nonempty run of digits that denotes the
/// number, with no leading zero except for `0` itself.
pub proof fn lemma_decimal_text_denotes(n: nat)
    ensures
        decimal_text(n).len() > 0,
        all_decimal_digits(decimal_text(n)),
        digits_value(decimal_text(n)) == n,
        n > 0 ==> decimal_text(n)[0] != '0',
    decreases n,
{
    lemma_digit_char(n % 10);
    if n >= 10 {
        lemma_decimal_text_denotes(n / 10);
        let t = decimal_text(n);
        let h = decimal_text(n / 10);
        assert(t == h + seq![digit_char(n % 10)]);
        assert(t.drop_last() =~= h);
        assert(t.last() == digit_char(n % 10));
        assert(digits_value(t) == digits_value(h) * 10 + digit_value(digit_char(n % 10)));
        assert(t[0] == h[0]);
        assert forall|i: int| 0 <= i < t.len() implies is_decimal_digit(#[trigger] t[i]) by {
            if i < h.len() {
                assert(t[i] == h[i]);
            }
        }
    } else {
        lemma_digit_char(n);
        let t = decimal_text(n);
        assert(t.drop_last() =~= Seq::<char>::empty());
        assert(digits_value(Seq::<char>::empty()) == 0);
        assert(t.last() == digit_char(n));
        assert(digits_value(t) == digits_value(t.drop_last()) * 10 + digit_value(t.last()));
    }
}

/// Text of one digit parses as that digit's value (`'0'` is 48).
pub proof fn lemma_parse_one_digit(c: char)
    requires
        '0' <= c <= '9',
    ensures
        parsed_u64(seq![c]) == Some(((c as int) - 48) as u64),
        parsed_u64(seq!['+', c]) == Some(((c as int) - 48) as u64),
{
    let t = seq![c];
    assert(t.drop_last() =~= Seq::<char>::empty());
    assert(digits_value(Seq::<char>::empty()) == 0);
    assert(t.last() == c);
    assert(digits_value(t) == digits_value(t.drop_last()) * 10 + digit_value(t.last()));
    assert(t[0] == c);
    assert(unsigned_body(t) == t);
    assert(all_decimal_digits(t));
    assert(seq!['+', c][0] == '+');
    assert(seq!['+', c].drop_first() =~= t);
}

/// Appending a digit to parsed text multiplies the value by ten and adds the
/// digit, as long as the result fits in a `u64`.
pub proof fn lemma_parse_append_digit(s: Seq<char>, c: char, v: u64)
    requires
        parsed_u64(s) == Some(v),
        '0' <= c <= '9',
        v * 10 + ((c as int) - 48) <= u64::MAX,
    ensures
        parsed_u64(s.push(c)) == Some((v * 10 + ((c as int) - 48)) as u64),
{
    let b = unsigned_body(s);
    let t = s.push(c);
    lemma_digits_value_nonneg(b);
    assert(digits_value(b) == v);
    assert(t[0] == s[0]);
    assert(unsigned_body(t) =~= b.push(c));
    assert(b.push(c).drop_last() =~= b);
    assert(b.push(c).last() == c);
    assert(digits_value(b.push(c)) == digits_value(b) * 10 + digit_value(c));
    assert(all_decimal_digits(b.push(c))) by {
        assert forall|i: int| 0 <= i < b.push(c).len() implies is_decimal_digit(
            #[trigger] b.push(c)[i],
        ) by {
            if i < b.len() {
                assert(b.push(c)[i] == b[i]);
            }
        }
    }
}

/// Appending a digit to text that is too large stays too large.
pub proof fn lemma_parse_append_digit_overflow(s: Seq<char>, c: char, v: u64)
    requires
        parsed_u64(s) == Some(v),
        '0' <= c <= '9',
        v * 10 + ((c as int) - 48) > u64::MAX,
    ensures
        parsed_u64(s.push(c)) is None,
{
    let b = unsigned_body(s);
    let t = s.push(c);
    lemma_digits_value_nonneg(b);
    assert(digits_value(b) == v);
    assert(t[0] == s[0]);
    assert(unsigned_body(t) =~= b.push(c));
    assert(b.push(c).drop_last() =~= b);
    assert(b.push(c).last() == c);
    assert(digits_value(b.push(c)) == digits_value(b) * 10 + digit_value(c));
}

/// Text with a character other than a digit (past one leading `+`), or with no
/// digit at all, does not parse.
pub proof fn lemma_parse_rejects(s: Seq<char>, i: int)
    requires
        0 <= i < s.len(),
        !('0' <= s[i] <= '9'),
        !(i == 0 && s[0] == '+'),
    ensures
        parsed_u64(s) is None,
{
    let b = unsigned_body(s);
    if s[0] == '+' {
        assert(b[i - 1] == s[i]);
    } else {
        assert(b[i] == s[i]);
    }
}

/// Reading back the decimal text of a number gives that number.
pub proof fn lemma_parse_decimal_text(n: u64)
    ensures
        parsed_u64(decimal_text(n as nat)) == Some(n),
{
    lemma_decimal_text_denotes(n as nat);
    let t = decimal_text(n as nat);
    if t[0] == '+' {
        lemma_digit_char(0);
        assert(is_decimal_digit(t[0]));
    }
}

} // verus!
