//! Amounts as fixed-point integers: an amount of `n` stands for `n / 10000`
//! units. Reading decimal text into that form, and what the rendered form
//! of an amount is.
use vstd::prelude::*;

verus! {

/// Whether an integer is a value of `i64`.
pub open spec fn in_i64(x: int) -> bool {
    i64::MIN <= x <= i64::MAX
}

/// The decimal digit for `d` (`0 <= d <= 9`).
pub open spec fn digit_char(d: int) -> char {
    if d == 0 {
        '0'
    } else if d == 1 {
        '1'
    } else if d == 2 {
        '2'
    } else if d == 3 {
        '3'
    } else if d == 4 {
        '4'
    } else if d == 5 {
        '5'
    } else if d == 6 {
        '6'
    } else if d == 7 {
        '7'
    } else if d == 8 {
        '8'
    } else {
        '9'
    }
}

/// `n` written in decimal, without leading zeros.
pub open spec fn decimal(n: nat) -> Seq<char>
    decreases n,
{
    if n < 10 {
        seq![digit_char(n as int)]
    } else {
        decimal(n / 10).push(digit_char((n % 10) as int))
    }
}

/// The fractional digits shown for `f` ten-thousandths (`f < 10000`): the
/// fewest of the four digits, at least one, that lose nothing.
pub open spec fn fraction_text(f: nat) -> Seq<char> {
    let d = seq![
        digit_char((f / 1000) as int),
        digit_char((f / 100 % 10) as int),
        digit_char((f / 10 % 10) as int),
        digit_char((f % 10) as int),
    ];
    if f % 1000 == 0 {
        d.take(1)
    } else if f % 100 == 0 {
        d.take(2)
    } else if f % 10 == 0 {
        d.take(3)
    } else {
        d
    }
}

/// The absolute value of `v`.
pub open spec fn magnitude(v: int) -> nat {
    if v < 0 {
        (-v) as nat
    } else {
        v as nat
    }
}

/// How an amount of `v` ten-thousandths is shown: a sign for negative
/// amounts, the whole units, a point, and one to four fractional digits.
pub open spec fn amount_text(v: int) -> Seq<char> {
    (if v < 0 {
        seq!['-']
    } else {
        Seq::<char>::empty()
    }) + decimal(magnitude(v) / 10000) + seq!['.'] + fraction_text(magnitude(v) % 10000)
}

/// The text of one decimal digit.
pub(crate) fn digit_str(d: u64) -> (r: &'static str)
    requires
        d < 10,
    ensures
        r@ == seq![digit_char(d as int)],
{
    proof {
        reveal_strlit("0");
        reveal_strlit("1");
        reveal_strlit("2");
        reveal_strlit("3");
        reveal_strlit("4");
        reveal_strlit("5");
        reveal_strlit("6");
        reveal_strlit("7");
        reveal_strlit("8");
        reveal_strlit("9");
    }
    if d == 0 {
        "0"
    } else if d == 1 {
        "1"
    } else if d == 2 {
        "2"
    } else if d == 3 {
        "3"
    } else if d == 4 {
        "4"
    } else if d == 5 {
        "5"
    } else if d == 6 {
        "6"
    } else if d == 7 {
        "7"
    } else if d == 8 {
        "8"
    } else {
        "9"
    }
}

/// Appends `n` written in decimal.
pub(crate) fn push_decimal(out: &mut String, n: u64)
    ensures
        final(out)@ == old(out)@ + decimal(n as nat),
    decreases n,
{
    if n >= 10 {
        push_decimal(out, n / 10);
    }
    out.append(digit_str(n % 10));
    proof {
        assert(final(out)@ =~= old(out)@ + decimal(n as nat));
    }
}

/// Whether `c` is one of `0` to `9`.
pub open spec fn is_digit(c: char) -> bool {
    '0' <= c && c <= '9'
}

/// The value of the decimal digit `c`.
pub open spec fn digit_value(c: char) -> int {
    c as int - '0' as int
}

/// The number that a run of decimal digits stands for.
pub open spec fn digits_value(s: Seq<char>) -> int
    decreases s.len(),
{
    if s.len() == 0 {
        0
    } else {
        digits_value(s.drop_last()) * 10 + digit_value(s.last())
    }
}

/// The end of the run of digits of `s` that starts at `i`.
pub open spec fn digit_run_end(s: Seq<char>, i: int) -> int
    decreases s.len() - i,
{
    if 0 <= i < s.len() && is_digit(s[i]) {
        digit_run_end(s, i + 1)
    } else {
        i
    }
}

/// The length of the sign that may open the text of an amount.
pub open spec fn sign_len(s: Seq<char>) -> int {
    if s.len() > 0 && (s[0] == '-' || s[0] == '+') {
        1
    } else {
        0
    }
}

/// The `k`-th fractional digit's value, zero past the written ones.
pub open spec fn fraction_digit(f: Seq<char>, k: int) -> int {
    if k < f.len() {
        digit_value(f[k])
    } else {
        0
    }
}

/// The ten-thousandths that fractional digits stand for; digits past the
/// fourth are cut off.
pub open spec fn fraction_units(f: Seq<char>) -> int {
    fraction_digit(f, 0) * 1000 + fraction_digit(f, 1) * 100 + fraction_digit(f, 2) * 10
        + fraction_digit(f, 3)
}

/// The size of the amount written in `s`, in ten-thousandths, where `s` is
/// an optional sign, whole digits, and optionally a point followed by
/// fractional digits, with at least one digit in all. `None` for any other
/// text.
pub open spec fn amount_magnitude(s: Seq<char>) -> Option<int> {
    let st = sign_len(s);
    let e = digit_run_end(s, st);
    let whole = digits_value(s.subrange(st, e));
    if e == s.len() {
        if e > st {
            Some(whole * 10000)
        } else {
            None
        }
    } else if s[e] == '.' {
        let fe = digit_run_end(s, e + 1);
        if fe == s.len() && (e > st || fe > e + 1) {
            Some(whole * 10000 + fraction_units(s.subrange(e + 1, fe)))
        } else {
            None
        }
    } else {
        None
    }
}

/// Whether the text of an amount opens with a minus sign.
pub open spec fn is_negative_text(s: Seq<char>) -> bool {
    s.len() > 0 && s[0] == '-'
}

proof fn lemma_digits_value_nonneg(s: Seq<char>)
    requires
        forall|k: int| 0 <= k < s.len() ==> is_digit(#[trigger] s[k]),
    ensures
        digits_value(s) >= 0,
    decreases s.len(),
{
    if s.len() > 0 {
        lemma_digits_value_nonneg(s.drop_last());
    }
}

/// The most whole units that an amount may have.
const MAX_WHOLE: i64 = 922337203685477;

/// Reads an amount written in decimal (`"1000"`, `"-12.5"`, `"0.12345"`)
/// into ten-thousandths, cutting off digits past the fourth fractional one
/// (towards zero). `None` where the text is not such an amount or its size
/// exceeds `i64::MAX` ten-thousandths.
pub fn parse_amount(s: &str) -> (r: Option<i64>)
    ensures
        r is Some <==> (amount_magnitude(s@) is Some && amount_magnitude(s@)->0 <= i64::MAX),
        r matches Some(v) ==> v == (if is_negative_text(s@) {
            -amount_magnitude(s@)->0
        } else {
            amount_magnitude(s@)->0
        }),
{
    let n: usize = s.unicode_len();
    let mut i: usize = 0;
    let mut negative = false;
    if n > 0 {
        let c = s.get_char(0);
        if c == '-' {
            negative = true;
            i = 1;
        } else if c == '+' {
            i = 1;
        }
    }
    let st: usize = i;
    assert(st == sign_len(s@));
    let mut whole: i64 = 0;
    let mut too_big = false;
    while i < n && ('0' <= s.get_char(i) && s.get_char(i) <= '9')
        invariant
            n == s@.len(),
            st == sign_len(s@),
            st <= i <= n,
            digit_run_end(s@, st as int) == digit_run_end(s@, i as int),
            forall|k: int| st <= k < i ==> is_digit(#[trigger] s@[k]),
            !too_big ==> whole == digits_value(s@.subrange(st as int, i as int)) && 0 <= whole
                <= MAX_WHOLE,
            too_big ==> digits_value(s@.subrange(st as int, i as int)) > MAX_WHOLE,
        decreases n - i,
    {
        let c = s.get_char(i);
        let d: i64 = (c as u32 - '0' as u32) as i64;
        let ghost prev = s@.subrange(st as int, i as int);
        assert(s@.subrange(st as int, i + 1).drop_last() =~= prev);
        proof {
            lemma_digits_value_nonneg(prev);
        }
        if !too_big {
            whole = whole * 10 + d;
            if whole > MAX_WHOLE {
                too_big = true;
            }
        }
        i = i + 1;
    }
    let e: usize = i;
    if e == n {
        if e == st || too_big {
            return None;
        }
        let m: i64 = whole * 10000;
        return Some(if negative { -m } else { m });
    }
    if s.get_char(e) != '.' {
        return None;
    }
    i = e + 1;
    let mut frac: i64 = 0;
    while i < n && ('0' <= s.get_char(i) && s.get_char(i) <= '9')
        invariant
            n == s@.len(),
            e < i <= n,
            digit_run_end(s@, e + 1) == digit_run_end(s@, i as int),
            forall|k: int| e < k < i ==> is_digit(#[trigger] s@[k]),
            frac == fraction_units(s@.subrange(e + 1, i as int)),
            0 <= frac <= 9999,
        decreases n - i,
    {
        let c = s.get_char(i);
        let d: i64 = (c as u32 - '0' as u32) as i64;
        let k: usize = i - (e + 1);
        let ghost prev = s@.subrange(e + 1, i as int);
        let ghost next = s@.subrange(e + 1, i + 1);
        assert(forall|j: int| 0 <= j < prev.len() ==> next[j] == prev[j]);
        assert(next[k as int] == c);
        if k == 0 {
            frac = frac + d * 1000;
        } else if k == 1 {
            frac = frac + d * 100;
        } else if k == 2 {
            frac = frac + d * 10;
        } else if k == 3 {
            frac = frac + d;
        }
        i = i + 1;
    }
    if i != n || (e == st && i == e + 1) || too_big {
        return None;
    }
    let m: i64 = match (whole * 10000).checked_add(frac) {
        Some(x) => x,
        None => {
            return None;
        },
    };
    Some(if negative { -m } else { m })
}

} // verus!
