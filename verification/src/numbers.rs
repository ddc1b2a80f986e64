use vstd::prelude::*;

verus! {

// ---------------------------------------------------------------------------
// Reading unsigned integers
// ---------------------------------------------------------------------------

/// The value of `c` as a digit in `radix`, as `char::to_digit` gives it.
pub open spec fn digit_value(c: char, radix: nat) -> Option<nat> {
    let v: int = if '0' <= c && c <= '9' {
        c as int - '0' as int
    } else if 'a' <= c && c <= 'z' {
        c as int - 'a' as int + 10
    } else if 'A' <= c && c <= 'Z' {
        c as int - 'A' as int + 10
    } else {
        36
    };
    if v < radix {
        Some(v as nat)
    } else {
        None
    }
}

pub open spec fn all_digits(d: Seq<char>, radix: nat) -> bool {
    forall|i: int| 0 <= i < d.len() ==> (#[trigger] digit_value(d[i], radix)) is Some
}

/// The number that the digit string `d` denotes in `radix`.
pub open spec fn digits_value(d: Seq<char>, radix: nat) -> nat
    decreases d.len(),
{
    if d.len() == 0 {
        0
    } else {
        digits_value(d.drop_last(), radix) * radix + match digit_value(d.last(), radix) {
            Some(v) => v,
            None => 0,
        }
    }
}

/// What `from_str_radix` of an unsigned integer type whose largest value is
/// `max` gives for `s`: an optional `'+'`, then at least one digit of
/// `radix`, and a value no larger than `max`.
pub open spec fn parse_unsigned(s: Seq<char>, radix: nat, max: nat) -> Option<nat> {
    let d = if s.len() > 0 && s[0] == '+' {
        s.drop_first()
    } else {
        s
    };
    if d.len() == 0 || !all_digits(d, radix) || digits_value(d, radix) > max {
        None
    } else {
        Some(digits_value(d, radix))
    }
}

pub proof fn lemma_digits_value_monotone(d: Seq<char>, radix: nat, j: int)
    requires
        radix >= 1,
        0 <= j <= d.len(),
    ensures
        digits_value(d.take(j), radix) <= digits_value(d, radix),
    decreases d.len(),
{
    if j < d.len() {
        assert(d.drop_last().take(j) =~= d.take(j));
        lemma_digits_value_monotone(d.drop_last(), radix, j);
        let p = digits_value(d.drop_last(), radix);
        assert(p * radix >= p) by (nonlinear_arith)
            requires
                radix >= 1,
        ;
    } else {
        assert(d.take(j) =~= d);
    }
}

fn char_digit(c: char, radix: u32) -> (r: Option<u32>)
    requires
        2 <= radix <= 36,
    ensures
        match r {
            Some(v) => digit_value(c, radix as nat) == Some(v as nat),
            None => digit_value(c, radix as nat) is None,
        },
{
    let v: u32 = if '0' <= c && c <= '9' {
        (c as u32) - ('0' as u32)
    } else if 'a' <= c && c <= 'z' {
        (c as u32) - ('a' as u32) + 10
    } else if 'A' <= c && c <= 'Z' {
        (c as u32) - ('A' as u32) + 10
    } else {
        36
    };
    if v < radix {
        Some(v)
    } else {
        None
    }
}

/// Reads the span `lo..hi` of `s` as an unsigned number in `radix` that
/// must not exceed `max`.
pub fn parse_unsigned_span(s: &Vec<char>, lo: usize, hi: usize, radix: u32, max: u64) -> (r: Option<
    u64,
>)
    requires
        lo <= hi <= s.len(),
        2 <= radix <= 36,
    ensures
        match r {
            Some(v) => parse_unsigned(s@.subrange(lo as int, hi as int), radix as nat, max as nat)
                == Some(v as nat),
            None => parse_unsigned(
                s@.subrange(lo as int, hi as int),
                radix as nat,
                max as nat,
            ) is None,
        },
{
    let ghost sub = s@.subrange(lo as int, hi as int);
    let start = if lo < hi && s[lo] == '+' {
        lo + 1
    } else {
        lo
    };
    let ghost d = s@.subrange(start as int, hi as int);
    assert(d =~= (if sub.len() > 0 && sub[0] == '+' {
        sub.drop_first()
    } else {
        sub
    }));
    if start == hi {
        return None;
    }
    let mut acc: u64 = 0;
    let mut i = start;
    while i < hi
        invariant
            start <= i <= hi <= s.len(),
            2 <= radix <= 36,
            d == s@.subrange(start as int, hi as int),
            sub == s@.subrange(lo as int, hi as int),
            d == (if sub.len() > 0 && sub[0] == '+' {
                sub.drop_first()
            } else {
                sub
            }),
            all_digits(d.take(i - start), radix as nat),
            acc as nat == digits_value(d.take(i - start), radix as nat),
        decreases hi - i,
    {
        let ghost k = i - start;
        assert(d.take(k + 1).drop_last() =~= d.take(k));
        assert(d.take(k + 1).last() == s[i as int]);
        match char_digit(s[i], radix) {
            None => {
                assert(!all_digits(d, radix as nat)) by {
                    assert(d[k] == s[i as int]);
                }
                return None;
            },
            Some(v) => {
                match acc.checked_mul(radix as u64) {
                    None => {
                        proof {
                            if all_digits(d, radix as nat) {
                                lemma_digits_value_monotone(d, radix as nat, k + 1);
                                assert(digits_value(d.take(k + 1), radix as nat) >= acc * radix);
                            }
                        }
                        return None;
                    },
                    Some(m) => {
                        match m.checked_add(v as u64) {
                            None => {
                                proof {
                                    if all_digits(d, radix as nat) {
                                        lemma_digits_value_monotone(d, radix as nat, k + 1);
                                    }
                                }
                                return None;
                            },
                            Some(n) => {
                                assert(all_digits(d.take(k + 1), radix as nat)) by {
                                    assert forall|j: int| 0 <= j < k + 1 implies (#[trigger] digit_value(
                                        d.take(k + 1)[j],
                                        radix as nat,
                                    )) is Some by {
                                        if j < k {
                                            assert(d.take(k + 1)[j] == d.take(k)[j]);
                                        }
                                    }
                                }
                                acc = n;
                                i = i + 1;
                            },
                        }
                    },
                }
            },
        }
    }
    assert(d.take(d.len() as int) =~= d);
    if acc <= max {
        Some(acc)
    } else {
        None
    }
}

// ---------------------------------------------------------------------------
// Writing unsigned integers
// ---------------------------------------------------------------------------

pub open spec fn digit_char(d: nat) -> char {
    if d == 0 {
        '0'
    } else if d == 1 {
        '1'
    } else if d == 2 {
        '2'
    } else if d == 3 {
        '3'
    } else if d == 4 {
        '4'
    } else if d == 5 {
        '5'
    } else if d == 6 {
        '6'
    } else if d == 7 {
        '7'
    } else if d == 8 {
        '8'
    } else {
        '9'
    }
}

/// The decimal digits of `n`, as `Display` writes an unsigned integer.
pub open spec fn decimal(n: nat) -> Seq<char>
    decreases n,
{
    if n < 10 {
        seq![digit_char(n)]
    } else {
        decimal(n / 10).push(digit_char(n % 10))
    }
}

/// Calls `String::push`. Trusted: `c` is appended at the end of `s`, as
/// the documentation of `String::push` says.
#[verifier::external_body]
pub(crate) fn push_char(s: &mut String, c: char)
    ensures
        final(s)@ == old(s)@.push(c),
{
    s.push(c)
}

fn digit_to_char(d: u64) -> (c: char)
    requires
        d < 10,
    ensures
        c == digit_char(d as nat),
{
    if d == 0 {
        '0'
    } else if d == 1 {
        '1'
    } else if d == 2 {
        '2'
    } else if d == 3 {
        '3'
    } else if d == 4 {
        '4'
    } else if d == 5 {
        '5'
    } else if d == 6 {
        '6'
    } else if d == 7 {
        '7'
    } else if d == 8 {
        '8'
    } else {
        '9'
    }
}

/// Appends the decimal digits of `n` to `out`.
pub fn push_decimal(out: &mut String, n: u64)
    ensures
        final(out)@ == old(out)@ + decimal(n as nat),
    decreases n,
{
    if n < 10 {
        push_char(out, digit_to_char(n));
    } else {
        push_decimal(out, n / 10);
        push_char(out, digit_to_char(n % 10));
    }
}

/// Reading back the decimal digits of a number gives the number.
pub proof fn lemma_decimal_reads_back(n: nat)
    ensures
        all_digits(decimal(n), 10),
        digits_value(decimal(n), 10) == n,
        decimal(n).len() > 0,
        decimal(n)[0] != '+',
    decreases n,
{
    let d = decimal(n);
    if n < 10 {
        assert(d.drop_last() =~= Seq::<char>::empty());
        assert(digit_value(d.last(), 10) == Some(n));
        assert(digits_value(d.drop_last(), 10) == 0);
        assert(digits_value(d, 10) == n);
    } else {
        lemma_decimal_reads_back(n / 10);
        assert(d.drop_last() =~= decimal(n / 10));
        assert(d.last() == digit_char(n % 10));
        assert(digit_value(d.last(), 10) == Some(n % 10));
        assert(n == (n / 10) * 10 + n % 10);
        assert(digits_value(d.drop_last(), 10) == n / 10);
        assert(digits_value(d, 10) == n);
        assert(d[0] == decimal(n / 10)[0]);
        assert forall|i: int| 0 <= i < d.len() implies (#[trigger] digit_value(d[i], 10)) is Some by {
            if i < d.len() - 1 {
                assert(d[i] == decimal(n / 10)[i]);
            }
        }
    }
}

/// A number that fits the type reads back from its decimal form.
pub proof fn lemma_parse_decimal_roundtrip(n: nat, max: nat)
    requires
        n <= max,
    ensures
        parse_unsigned(decimal(n), 10, max) == Some(n),
{
    lemma_decimal_reads_back(n);
}

} // verus!
