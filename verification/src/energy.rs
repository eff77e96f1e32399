//! Energy-savings estimate: a fixed-coefficient linear function of the
//! traffic counters, formatted with two decimal places.
//!
//! The estimate credits a fixed amount per blocked packet plus a share per
//! processed byte; the value is kept in hundredths ("centi" units) so the
//! formatting is exact integer arithmetic, no floating point anywhere.

use vstd::prelude::*;

verus! {

/// Hundredths credited per blocked packet.
pub const SAVINGS_CENTI_PER_BLOCKED: u64 = 5;

/// Processed bytes per one credited hundredth.
pub const BYTES_PER_SAVINGS_CENTI: u64 = 500000;

/// The estimate in hundredths: a fixed-coefficient linear function of the
/// byte counter and the blocked-packet count.
pub open spec fn spec_savings_centi(bytes_processed: u64, blocked: u64) -> int {
    blocked * SAVINGS_CENTI_PER_BLOCKED + bytes_processed / BYTES_PER_SAVINGS_CENTI
}

/// The character of one decimal digit.
pub open spec fn spec_digit_char(d: int) -> char {
    if d == 0 {
        '0'
    } else if d == 1 {
        '1'
    } else if d == 2 {
        '2'
    } else if d == 3 {
        '3'
    } else if d == 4 {
        '4'
    } else if d == 5 {
        '5'
    } else if d == 6 {
        '6'
    } else if d == 7 {
        '7'
    } else if d == 8 {
        '8'
    } else {
        '9'
    }
}

/// The decimal numeral of `n`, most significant digit first.
pub open spec fn spec_decimal(n: int) -> Seq<char>
    recommends
        n >= 0,
    decreases n,
{
    if n < 10 {
        seq![spec_digit_char(n)]
    } else {
        spec_decimal(n / 10).push(spec_digit_char(n % 10))
    }
}

/// The estimate formatted with two decimal places: the whole units, a dot,
/// then exactly two fraction digits.
pub open spec fn spec_format_centi(c: int) -> Seq<char> {
    spec_decimal(c / 100) + seq!['.'] + seq![
        spec_digit_char((c % 100) / 10),
        spec_digit_char(c % 10),
    ]
}

fn digit_str(d: u64) -> (s: &'static str)
    requires
        d < 10,
    ensures
        s@ == seq![spec_digit_char(d as int)],
{
    let r: &'static str = match d {
        0 => "0",
        1 => "1",
        2 => "2",
        3 => "3",
        4 => "4",
        5 => "5",
        6 => "6",
        7 => "7",
        8 => "8",
        _ => "9",
    };
    proof {
        reveal_strlit("0");
        reveal_strlit("1");
        reveal_strlit("2");
        reveal_strlit("3");
        reveal_strlit("4");
        reveal_strlit("5");
        reveal_strlit("6");
        reveal_strlit("7");
        reveal_strlit("8");
        reveal_strlit("9");
        assert(r@ =~= seq![spec_digit_char(d as int)]);
    }
    r
}

/// The digit characters of `ds`, last element first.
pub open spec fn spec_rev_chars(ds: Seq<u64>) -> Seq<char>
    decreases ds.len(),
{
    if ds.len() == 0 {
        Seq::empty()
    } else {
        seq![spec_digit_char(ds.last() as int)] + spec_rev_chars(ds.drop_last())
    }
}

proof fn lemma_rev_chars_first(ds: Seq<u64>)
    requires
        ds.len() > 0,
    ensures
        spec_rev_chars(ds) == spec_rev_chars(ds.drop_first()) + seq![
            spec_digit_char(ds[0] as int),
        ],
    decreases ds.len(),
{
    if ds.len() == 1 {
        assert(ds.drop_first() =~= Seq::<u64>::empty());
        assert(ds.drop_last() =~= Seq::<u64>::empty());
        assert(ds.last() == ds[0]);
        assert(spec_rev_chars(ds) =~= spec_rev_chars(ds.drop_first()) + seq![
            spec_digit_char(ds[0] as int),
        ]);
    } else {
        lemma_rev_chars_first(ds.drop_last());
        assert(ds.drop_last().drop_first() =~= ds.drop_first().drop_last());
        assert(ds.drop_first().last() == ds.last());
        assert(ds.drop_last()[0] == ds[0]);
        assert(spec_rev_chars(ds) =~= spec_rev_chars(ds.drop_first()) + seq![
            spec_digit_char(ds[0] as int),
        ]);
    }
}

/// Append the decimal numeral of `n` to `out`.
fn push_decimal(out: &mut String, n: u128)
    ensures
        final(out)@ == old(out)@ + spec_decimal(n as int),
{
    let mut digits: Vec<u64> = Vec::new();
    let mut cur: u128 = n;
    proof {
        assert(spec_decimal(n as int) =~= spec_decimal(cur as int) + spec_rev_chars(digits@));
    }
    loop
        invariant_except_break
            forall|k: int| 0 <= k < digits@.len() ==> digits@[k] < 10,
            spec_decimal(n as int) == spec_decimal(cur as int) + spec_rev_chars(digits@),
        ensures
            forall|k: int| 0 <= k < digits@.len() ==> digits@[k] < 10,
            spec_decimal(n as int) == spec_rev_chars(digits@),
        decreases cur,
    {
        let d = (cur % 10) as u64;
        let ghost prev: Seq<u64> = digits@;
        let ghost prev_cur: u128 = cur;
        digits.push(d);
        cur = cur / 10;
        proof {
            assert(digits@.drop_last() =~= prev);
            assert(digits@.last() == d);
            if prev_cur < 10 {
                assert(spec_decimal(prev_cur as int) =~= seq![spec_digit_char(d as int)]);
                assert(seq![spec_digit_char(d as int)] + spec_rev_chars(prev)
                    =~= spec_rev_chars(digits@));
            } else {
                assert(spec_decimal(prev_cur as int) == spec_decimal(prev_cur as int / 10).push(
                    spec_digit_char(prev_cur as int % 10),
                ));
                assert(spec_decimal(cur as int) + (seq![spec_digit_char(d as int)]
                    + spec_rev_chars(prev)) =~= spec_decimal(prev_cur as int) + spec_rev_chars(
                    prev,
                ));
                assert(spec_decimal(cur as int) + spec_rev_chars(digits@) =~= spec_decimal(
                    cur as int,
                ) + (seq![spec_digit_char(d as int)] + spec_rev_chars(prev)));
            }
        }
        if cur == 0 {
            proof {
                if prev_cur >= 10 {
                    assert(spec_decimal(cur as int) =~= seq![spec_digit_char(0)]);
                }
                assert(spec_decimal(n as int) =~= spec_rev_chars(digits@));
            }
            break;
        }
    }
    let mut k: usize = digits.len();
    proof {
        assert(digits@.skip(k as int) =~= Seq::<u64>::empty());
        assert(out@ =~= old(out)@ + spec_rev_chars(digits@.skip(k as int)));
    }
    while k > 0
        invariant
            k <= digits@.len(),
            forall|t: int| 0 <= t < digits@.len() ==> digits@[t] < 10,
            spec_decimal(n as int) == spec_rev_chars(digits@),
            out@ == old(out)@ + spec_rev_chars(digits@.skip(k as int)),
        decreases k,
    {
        let d = digits[k - 1];
        out.append(digit_str(d));
        k -= 1;
        proof {
            let s = digits@.skip(k as int);
            assert(s[0] == digits@[k as int]);
            assert(s.drop_first() =~= digits@.skip(k as int + 1));
            lemma_rev_chars_first(s);
            assert(out@ =~= old(out)@ + spec_rev_chars(digits@.skip(k as int)));
        }
    }
    proof {
        assert(digits@.skip(0) =~= digits@);
    }
}

/// The formatted energy-savings estimate over the byte counter and the
/// blocked-packet count: fixed coefficients, two decimal places, exact.
pub fn energy_savings_estimate(bytes_processed: u64, blocked: u64) -> (s: String)
    ensures
        s@ == spec_format_centi(spec_savings_centi(bytes_processed, blocked)),
{
    let share: u128 = (bytes_processed as u128) / (BYTES_PER_SAVINGS_CENTI as u128);
    proof {
        assert((bytes_processed as u128) / (BYTES_PER_SAVINGS_CENTI as u128)
            <= bytes_processed as u128) by (nonlinear_arith);
    }
    let centi: u128 = (blocked as u128) * (SAVINGS_CENTI_PER_BLOCKED as u128) + share;
    proof {
        assert(centi as int == spec_savings_centi(bytes_processed, blocked));
    }
    let units: u128 = centi / 100;
    let frac: u64 = (centi % 100) as u64;
    let mut s = String::new();
    push_decimal(&mut s, units);
    let ghost after_units: Seq<char> = s@;
    s.append(".");
    proof {
        reveal_strlit(".");
        assert(s@ =~= after_units + seq!['.']);
    }
    s.append(digit_str(frac / 10));
    s.append(digit_str(frac % 10));
    proof {
        let c = spec_savings_centi(bytes_processed, blocked);
        assert(units as int == c / 100);
        assert(frac as int == c % 100);
        assert((frac / 10) as int == (c % 100) / 10);
        assert((frac % 10) as int == c % 10) by {
            assert(frac as int % 10 == (c % 100) % 10);
            assert((c % 100) % 10 == c % 10);
        }
        assert(s@ =~= spec_format_centi(c));
    }
    s
}

} // verus!
