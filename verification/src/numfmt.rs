use vstd::prelude::*;

verus! {

/// ASCII decimal digit.
pub open spec fn is_digit(b: u8) -> bool {
    48 <= b <= 57
}

/// Decimal digit bytes of a non-negative integer, most significant first.
pub open spec fn dec_u(n: nat) -> Seq<u8>
    decreases n,
{
    if n < 10 {
        seq![(48 + n) as u8]
    } else {
        dec_u(n / 10) + seq![(48 + n % 10) as u8]
    }
}

/// Decimal byte representation of an integer, with a leading minus sign
/// when negative.
pub open spec fn dec_i(n: int) -> Seq<u8> {
    if n < 0 {
        seq![45u8] + dec_u((-n) as nat)
    } else {
        dec_u(n as nat)
    }
}

/// Value of a sequence of decimal digit bytes, most significant first.
pub open spec fn digits_val(s: Seq<u8>) -> int
    decreases s.len(),
{
    if s.len() == 0 {
        0
    } else {
        digits_val(s.drop_last()) * 10 + (s.last() - 48)
    }
}

/// End of the run of digit bytes that starts at `i`.
pub open spec fn digit_run_end(s: Seq<u8>, i: int) -> int
    decreases s.len() - i,
{
    if i < s.len() && is_digit(s[i]) {
        digit_run_end(s, i + 1)
    } else {
        i
    }
}

/// A maximal run of digits starting at `i`, as a value and the position
/// after it; `None` when no digit stands at `i`.
pub open spec fn parse_u(s: Seq<u8>, i: int) -> Option<(int, int)> {
    let j = digit_run_end(s, i);
    if j == i {
        None
    } else {
        Some((digits_val(s.subrange(i, j)), j))
    }
}

/// An optionally minus-signed run of digits starting at `i`.
pub open spec fn parse_i(s: Seq<u8>, i: int) -> Option<(int, int)> {
    if 0 <= i < s.len() && s[i] == 45 {
        match parse_u(s, i + 1) {
            Some(vj) => Some((-vj.0, vj.1)),
            None => None,
        }
    } else {
        parse_u(s, i)
    }
}

/// `parse_i`, restricted to values whose magnitude fits an `i64`.
pub open spec fn parse_i64(s: Seq<u8>, i: int) -> Option<(int, int)> {
    match parse_i(s, i) {
        Some(vj) => if -(i64::MAX as int) <= vj.0 <= i64::MAX as int {
            Some(vj)
        } else {
            None
        },
        None => None,
    }
}

pub proof fn lemma_dec_u_digits(n: nat)
    ensures
        dec_u(n).len() >= 1,
        forall|i: int| 0 <= i < dec_u(n).len() ==> is_digit(#[trigger] dec_u(n)[i]),
    decreases n,
{
    if n >= 10 {
        lemma_dec_u_digits(n / 10);
    }
}

pub proof fn lemma_dec_u_val(n: nat)
    ensures
        digits_val(dec_u(n)) == n,
    decreases n,
{
    if n < 10 {
        assert(dec_u(n) == seq![(48 + n) as u8]);
        assert(dec_u(n).drop_last() =~= Seq::<u8>::empty());
        assert(dec_u(n).last() == (48 + n) as u8);
        assert((48 + n) as u8 == 48 + n);
        assert(digits_val(dec_u(n)) == digits_val(Seq::<u8>::empty()) * 10 + ((48 + n) - 48));
    } else {
        lemma_dec_u_val(n / 10);
        assert(dec_u(n).drop_last() =~= dec_u(n / 10));
        assert(dec_u(n).last() == (48 + n % 10) as u8);
        assert(digits_val(dec_u(n)) == (n / 10) * 10 + n % 10);
        assert((n / 10) * 10 + n % 10 == n) by (nonlinear_arith);
    }
}

/// Digit runs skip over any prefix of digits.
pub proof fn lemma_digit_run_fixed(s: Seq<u8>, i: int, j: int)
    requires
        0 <= i <= j <= s.len(),
        forall|k: int| i <= k < j ==> is_digit(#[trigger] s[k]),
        j == s.len() || !is_digit(s[j]),
    ensures
        digit_run_end(s, i) == j,
    decreases j - i,
{
    if i < j {
        lemma_digit_run_fixed(s, i + 1, j);
    }
}

/// Every digit sequence has a non-negative value.
pub proof fn lemma_digits_val_nonneg(s: Seq<u8>)
    requires
        forall|k: int| 0 <= k < s.len() ==> is_digit(#[trigger] s[k]),
    ensures
        digits_val(s) >= 0,
    decreases s.len(),
{
    if s.len() > 0 {
        assert(forall|k: int| 0 <= k < s.drop_last().len() ==> is_digit(#[trigger] s.drop_last()[k]));
        lemma_digits_val_nonneg(s.drop_last());
        assert(digits_val(s.drop_last()) * 10 >= 0) by (nonlinear_arith)
            requires digits_val(s.drop_last()) >= 0;
    }
}

/// Extending a digit sequence by one digit multiplies its value by ten and
/// adds the digit.
pub proof fn lemma_digits_val_snoc(s: Seq<u8>, i: int, j: int)
    requires
        0 <= i <= j < s.len(),
    ensures
        digits_val(s.subrange(i, j + 1)) == digits_val(s.subrange(i, j)) * 10 + (s[j] - 48),
{
    assert(s.subrange(i, j + 1).drop_last() =~= s.subrange(i, j));
    assert(s.subrange(i, j + 1).last() == s[j]);
}

/// A longer digit run is worth at least as much as a prefix of it.
pub proof fn lemma_digits_val_mono(s: Seq<u8>, i: int, j1: int, j2: int)
    requires
        0 <= i <= j1 <= j2 <= s.len(),
        forall|k: int| i <= k < j2 ==> is_digit(#[trigger] s[k]),
    ensures
        digits_val(s.subrange(i, j1)) <= digits_val(s.subrange(i, j2)),
    decreases j2 - j1,
{
    if j1 < j2 {
        lemma_digits_val_snoc(s, i, j1);
        assert(forall|k: int| 0 <= k < s.subrange(i, j1).len() ==> is_digit(
            #[trigger] s.subrange(i, j1)[k],
        ));
        lemma_digits_val_nonneg(s.subrange(i, j1));
        assert(digits_val(s.subrange(i, j1)) * 10 >= digits_val(s.subrange(i, j1)))
            by (nonlinear_arith)
            requires digits_val(s.subrange(i, j1)) >= 0;
        lemma_digits_val_mono(s, i, j1 + 1, j2);
    }
}

/// Parsing inverts formatting: at the place where `dec_i(n)` was laid down,
/// followed by a non-digit or the end, `parse_i64` gives back exactly `n`.
pub proof fn lemma_parse_dec_i(s: Seq<u8>, i: int, n: int)
    requires
        0 <= i,
        -(i64::MAX as int) <= n <= i64::MAX as int,
        i + dec_i(n).len() <= s.len(),
        s.subrange(i, i + dec_i(n).len() as int) == dec_i(n),
        i + dec_i(n).len() == s.len() || !is_digit(s[i + dec_i(n).len()]),
    ensures
        parse_i64(s, i) == Some((n, i + dec_i(n).len() as int)),
{
    if n >= 0 {
        lemma_parse_dec_u(s, i, n as nat);
        assert(s[i] == dec_u(n as nat)[0]);
        lemma_dec_u_digits(n as nat);
        assert(is_digit(s[i]));
        assert(s[i] != 45);
    } else {
        let m = (-n) as nat;
        assert(dec_i(n) == seq![45u8] + dec_u(m));
        assert(s[i] == dec_i(n)[0]);
        assert(s[i] == 45);
        assert forall|t: int| 0 <= t < dec_u(m).len() implies s[i + 1 + t] == dec_u(m)[t] by {
            assert(s.subrange(i, i + dec_i(n).len() as int)[t + 1] == s[i + 1 + t]);
            assert(dec_i(n)[t + 1] == dec_u(m)[t]);
        }
        assert(s.subrange(i + 1, i + 1 + dec_u(m).len() as int) =~= dec_u(m));
        lemma_parse_dec_u(s, i + 1, m);
    }
}

/// The unsigned core of `lemma_parse_dec_i`.
pub proof fn lemma_parse_dec_u(s: Seq<u8>, i: int, n: nat)
    requires
        0 <= i,
        i + dec_u(n).len() <= s.len(),
        s.subrange(i, i + dec_u(n).len() as int) == dec_u(n),
        i + dec_u(n).len() == s.len() || !is_digit(s[i + dec_u(n).len()]),
    ensures
        parse_u(s, i) == Some((n as int, i + dec_u(n).len() as int)),
{
    let e = i + dec_u(n).len();
    lemma_dec_u_digits(n);
    assert(forall|k: int| i <= k < e ==> is_digit(#[trigger] s[k])) by {
        assert(forall|k: int| i <= k < e ==> s[k] == dec_u(n)[k - i]);
    }
    lemma_digit_run_fixed(s, i, e);
    assert(s.subrange(i, e) == dec_u(n));
    lemma_dec_u_val(n);
}

/// Append the decimal digits of `n` to `out`.
pub fn push_dec_u64(out: &mut Vec<u8>, n: u64)
    ensures
        final(out)@ == old(out)@ + dec_u(n as nat),
    decreases n,
{
    if n < 10 {
        out.push(48 + n as u8);
        assert(out@ =~= old(out)@ + dec_u(n as nat));
    } else {
        push_dec_u64(out, n / 10);
        out.push(48 + (n % 10) as u8);
        assert(out@ =~= old(out)@ + dec_u(n as nat));
    }
}

/// Append the decimal representation of `n` to `out`, sign included.
pub fn push_dec_i64(out: &mut Vec<u8>, n: i64)
    requires
        n != i64::MIN,
    ensures
        final(out)@ == old(out)@ + dec_i(n as int),
{
    if n < 0 {
        out.push(45);
        push_dec_u64(out, (-n) as u64);
        assert(out@ =~= old(out)@ + dec_i(n as int));
    } else {
        push_dec_u64(out, n as u64);
    }
}

/// Read an optionally signed decimal number at position `i`, exactly as
/// `parse_i64` describes.
pub fn scan_i64(s: &Vec<u8>, i: usize) -> (r: Option<(i64, usize)>)
    requires
        i <= s.len(),
    ensures
        match r {
            Some(vj) => parse_i64(s@, i as int) == Some((vj.0 as int, vj.1 as int))
                && i < vj.1 <= s.len(),
            None => parse_i64(s@, i as int) is None,
        },
{
    let ghost s0 = s@;
    if i < s.len() && s[i] == 45 {
        match scan_u64_capped(s, i + 1) {
            Some(vj) => Some((-(vj.0 as i64), vj.1)),
            None => None,
        }
    } else {
        match scan_u64_capped(s, i) {
            Some(vj) => Some((vj.0 as i64, vj.1)),
            None => None,
        }
    }
}

/// Read a run of digits at `i` whose value is at most `i64::MAX`, exactly as
/// `parse_u` describes; `None` also when the full run's value is larger.
fn scan_u64_capped(s: &Vec<u8>, i: usize) -> (r: Option<(u64, usize)>)
    requires
        i <= s.len(),
    ensures
        match r {
            Some(vj) => parse_u(s@, i as int) == Some((vj.0 as int, vj.1 as int))
                && vj.0 <= i64::MAX as u64 && i < vj.1 <= s.len(),
            None => match parse_u(s@, i as int) {
                Some(vj) => vj.0 > i64::MAX as int,
                None => true,
            },
        },
{
    let ghost e = digit_run_end(s@, i as int);
    let mut k: usize = i;
    let mut acc: u64 = 0;
    let mut seen: bool = false;
    loop
        invariant
            i <= k <= s.len(),
            forall|t: int| i <= t < k ==> is_digit(#[trigger] s@[t]),
            digit_run_end(s@, i as int) == digit_run_end(s@, k as int),
            acc as int == digits_val(s@.subrange(i as int, k as int)),
            acc <= i64::MAX as u64,
            seen <==> k > i,
        decreases s.len() - k,
    {
        if k == s.len() || !(48 <= s[k] && s[k] <= 57) {
            proof {
                assert(digit_run_end(s@, k as int) == k);
            }
            if !seen {
                return None;
            }
            return Some((acc, k));
        }
        let d = (s[k] - 48) as u64;
        proof {
            lemma_digits_val_snoc(s@, i as int, k as int);
        }
        if acc > (9_223_372_036_854_775_807u64 - d) / 10 {
            proof {
                let j1 = k + 1;
                assert(digits_val(s@.subrange(i as int, j1 as int)) == acc * 10 + d);
                let cap = 9_223_372_036_854_775_807 - d;
                vstd::arithmetic::div_mod::lemma_fundamental_div_mod(cap as int, 10);
                assert(acc * 10 >= (cap / 10 + 1) * 10) by (nonlinear_arith)
                    requires acc >= cap / 10 + 1,
                ;
                assert((cap / 10 + 1) * 10 == (cap / 10) * 10 + 10);
                assert(acc * 10 + d > i64::MAX as int);
                let run = digit_run_end(s@, i as int);
                assert(digit_run_end(s@, j1 as int) == run);
                assert(j1 <= run <= s@.len()) by {
                    lemma_digit_run_in_range(s@, j1 as int);
                }
                assert(forall|t: int| i <= t < run ==> is_digit(#[trigger] s@[t])) by {
                    lemma_digit_run_all_digits(s@, i as int);
                }
                lemma_digits_val_mono(s@, i as int, j1 as int, run);
            }
            return None;
        }
        proof {
            let cap = 9_223_372_036_854_775_807 - d;
            vstd::arithmetic::div_mod::lemma_fundamental_div_mod(cap as int, 10);
            assert(acc * 10 <= (cap / 10) * 10) by (nonlinear_arith)
                requires acc <= cap / 10,
            ;
            assert(acc * 10 + d <= 9_223_372_036_854_775_807);
        }
        acc = acc * 10 + d;
        seen = true;
        k = k + 1;
        proof {
            assert(digit_run_end(s@, (k - 1) as int) == digit_run_end(s@, k as int));
        }
    }
}

/// Every byte of a sequence is a decimal digit.
pub open spec fn all_digits(s: Seq<u8>) -> bool {
    forall|i: int| 0 <= i < s.len() ==> is_digit(#[trigger] s[i])
}

/// The digit part of a typed number: everything after an optional leading
/// `+` or `-`.
pub open spec fn input_digits(s: Seq<u8>) -> Seq<u8> {
    if s.len() > 0 && (s[0] == 43 || s[0] == 45) {
        s.subrange(1, s.len() as int)
    } else {
        s
    }
}

/// Whether a typed number carries a leading minus sign.
pub open spec fn input_negative(s: Seq<u8>) -> bool {
    s.len() > 0 && s[0] == 45
}

/// The value of a typed buffer read as an `i32`: an optional single sign,
/// then one or more digits (leading zeros allowed), within `i32` range;
/// anything else is no number.
pub open spec fn parse_input_i32(s: Seq<u8>) -> Option<i32> {
    let ds = input_digits(s);
    if ds.len() == 0 || !all_digits(ds) {
        None
    } else {
        let v = if input_negative(s) {
            -digits_val(ds)
        } else {
            digits_val(ds)
        };
        if i32::MIN <= v <= i32::MAX {
            Some(v as i32)
        } else {
            None
        }
    }
}

/// Read a typed buffer as an `i32`, exactly as `parse_input_i32` describes.
pub fn try_parse_i32(s: &Vec<u8>) -> (r: Option<i32>)
    ensures
        r == parse_input_i32(s@),
{
    let ghost whole = s@;
    let mut start: usize = 0;
    let mut neg: bool = false;
    if s.len() > 0 && (s[0] == 43 || s[0] == 45) {
        neg = s[0] == 45;
        start = 1;
    }
    let ghost ds = input_digits(s@);
    proof {
        assert(ds =~= s@.subrange(start as int, s@.len() as int));
    }
    if start == s.len() {
        return None;
    }
    let mut k: usize = start;
    let mut acc: i64 = 0;
    while k < s.len()
        invariant
            start <= k <= s.len(),
            s@.len() > start,
            ds == s@.subrange(start as int, s@.len() as int),
            ds == input_digits(s@),
            neg == input_negative(s@),
            forall|t: int| start <= t < k ==> is_digit(#[trigger] s@[t]),
            acc == digits_val(s@.subrange(start as int, k as int)),
            0 <= acc <= 2_147_483_648,
        decreases s.len() - k,
    {
        if !(48 <= s[k] && s[k] <= 57) {
            proof {
                assert(!is_digit(ds[k - start]));
            }
            return None;
        }
        let d: i64 = (s[k] - 48) as i64;
        proof {
            lemma_digits_val_snoc(s@, start as int, k as int);
        }
        if acc > 2_147_483_648 / 10 || acc * 10 + d > 2_147_483_648 {
            proof {
                let j1 = k + 1;
                assert(digits_val(s@.subrange(start as int, j1 as int)) == acc * 10 + d);
                if acc > 2_147_483_648int / 10 {
                    assert(acc >= 214748365);
                    assert(acc * 10 >= 2147483650) by (nonlinear_arith)
                        requires acc >= 214748365,
                    ;
                }
                if all_digits(ds) {
                    assert(forall|t: int| start <= t < s@.len() ==> is_digit(#[trigger] s@[t]))
                        by {
                        assert(forall|t: int| start <= t < s@.len() ==> s@[t] == ds[t - start]);
                    }
                    lemma_digits_val_mono(s@, start as int, j1 as int, s@.len() as int);
                    assert(s@.subrange(start as int, s@.len() as int) == ds);
                    assert(digits_val(ds) > 2_147_483_648);
                }
            }
            return None;
        }
        acc = acc * 10 + d;
        k = k + 1;
    }
    proof {
        assert(s@.subrange(start as int, k as int) == ds);
        assert(all_digits(ds)) by {
            assert(forall|t: int| 0 <= t < ds.len() ==> ds[t] == s@[t + start]);
        }
    }
    if neg {
        let v: i64 = -acc;
        proof {
            assert(input_negative(s@));
        }
        if v < -2_147_483_648 {
            return None;
        }
        Some(v as i32)
    } else {
        proof {
            assert(!input_negative(s@));
        }
        if acc > 2_147_483_647 {
            return None;
        }
        Some(acc as i32)
    }
}

/// The end of a digit run lies between its start and the end of the sequence.
pub proof fn lemma_digit_run_in_range(s: Seq<u8>, i: int)
    requires
        0 <= i <= s.len(),
    ensures
        i <= digit_run_end(s, i) <= s.len(),
    decreases s.len() - i,
{
    if i < s.len() && is_digit(s[i]) {
        lemma_digit_run_in_range(s, i + 1);
    }
}

/// Every byte before the end of a digit run is a digit.
pub proof fn lemma_digit_run_all_digits(s: Seq<u8>, i: int)
    requires
        0 <= i <= s.len(),
    ensures
        forall|t: int| i <= t < digit_run_end(s, i) ==> is_digit(#[trigger] s[t]),
    decreases s.len() - i,
{
    if i < s.len() && is_digit(s[i]) {
        lemma_digit_run_all_digits(s, i + 1);
    }
}

} // verus!
