use vstd::prelude::*;
use vstd::slice::slice_subrange;
use crate::fixedpt::Q_ONE;

verus! {

/// Bytes of a piece of input text; all grammars of the crate are stated over
/// this encoding, so that any non-ASCII input falls out as a parse failure.
pub open spec fn text_bytes(s: Seq<char>) -> Seq<u8> {
    vstd::utf8::encode_utf8(s)
}

/// The byte sequence a `&str` hands to the parsers.
pub fn str_bytes(s: &str) -> (b: &[u8])
    ensures
        b@ == text_bytes(s@),
{
    s.as_bytes()
}

pub open spec fn is_digit(b: u8) -> bool {
    48 <= b && b <= 57
}

pub open spec fn all_digits(s: Seq<u8>) -> bool {
    forall|i: int| 0 <= i < s.len() ==> is_digit(#[trigger] s[i])
}

/// Value of a digit string read most-significant first.
pub open spec fn digits_val(s: Seq<u8>) -> int
    decreases s.len(),
{
    if s.len() == 0 {
        0
    } else {
        digits_val(s.drop_last()) * 10 + (s.last() - 48)
    }
}

pub open spec fn pow10(k: nat) -> int
    decreases k,
{
    if k == 0 {
        1
    } else {
        10 * pow10((k - 1) as nat)
    }
}

/// Index of the first occurrence of `t` in `s`, or `-1` when absent.
pub open spec fn find_byte(s: Seq<u8>, t: u8) -> int
    decreases s.len(),
{
    if s.len() == 0 {
        -1
    } else if s[0] == t {
        0
    } else if find_byte(s.drop_first(), t) == -1 {
        -1
    } else {
        find_byte(s.drop_first(), t) + 1
    }
}

pub proof fn lemma_find_byte(s: Seq<u8>, t: u8)
    ensures
        find_byte(s, t) == -1 ==> forall|i: int| 0 <= i < s.len() ==> s[i] != t,
        find_byte(s, t) != -1 ==> 0 <= find_byte(s, t) < s.len() && s[find_byte(s, t)] == t
            && forall|i: int| 0 <= i < find_byte(s, t) ==> s[i] != t,
    decreases s.len(),
{
    if s.len() == 0 {
    } else if s[0] == t {
    } else {
        lemma_find_byte(s.drop_first(), t);
        let f = find_byte(s.drop_first(), t);
        if f == -1 {
            assert forall|i: int| 0 <= i < s.len() implies s[i] != t by {
                if i > 0 {
                    assert(s[i] == s.drop_first()[i - 1]);
                }
            }
        } else {
            assert(s[f + 1] == s.drop_first()[f]);
            assert forall|i: int| 0 <= i < f + 1 implies s[i] != t by {
                if i > 0 {
                    assert(s[i] == s.drop_first()[i - 1]);
                }
            }
        }
    }
}

pub proof fn lemma_digits_val_bound(s: Seq<u8>)
    requires
        all_digits(s),
    ensures
        0 <= digits_val(s) < pow10(s.len()),
    decreases s.len(),
{
    if s.len() == 0 {
    } else {
        assert(all_digits(s.drop_last())) by {
            assert forall|i: int| 0 <= i < s.len() - 1 implies is_digit(#[trigger] s.drop_last()[i])
                by {
                assert(s.drop_last()[i] == s[i]);
            }
        }
        lemma_digits_val_bound(s.drop_last());
        assert(is_digit(s.last()));
    }
}

/// First occurrence of `t` in `s`, matching `find_byte`.
pub fn find_in(s: &[u8], t: u8) -> (r: Option<usize>)
    ensures
        (r matches Some(i) ==> find_byte(s@, t) == i as int),
        r is None ==> find_byte(s@, t) == -1,
{
    proof {
        lemma_find_byte(s@, t);
    }
    let n = s.len();
    let mut i: usize = 0;
    while i < n
        invariant
            n == s@.len(),
            0 <= i <= n,
            forall|j: int| 0 <= j < i ==> s@[j] != t,
            find_byte(s@, t) == -1 ==> forall|j: int| 0 <= j < s@.len() ==> s@[j] != t,
            find_byte(s@, t) != -1 ==> 0 <= find_byte(s@, t) < s@.len() && s@[find_byte(
                s@,
                t,
            )] == t && forall|j: int| 0 <= j < find_byte(s@, t) ==> s@[j] != t,
        decreases n - i,
    {
        if s[i] == t {
            return Some(i);
        }
        i += 1;
    }
    None
}

/// Scaled Q32.32 value of the fraction digits; only the first nine places
/// contribute (the tenth decimal place is already below the representable
/// resolution).
pub open spec fn frac_scaled(fp: Seq<u8>) -> int {
    let k: int = if fp.len() > 9 {
        9
    } else {
        fp.len() as int
    };
    digits_val(fp.take(k)) * (Q_ONE as int) / pow10(k as nat)
}

/// Value of a sign-stripped decimal numeral split at its point: Some exactly
/// when both parts are all digits, at least one digit is present, and the
/// whole part fits the supported range (at most ten digits, value at most
/// `2^31 - 1`).
pub open spec fn scaled_parts(neg: bool, ip: Seq<u8>, fp: Seq<u8>) -> Option<int> {
    if all_digits(ip) && all_digits(fp) && ip.len() + fp.len() >= 1 && ip.len() <= 10
        && digits_val(ip) <= 0x7fff_ffff {
        let mag = digits_val(ip) * (Q_ONE as int) + frac_scaled(fp);
        Some(
            if neg {
                -mag
            } else {
                mag
            },
        )
    } else {
        None
    }
}

/// Grammar of a free-form decimal numeral (`-`? digits (`.` digits)?) and its
/// Q32.32 value.
pub open spec fn parse_scaled_spec(s: Seq<u8>) -> Option<int> {
    let neg = s.len() > 0 && s[0] == 45;
    let b = if neg {
        s.drop_first()
    } else {
        s
    };
    let di = find_byte(b, 46);
    if di == -1 {
        scaled_parts(neg, b, Seq::empty())
    } else {
        scaled_parts(neg, b.take(di), b.skip(di + 1))
    }
}

fn pow10_u64(k: usize) -> (r: u64)
    requires
        k <= 9,
    ensures
        r as int == pow10(k as nat),
        1 <= r <= 1000000000,
{
    proof {
        reveal_with_fuel(pow10, 11);
    }
    match k {
        0 => 1,
        1 => 10,
        2 => 100,
        3 => 1000,
        4 => 10000,
        5 => 100000,
        6 => 1000000,
        7 => 10000000,
        8 => 100000000,
        _ => 1000000000,
    }
}

/// Magnitude of a numeral already split into whole and fraction digit runs.
fn parse_mag(ip: &[u8], fp: &[u8]) -> (r: Option<i64>)
    ensures
        r is Some <==> scaled_parts(false, ip@, fp@) is Some,
        (r matches Some(v) ==> scaled_parts(false, ip@, fp@) == Some(v as int) && 0 <= v),
{
    if ip.len() > 10 {
        return None;
    }
    if ip.len() == 0 && fp.len() == 0 {
        return None;
    }
    proof {
        reveal_with_fuel(pow10, 12);
    }
    let mut acc: u64 = 0;
    let mut i: usize = 0;
    while i < ip.len()
        invariant
            0 <= i <= ip@.len() <= 10,
            all_digits(ip@.take(i as int)),
            acc as int == digits_val(ip@.take(i as int)),
            (acc as int) < pow10(i as nat),
            pow10(10) == 10000000000,
        decreases ip@.len() - i,
    {
        let bch = ip[i];
        if bch < 48 || bch > 57 {
            assert(!is_digit(ip@[i as int]));
            return None;
        }
        proof {
            assert(ip@.take(i as int + 1).drop_last() =~= ip@.take(i as int));
            assert(ip@.take(i as int + 1).last() == ip@[i as int]);
            assert(pow10((i + 1) as nat) == 10 * pow10(i as nat));
            assert(pow10(i as nat) <= pow10(9)) by {
                reveal_with_fuel(pow10, 12);
                assert(pow10(0) <= pow10(9) && pow10(1) <= pow10(9) && pow10(2) <= pow10(9)
                    && pow10(3) <= pow10(9) && pow10(4) <= pow10(9) && pow10(5) <= pow10(9)
                    && pow10(6) <= pow10(9) && pow10(7) <= pow10(9) && pow10(8) <= pow10(9));
            }
        }
        acc = acc * 10 + (bch - 48) as u64;
        i += 1;
    }
    proof {
        assert(ip@.take(ip@.len() as int) =~= ip@);
    }
    if acc > 0x7fff_ffff {
        return None;
    }
    let mut fa: u64 = 0;
    let mut j: usize = 0;
    while j < fp.len()
        invariant
            0 <= j <= fp@.len(),
            all_digits(fp@.take(j as int)),
            fa as int == digits_val(fp@.take(if j > 9 { 9int } else { j as int })),
            (fa as int) < pow10(if j > 9 { 9nat } else { j as nat }),
            pow10(9) == 1000000000,
        decreases fp@.len() - j,
    {
        let bch = fp[j];
        if bch < 48 || bch > 57 {
            assert(!is_digit(fp@[j as int]));
            return None;
        }
        if j < 9 {
            proof {
                assert(fp@.take(j as int + 1).drop_last() =~= fp@.take(j as int));
                assert(fp@.take(j as int + 1).last() == fp@[j as int]);
                assert(pow10((j + 1) as nat) == 10 * pow10(j as nat));
                assert(pow10(j as nat) <= pow10(9)) by {
                    reveal_with_fuel(pow10, 12);
                    assert(pow10(0) <= pow10(9) && pow10(1) <= pow10(9) && pow10(2) <= pow10(9)
                        && pow10(3) <= pow10(9) && pow10(4) <= pow10(9) && pow10(5) <= pow10(9)
                        && pow10(6) <= pow10(9) && pow10(7) <= pow10(9) && pow10(8) <= pow10(9));
                }
            }
            fa = fa * 10 + (bch - 48) as u64;
        } else {
            proof {
                assert(fp@.take(if (j + 1) > 9 { 9int } else { (j + 1) as int }) =~= fp@.take(
                    if j > 9 { 9int } else { j as int },
                ));
            }
        }
        j += 1;
    }
    proof {
        assert(fp@.take(fp@.len() as int) =~= fp@);
    }
    let k: usize = if fp.len() > 9 {
        9
    } else {
        fp.len()
    };
    let p10: u64 = pow10_u64(k);
    let fq: u64 = fa * 0x1_0000_0000u64 / p10;
    proof {
        vstd::arithmetic::mul::lemma_mul_strict_inequality(fa as int, pow10(k as nat), Q_ONE as int);
        vstd::arithmetic::div_mod::lemma_multiply_divide_lt(
            fa as int * (Q_ONE as int),
            pow10(k as nat),
            Q_ONE as int,
        );
        vstd::arithmetic::div_mod::lemma_div_pos_is_pos(fa as int * (Q_ONE as int), pow10(k as nat));
        assert(0 <= fa as int * (Q_ONE as int)) by (nonlinear_arith)
            requires
                0 <= fa,
        ;
    }
    let v: i64 = (acc as i64) * Q_ONE + (fq as i64);
    Some(v)
}

/// Free-form decimal numeral to Q32.32, matching `parse_scaled_spec`.
pub fn parse_scaled(s: &[u8]) -> (r: Option<i64>)
    ensures
        r is Some <==> parse_scaled_spec(s@) is Some,
        (r matches Some(v) ==> parse_scaled_spec(s@) == Some(v as int) && -i64::MAX <= v),
{
    let neg = s.len() > 0 && s[0] == 45;
    let b: &[u8] = if neg {
        slice_subrange(s, 1, s.len())
    } else {
        s
    };
    proof {
        if neg {
            assert(b@ =~= s@.drop_first());
        }
        lemma_find_byte(b@, 46);
    }
    let dot = find_in(b, 46);
    let m: Option<i64> = match dot {
        None => {
            let fp: &[u8] = slice_subrange(b, b.len(), b.len());
            proof {
                assert(fp@ =~= Seq::<u8>::empty());
            }
            parse_mag(b, fp)
        },
        Some(i) => {
            let ip: &[u8] = slice_subrange(b, 0, i);
            let fp: &[u8] = slice_subrange(b, i + 1, b.len());
            proof {
                assert(ip@ =~= b@.take(i as int));
                assert(fp@ =~= b@.skip(i as int + 1));
            }
            parse_mag(ip, fp)
        },
    };
    match m {
        None => None,
        Some(v) => Some(
            if neg {
                -v
            } else {
                v
            },
        ),
    }
}

/// Grammar of a station numeral: either a plain decimal numeral, or the
/// surveying notation `<stations>+<offset>` whose value is
/// `stations * 100 + offset`.
pub open spec fn parse_station_spec(s: Seq<u8>) -> Option<int> {
    let pi = find_byte(s, 43);
    if pi == -1 {
        parse_scaled_spec(s)
    } else {
        match (parse_scaled_spec(s.take(pi)), parse_scaled_spec(s.skip(pi + 1))) {
            (Some(l), Some(r)) => {
                let v = l * 100 + r;
                if i64::MIN <= v <= i64::MAX {
                    Some(v)
                } else {
                    None
                }
            },
            _ => None,
        }
    }
}

/// Station numeral to Q32.32, matching `parse_station_spec`.
pub fn parse_station(s: &[u8]) -> (r: Option<i64>)
    ensures
        r is Some <==> parse_station_spec(s@) is Some,
        (r matches Some(v) ==> parse_station_spec(s@) == Some(v as int)),
{
    proof {
        lemma_find_byte(s@, 43);
    }
    match find_in(s, 43) {
        None => parse_scaled(s),
        Some(i) => {
            let n = s.len();
            let lp: &[u8] = slice_subrange(s, 0, i);
            let rp: &[u8] = slice_subrange(s, i + 1, n);
            proof {
                assert(lp@ =~= s@.take(i as int));
                assert(rp@ =~= s@.skip(i as int + 1));
            }
            match (parse_scaled(lp), parse_scaled(rp)) {
                (Some(l), Some(r)) => {
                    let v: i128 = (l as i128) * 100 + (r as i128);
                    if -0x8000_0000_0000_0000i128 <= v && v <= 0x7fff_ffff_ffff_ffffi128 {
                        Some(v as i64)
                    } else {
                        None
                    }
                },
                _ => None,
            }
        },
    }
}

} // verus!
