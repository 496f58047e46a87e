//! Decimal rendering and parsing of integers over raw bytes.
//!
//! Verification records are persisted as `code:expiry` byte strings, so
//! the expiry timestamp has to be printed and re-read in decimal. The
//! parser accepts exactly what `i64::from_str` accepts: an optional
//! sign followed by one or more digits, within the `i64` range.

use vstd::prelude::*;

verus! {

/// An ASCII decimal digit byte.
pub open spec fn is_digit_byte(b: u8) -> bool {
    48 <= b <= 57
}

/// All bytes of `s` are decimal digits.
pub open spec fn all_digit_bytes(s: Seq<u8>) -> bool {
    forall|i: int| 0 <= i < s.len() ==> is_digit_byte(#[trigger] s[i])
}

/// Decimal digit bytes of a natural number, most significant first.
pub open spec fn dec_u64(n: nat) -> Seq<u8>
    decreases n,
{
    if n < 10 {
        seq![(48 + n) as u8]
    } else {
        dec_u64(n / 10) + seq![(48 + n % 10) as u8]
    }
}

/// Decimal rendering of an integer, with a leading `-` when negative.
pub open spec fn dec_i64(n: int) -> Seq<u8> {
    if n >= 0 {
        dec_u64(n as nat)
    } else {
        seq![45u8] + dec_u64((-n) as nat)
    }
}

/// Numeric value of a digit-byte string (most significant first).
pub open spec fn dec_val(s: Seq<u8>) -> int
    decreases s.len(),
{
    if s.len() == 0 {
        0
    } else {
        dec_val(s.drop_last()) * 10 + (s.last() - 48)
    }
}

/// What `i64::from_str` returns on these bytes: an optional `+` or `-`
/// sign, then at least one digit, and the value must fit in `i64`.
pub open spec fn parse_i64_spec(s: Seq<u8>) -> Option<int> {
    if s.len() == 0 {
        None
    } else if s[0] == 43 || s[0] == 45 {
        let rest = s.skip(1);
        if rest.len() == 0 || !all_digit_bytes(rest) {
            None
        } else {
            let v = if s[0] == 45 {
                -dec_val(rest)
            } else {
                dec_val(rest)
            };
            if i64::MIN <= v <= i64::MAX {
                Some(v)
            } else {
                None
            }
        }
    } else if all_digit_bytes(s) {
        if dec_val(s) <= i64::MAX {
            Some(dec_val(s))
        } else {
            None
        }
    } else {
        None
    }
}

pub proof fn lemma_dec_val_nonneg(s: Seq<u8>)
    requires
        all_digit_bytes(s),
    ensures
        dec_val(s) >= 0,
    decreases s.len(),
{
    if s.len() > 0 {
        assert(all_digit_bytes(s.drop_last()));
        lemma_dec_val_nonneg(s.drop_last());
    }
}

/// The rendering of a natural number is nonempty, made of digits, and
/// reads back to the same value.
pub proof fn lemma_dec_u64_val(n: nat)
    ensures
        dec_u64(n).len() >= 1,
        all_digit_bytes(dec_u64(n)),
        dec_val(dec_u64(n)) == n,
    decreases n,
{
    if n < 10 {
        assert(dec_u64(n) =~= seq![(48 + n) as u8]);
        assert(dec_u64(n).drop_last() =~= Seq::<u8>::empty());
        assert(dec_val(dec_u64(n)) == dec_val(Seq::<u8>::empty()) * 10 + ((48 + n) as u8 - 48));
    } else {
        lemma_dec_u64_val(n / 10);
        let t = dec_u64(n / 10);
        let whole = t + seq![(48 + n % 10) as u8];
        assert(dec_u64(n) == whole);
        assert(whole.drop_last() =~= t);
        assert(whole.last() == (48 + n % 10) as u8);
        assert(dec_val(whole) == dec_val(t) * 10 + (whole.last() - 48));
        assert((48 + n % 10) as u8 - 48 == n % 10);
        assert(n / 10 * 10 + n % 10 == n) by {
            vstd::arithmetic::div_mod::lemma_fundamental_div_mod(n as int, 10);
        };
        assert(forall|i: int|
            0 <= i < whole.len() ==> is_digit_byte(#[trigger] whole[i])) by {
            assert(forall|i: int| 0 <= i < t.len() ==> #[trigger] whole[i] == t[i]);
        };
    }
}

/// Appending digits never shrinks the value.
pub proof fn lemma_dec_val_prefix(s: Seq<u8>, k: int)
    requires
        all_digit_bytes(s),
        0 <= k <= s.len(),
    ensures
        dec_val(s) >= dec_val(s.take(k)),
    decreases s.len() - k,
{
    if k < s.len() {
        lemma_dec_val_prefix(s, k + 1);
        let t = s.take(k + 1);
        assert(t.drop_last() =~= s.take(k));
        assert(all_digit_bytes(s.take(k))) by {
            assert(forall|i: int| 0 <= i < k ==> s.take(k)[i] == s[i]);
        };
        lemma_dec_val_nonneg(s.take(k));
        assert(t.last() == s[k]);
        assert(is_digit_byte(s[k]));
        assert(dec_val(t) == dec_val(s.take(k)) * 10 + (s[k] - 48));
        assert(dec_val(t) >= dec_val(s.take(k)));
    } else {
        assert(s.take(k) =~= s);
    }
}

/// Appends the decimal digits of `n`.
pub fn push_dec_u64(out: &mut Vec<u8>, n: u64)
    ensures
        final(out)@ == old(out)@ + dec_u64(n as nat),
    decreases n,
{
    if n >= 10 {
        push_dec_u64(out, n / 10);
    }
    let d: u8 = (n % 10) as u8 + 48;
    out.push(d);
    proof {
        if n < 10 {
            assert(final(out)@ =~= old(out)@ + dec_u64(n as nat));
        } else {
            assert(final(out)@ =~= old(out)@ + (dec_u64((n / 10) as nat) + seq![
                (48 + (n as nat) % 10) as u8,
            ]));
        }
    }
}

/// Appends the decimal rendering of `n`, sign included.
pub fn push_dec_i64(out: &mut Vec<u8>, n: i64)
    ensures
        final(out)@ == old(out)@ + dec_i64(n as int),
{
    if n >= 0 {
        push_dec_u64(out, n as u64);
    } else {
        out.push(45);
        let m: u64 = ((-(n + 1)) as u64) + 1;
        assert(m as nat == (-(n as int)) as nat);
        let ghost mid = out@;
        push_dec_u64(out, m);
        proof {
            assert(final(out)@ =~= old(out)@ + (seq![45u8] + dec_u64(m as nat)));
        }
    }
}

/// Parses `v[start..end]` as a decimal `i64`, exactly as the standard
/// integer parser would.
#[verifier::loop_isolation(false)]
pub fn parse_i64_range(v: &[u8], start: usize, end: usize) -> (r: Option<i64>)
    requires
        start <= end <= v@.len(),
    ensures
        ({
            let p = parse_i64_spec(v@.subrange(start as int, end as int));
            match r {
                Some(x) => p == Some(x as int),
                None => p is None,
            }
        }),
{
    let ghost s = v@.subrange(start as int, end as int);
    if start == end {
        return None;
    }
    let first = v[start];
    let neg: bool = first == 45;
    let digs_start: usize = if first == 43 || first == 45 {
        start + 1
    } else {
        start
    };
    proof {
        if digs_start > start {
            assert(s.skip(1) =~= v@.subrange(digs_start as int, end as int));
        }
    }
    if digs_start == end {
        // a bare sign, or nothing after it
        return None;
    }
    let limit: u64 = if neg {
        9223372036854775808
    } else {
        9223372036854775807
    };
    let ghost digs = v@.subrange(digs_start as int, end as int);
    let mut acc: u64 = 0;
    let mut i: usize = digs_start;
    while i < end
        invariant
            digs_start <= i <= end <= v@.len(),
            digs == v@.subrange(digs_start as int, end as int),
            all_digit_bytes(v@.subrange(digs_start as int, i as int)),
            acc as int == dec_val(v@.subrange(digs_start as int, i as int)),
            acc <= limit,
            limit == if neg { 9223372036854775808u64 } else { 9223372036854775807u64 },
        decreases end - i,
    {
        let b = v[i];
        if !(48 <= b && b <= 57) {
            proof {
                if digs_start > start {
                    assert(!all_digit_bytes(s.skip(1))) by {
                        assert(s.skip(1)[i - digs_start] == b);
                    };
                } else {
                    if s[0] == 43 || s[0] == 45 {
                        assert(false);
                    }
                    assert(!all_digit_bytes(s)) by {
                        assert(s[i - start] == b);
                    };
                }
            }
            return None;
        }
        let d: u64 = (b - 48) as u64;
        let ghost pre = v@.subrange(digs_start as int, i as int);
        proof {
            let cur = v@.subrange(digs_start as int, i + 1);
            assert(cur.drop_last() =~= pre);
            assert(cur.last() == b);
        }
        if acc > (limit - d) / 10 {
            // the digits read so far already exceed the i64 range
            proof {
                assert(acc * 10 + d > limit) by (nonlinear_arith)
                    requires
                        acc > (limit - d) / 10,
                        d <= limit,
                        limit >= 10,
                ;
                let cur = v@.subrange(digs_start as int, i + 1);
                if all_digit_bytes(digs) {
                    assert(cur =~= digs.take(i + 1 - digs_start));
                    lemma_dec_val_prefix(digs, i + 1 - digs_start);
                    assert(dec_val(digs) > limit);
                    if digs_start > start {
                        assert(s.skip(1) == digs);
                    } else {
                        assert(s == digs);
                        if s[0] == 43 || s[0] == 45 {
                            assert(false);
                        }
                    }
                } else {
                    if digs_start > start {
                        assert(s.skip(1) == digs);
                    } else {
                        assert(s == digs);
                        if s[0] == 43 || s[0] == 45 {
                            assert(is_digit_byte(s[0]));
                            assert(false);
                        }
                    }
                }
            }
            return None;
        }
        proof {
            assert(acc * 10 + d <= limit) by (nonlinear_arith)
                requires
                    acc <= (limit - d) / 10,
                    d <= limit,
            ;
        }
        acc = acc * 10 + d;
        i += 1;
    }
    proof {
        assert(v@.subrange(digs_start as int, end as int) =~= digs);
        lemma_dec_val_nonneg(digs);
        if digs_start > start {
            assert(s.skip(1) == digs);
            assert(s[0] == first);
        } else {
            assert(s == digs);
            assert(s[0] == first);
            assert(!(s[0] == 43 || s[0] == 45)) by {
                assert(is_digit_byte(s[0]));
            };
        }
    }
    if neg {
        if acc == 9223372036854775808 {
            Some(i64::MIN)
        } else {
            Some(-(acc as i64))
        }
    } else {
        Some(acc as i64)
    }
}

} // verus!
