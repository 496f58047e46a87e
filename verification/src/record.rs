//! The persisted verification-record format.
//!
//! A record is stored as `code:expiry`: the code bytes, one `:` (byte
//! 58), and the expiry timestamp in decimal. Reading a record splits on
//! the colon — a value without exactly one colon is no record — and an
//! expiry that does not parse counts as 0, which lies in the past for
//! any non-negative clock.

use vstd::prelude::*;
use crate::numerals::dec_i64;
use crate::numerals::dec_u64;
use crate::numerals::is_digit_byte;
use crate::numerals::all_digit_bytes;
use crate::numerals::parse_i64_spec;
use crate::numerals::parse_i64_range;
use crate::numerals::push_dec_i64;
use crate::numerals::lemma_dec_u64_val;

verus! {

/// The stored form of a record: code, colon, decimal expiry.
pub open spec fn record_value(code: Seq<u8>, expiry: int) -> Seq<u8> {
    code + seq![58u8] + dec_i64(expiry)
}

/// Byte `i` of `v` is the colon separator.
pub open spec fn colon_at(v: Seq<u8>, i: int) -> bool {
    0 <= i < v.len() && v[i] == 58
}

/// `v` holds exactly one colon.
pub open spec fn single_colon(v: Seq<u8>) -> bool {
    exists|i: int| colon_at(v, i) && (forall|j: int| colon_at(v, j) ==> j == i)
}

/// The position of the sole colon of `v` (meaningful under `single_colon`).
pub open spec fn colon_index(v: Seq<u8>) -> int {
    choose|i: int| colon_at(v, i) && (forall|j: int| colon_at(v, j) ==> j == i)
}

/// Splits a stored value into code and expiry parts, if it is a record.
pub open spec fn split_record(v: Seq<u8>) -> Option<(Seq<u8>, Seq<u8>)> {
    if single_colon(v) {
        let i = colon_index(v);
        Some((v.take(i), v.skip(i + 1)))
    } else {
        None
    }
}

/// The expiry read from the second part; what does not parse counts as 0.
pub open spec fn stored_expiry(e: Seq<u8>) -> int {
    match parse_i64_spec(e) {
        Some(x) => x,
        None => 0,
    }
}

/// Whether presenting `code` at time `now` matches the stored value `v`:
/// `v` is a record, its code part equals `code` exactly, and `now` lies
/// strictly before its expiry.
pub open spec fn record_matches(v: Seq<u8>, code: Seq<u8>, now: int) -> bool {
    match split_record(v) {
        Some((c, e)) => c == code && now < stored_expiry(e),
        None => false,
    }
}

/// A freshly encoded record splits back into exactly its code and
/// expiry, provided the code itself holds no colon.
pub proof fn lemma_record_round_trip(code: Seq<u8>, expiry: int)
    requires
        forall|i: int| 0 <= i < code.len() ==> code[i] != 58,
        i64::MIN <= expiry <= i64::MAX,
    ensures
        split_record(record_value(code, expiry)) == Some((code, dec_i64(expiry))),
        stored_expiry(dec_i64(expiry)) == expiry,
{
    let v = record_value(code, expiry);
    let ci = code.len() as int;
    let e = dec_i64(expiry);
    if expiry >= 0 {
        lemma_dec_u64_val(expiry as nat);
    } else {
        lemma_dec_u64_val((-expiry) as nat);
        assert(forall|i: int| 1 <= i < e.len() ==> is_digit_byte(#[trigger] e[i])) by {
            let d = dec_u64((-expiry) as nat);
            assert(forall|i: int| 1 <= i < e.len() ==> e[i] == d[i - 1]);
        };
    }
    assert(forall|i: int| 0 <= i < e.len() ==> e[i] != 58);
    assert(v[ci] == 58);
    assert(colon_at(v, ci));
    assert(forall|j: int| colon_at(v, j) ==> j == ci) by {
        assert(forall|j: int| 0 <= j < ci ==> v[j] == code[j]);
        assert(forall|j: int| ci < j < v.len() ==> v[j] == e[j - ci - 1]);
    };
    assert(single_colon(v));
    let w = colon_index(v);
    assert(colon_at(v, w) && (forall|j: int| colon_at(v, j) ==> j == w));
    assert(w == ci);
    assert(v.take(ci) =~= code);
    assert(v.skip(ci + 1) =~= e);
    // the expiry part parses back to the same value
    if expiry >= 0 {
        assert(is_digit_byte(e[0]));
        assert(e[0] != 43 && e[0] != 45);
        assert(all_digit_bytes(e));
        assert(parse_i64_spec(e) == Some(expiry));
    } else {
        assert(e[0] == 45);
        let rest = e.skip(1);
        assert(rest =~= dec_u64((-expiry) as nat));
        assert(all_digit_bytes(rest));
        assert(rest.len() >= 1);
        assert(parse_i64_spec(e) == Some(expiry));
    }
}

/// Finds the position of the sole colon of `v`, or `None` when `v` does
/// not hold exactly one.
pub fn find_single_colon(v: &[u8]) -> (r: Option<usize>)
    ensures
        match r {
            Some(i) => single_colon(v@) && i == colon_index(v@),
            None => !single_colon(v@),
        },
{
    let n = v.len();
    let mut first: Option<usize> = None;
    let mut i: usize = 0;
    while i < n
        invariant
            n == v@.len(),
            0 <= i <= n,
            match first {
                None => forall|j: int| 0 <= j < i ==> v@[j] != 58,
                Some(f) => colon_at(v@, f as int) && f < i && (forall|j: int|
                    0 <= j < i && v@[j] == 58 ==> j == f),
            },
        decreases n - i,
    {
        if v[i] == 58 {
            match first {
                None => {
                    first = Some(i);
                },
                Some(f) => {
                    proof {
                        assert(!single_colon(v@)) by {
                            if single_colon(v@) {
                                let c = choose|c: int|
                                    colon_at(v@, c) && (forall|j: int| colon_at(v@, j) ==> j == c);
                                assert(colon_at(v@, f as int));
                                assert(colon_at(v@, i as int));
                                assert(f as int == c && i as int == c);
                            }
                        };
                    }
                    return None;
                },
            }
        }
        i += 1;
    }
    match first {
        None => {
            proof {
                assert(!single_colon(v@)) by {
                    if single_colon(v@) {
                        let c = choose|c: int|
                            colon_at(v@, c) && (forall|j: int| colon_at(v@, j) ==> j == c);
                        assert(v@[c] != 58);
                    }
                };
            }
            None
        },
        Some(f) => {
            proof {
                assert(colon_at(v@, f as int) && (forall|j: int| colon_at(v@, j) ==> j == f));
                assert(single_colon(v@));
                let c = colon_index(v@);
                assert(colon_at(v@, c) && (forall|j: int| colon_at(v@, j) ==> j == c));
                assert(c == f);
            }
            Some(f)
        },
    }
}

/// Compares `a` with `v[start..end]` byte for byte.
#[verifier::loop_isolation(false)]
pub fn bytes_eq_range(a: &[u8], v: &[u8], start: usize, end: usize) -> (r: bool)
    requires
        start <= end <= v@.len(),
    ensures
        r == (a@ == v@.subrange(start as int, end as int)),
{
    let ghost sub = v@.subrange(start as int, end as int);
    if a.len() != end - start {
        proof {
            assert(a@.len() != sub.len());
        }
        return false;
    }
    let mut i: usize = 0;
    while i < a.len()
        invariant
            start <= end <= v@.len(),
            a@.len() == end - start,
            0 <= i <= a@.len(),
            forall|j: int| 0 <= j < i ==> a@[j] == v@[start + j],
        decreases a@.len() - i,
    {
        if a[i] != v[start + i] {
            proof {
                assert(sub[i as int] == v@[start + i]);
                assert(a@ != sub);
            }
            return false;
        }
        i += 1;
    }
    proof {
        assert(a@ =~= sub);
    }
    true
}

/// Encodes a record: the code bytes, a colon, the decimal expiry.
pub fn encode_record(code: &[u8], expiry: i64) -> (r: Vec<u8>)
    ensures
        r@ == record_value(code@, expiry as int),
{
    let mut out = vstd::slice::slice_to_vec(code);
    out.push(58);
    push_dec_i64(&mut out, expiry);
    proof {
        assert(out@ =~= record_value(code@, expiry as int));
    }
    out
}

} // verus!
