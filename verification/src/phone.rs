//! Phone-number normalization.
//!
//! Identities are keyed by normalized phone numbers, so issuance and
//! verification must agree on one normalization function: keep the
//! decimal digits, then apply a country-code heuristic.

use vstd::prelude::*;

verus! {

/// An ASCII decimal digit.
pub open spec fn is_digit_char(c: char) -> bool {
    48 <= c as u32 <= 57
}

/// The decimal digits of `s`, in order, everything else dropped.
pub open spec fn digits_of(s: Seq<char>) -> Seq<char> {
    s.filter(|c: char| is_digit_char(c))
}

/// Normalized form of a raw identity string: its digits with a
/// country-code heuristic. Eleven digits led by `1` get a bare `+`,
/// ten digits not led by `1` get `+1`, anything else a bare `+`.
pub open spec fn norm_spec(s: Seq<char>) -> Seq<char> {
    let d = digits_of(s);
    if d.len() == 11 && d[0] == '1' {
        seq!['+'] + d
    } else if d.len() == 10 && d[0] != '1' {
        seq!['+', '1'] + d
    } else {
        seq!['+'] + d
    }
}

/// Chars the normalizer can emit: `+` and the digits.
pub open spec fn is_norm_char(c: char) -> bool {
    c == '+' || is_digit_char(c)
}

/// Every char of a normalized identity is `+` or a digit; in
/// particular the output is ASCII.
pub proof fn lemma_norm_chars(s: Seq<char>)
    ensures
        forall|i: int|
            0 <= i < norm_spec(s).len() ==> is_norm_char(#[trigger] norm_spec(s)[i]),
        norm_spec(s).len() >= 1,
        norm_spec(s)[0] == '+',
{
    broadcast use vstd::seq_lib::group_filter_ensures;

    let d = digits_of(s);
    assert(forall|i: int| 0 <= i < d.len() ==> is_digit_char(#[trigger] d[i]));
}

/// Appends one normalization-alphabet char to a string. The chars of
/// this alphabet are ASCII, which the contract records so that callers
/// can relate the built string to its UTF-8 bytes.
pub(crate) fn push_norm_char(out: &mut String, c: char)
    requires
        is_norm_char(c),
    ensures
        final(out)@ == old(out)@ + seq![c],
        '\0' <= c <= '\u{7f}',
{
    match c {
        '+' => {
            proof { reveal_strlit("+"); }
            out.append("+");
        },
        '0' => {
            proof { reveal_strlit("0"); }
            out.append("0");
        },
        '1' => {
            proof { reveal_strlit("1"); }
            out.append("1");
        },
        '2' => {
            proof { reveal_strlit("2"); }
            out.append("2");
        },
        '3' => {
            proof { reveal_strlit("3"); }
            out.append("3");
        },
        '4' => {
            proof { reveal_strlit("4"); }
            out.append("4");
        },
        '5' => {
            proof { reveal_strlit("5"); }
            out.append("5");
        },
        '6' => {
            proof { reveal_strlit("6"); }
            out.append("6");
        },
        '7' => {
            proof { reveal_strlit("7"); }
            out.append("7");
        },
        '8' => {
            proof { reveal_strlit("8"); }
            out.append("8");
        },
        _ => {
            proof { reveal_strlit("9"); }
            assert(c == '9') by {
                assert(48 <= c as u32 <= 57);
            };
            out.append("9");
        },
    }
    assert(final(out)@ =~= old(out)@ + seq![c]);
    assert('\0' <= c <= '\u{7f}') by {
        if c != '+' {
            assert(48 <= c as u32 <= 57);
        }
    };
}

/// Collects the decimal digits of `phone`, in order.
fn collect_digits(phone: &str) -> (digits: Vec<char>)
    ensures
        digits@ == digits_of(phone@),
        forall|i: int| 0 <= i < digits@.len() ==> is_digit_char(#[trigger] digits@[i]),
{
    broadcast use vstd::seq_lib::group_filter_ensures;

    let n = phone.unicode_len();
    let mut digits: Vec<char> = Vec::new();
    let mut i: usize = 0;
    while i < n
        invariant
            n == phone@.len(),
            0 <= i <= n,
            digits@ == phone@.take(i as int).filter(|c: char| is_digit_char(c)),
        decreases n - i,
    {
        let c = phone.get_char(i);
        proof {
            assert(phone@.take(i + 1).drop_last() =~= phone@.take(i as int));
            assert(phone@.take(i + 1).last() == c);
            reveal(Seq::filter);
        }
        let u = c as u32;
        if 48 <= u && u <= 57 {
            digits.push(c);
        }
        i += 1;
    }
    proof {
        assert(phone@.take(n as int) =~= phone@);
    }
    digits
}

/// Normalizes a raw phone number: strips non-digits, then applies the
/// country-code heuristic of `norm_spec`.
#[verifier::loop_isolation(false)]
pub fn normalize_phone(phone: &str) -> (r: String)
    ensures
        r@ == norm_spec(phone@),
        forall|i: int| 0 <= i < r@.len() ==> is_norm_char(#[trigger] r@[i]),
        vstd::utf8::is_ascii_chars(r@),
{
    let digits = collect_digits(phone);
    let mut out = String::new();
    proof {
        assert(vstd::utf8::is_ascii_chars(out@));
    }
    let ghost before = out@;
    push_norm_char(&mut out, '+');
    proof {
        crate::text::lemma_ascii_push(before, out@, '+');
    }
    if digits.len() == 10 && digits[0] != '1' {
        let ghost before = out@;
        push_norm_char(&mut out, '1');
        proof {
            crate::text::lemma_ascii_push(before, out@, '1');
        }
    }
    let ghost prefix = out@;
    let mut i: usize = 0;
    while i < digits.len()
        invariant
            out@ == prefix + digits@.take(i as int),
            0 <= i <= digits@.len(),
            vstd::utf8::is_ascii_chars(out@),
        decreases digits@.len() - i,
    {
        let ghost before = out@;
        push_norm_char(&mut out, digits[i]);
        proof {
            assert(prefix + digits@.take(i + 1) =~= (prefix + digits@.take(i as int)) + seq![
                digits@[i as int],
            ]);
            crate::text::lemma_ascii_push(before, out@, digits@[i as int]);
        }
        i += 1;
    }
    proof {
        assert(digits@.take(digits@.len() as int) =~= digits@);
        assert(out@ =~= norm_spec(phone@));
        lemma_norm_chars(phone@);
    }
    out
}

} // verus!
