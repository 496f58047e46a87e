//! Small string utilities shared by the authentication logic.

use vstd::prelude::*;
use vstd::utf8::is_ascii_chars;

verus! {

/// The chars of an ASCII sequence read as bytes, one each. For an
/// ASCII string this equals its UTF-8 bytes (`is_ascii_spec_bytes`).
pub open spec fn ascii_bytes(s: Seq<char>) -> Seq<u8> {
    Seq::new(s.len(), |i: int| s[i] as u8)
}

/// Appending an ASCII char to an ASCII sequence keeps it ASCII.
pub proof fn lemma_ascii_push(s: Seq<char>, t: Seq<char>, c: char)
    requires
        is_ascii_chars(s),
        t == s + seq![c],
        '\0' <= c <= '\u{7f}',
    ensures
        is_ascii_chars(t),
{
    assert forall|i| 0 <= i < t.len() implies '\0' <= #[trigger] t[i] <= '\u{7f}' by {
        if i < s.len() {
            assert(t[i] == s[i]);
        } else {
            assert(t[i] == c);
        }
    }
}

/// Compares two strings char for char.
#[verifier::loop_isolation(false)]
pub fn str_eq(a: &str, b: &str) -> (r: bool)
    ensures
        r == (a@ == b@),
{
    let na = a.unicode_len();
    let nb = b.unicode_len();
    if na != nb {
        return false;
    }
    let mut i: usize = 0;
    while i < na
        invariant
            0 <= i <= na,
            forall|j: int| 0 <= j < i ==> a@[j] == b@[j],
        decreases na - i,
    {
        if a.get_char(i) != b.get_char(i) {
            return false;
        }
        i += 1;
    }
    proof {
        assert(a@ =~= b@);
    }
    true
}

} // verus!
