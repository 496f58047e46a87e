//! Code issuance and verification.
//!
//! `issue_code` stores a time-boxed one-time code under the normalized
//! identity and says how it must reach the user; `verify_code` checks a
//! presented code against the store; `authenticate` combines a
//! verification with token issuance. A reserved test identity takes a
//! fixed code and bypasses both dispatch and, on verification, the
//! store.

use vstd::prelude::*;
use vstd::string::StringSliceAdditionalSpecFns;
use vstd::utf8::is_ascii_chars;
use crate::errors::AuthError;
use crate::phone::normalize_phone;
use crate::phone::norm_spec;
use crate::phone::is_digit_char;
use crate::phone::push_norm_char;
use crate::record::record_value;
use crate::store::AppDb;
use crate::store::verify_hit;
use crate::text::ascii_bytes;
use crate::text::str_eq;
use crate::token::create_token;
use crate::token::token_of;
use crate::token::decoded_claims;
use crate::token::TOKEN_LIFETIME_SECS;

verus! {

/// Issued codes are valid for ten minutes.
pub const CODE_LIFETIME_SECS: u64 = 600;

/// The reserved test identity.
pub open spec fn test_phone_spec() -> Seq<char> {
    "123"@
}

/// The fixed code of the reserved test identity.
pub open spec fn test_code_spec() -> Seq<char> {
    "123456"@
}

/// The code number stored for the reserved test identity.
pub const TEST_CODE_NUM: u32 = 123456;

/// The reserved test identity.
pub fn test_phone() -> (r: &'static str)
    ensures
        r@ == test_phone_spec(),
{
    "123"
}

/// The fixed code of the reserved test identity.
pub fn test_code() -> (r: &'static str)
    ensures
        r@ == test_code_spec(),
{
    "123456"
}

/// The char of one decimal digit value.
pub open spec fn digit_char(d: int) -> char {
    if d == 0 {
        '0'
    } else if d == 1 {
        '1'
    } else if d == 2 {
        '2'
    } else if d == 3 {
        '3'
    } else if d == 4 {
        '4'
    } else if d == 5 {
        '5'
    } else if d == 6 {
        '6'
    } else if d == 7 {
        '7'
    } else if d == 8 {
        '8'
    } else {
        '9'
    }
}

/// The six decimal digits of a code number, zero-padded.
pub open spec fn code_digits(n: int) -> Seq<char> {
    seq![
        digit_char(n / 100000 % 10),
        digit_char(n / 10000 % 10),
        digit_char(n / 1000 % 10),
        digit_char(n / 100 % 10),
        digit_char(n / 10 % 10),
        digit_char(n % 10),
    ]
}

pub proof fn lemma_digit_char(d: int)
    requires
        0 <= d < 10,
    ensures
        is_digit_char(digit_char(d)),
        '\0' <= digit_char(d) <= '\u{7f}',
        digit_char(d) as u8 == 48 + d,
{
}

/// A rendered code is six ASCII digits and holds no colon byte, so it
/// survives the record format unchanged.
pub proof fn lemma_code_digits(n: int)
    ensures
        code_digits(n).len() == 6,
        is_ascii_chars(code_digits(n)),
        forall|i: int| 0 <= i < 6 ==> is_digit_char(#[trigger] code_digits(n)[i]),
        forall|i: int| 0 <= i < 6 ==> ascii_bytes(code_digits(n))[i] != 58,
{
    lemma_digit_char(n / 100000 % 10);
    lemma_digit_char(n / 10000 % 10);
    lemma_digit_char(n / 1000 % 10);
    lemma_digit_char(n / 100 % 10);
    lemma_digit_char(n / 10 % 10);
    lemma_digit_char(n % 10);
    assert forall|i: int| 0 <= i < 6 implies is_digit_char(#[trigger] code_digits(n)[i]) && '\0'
        <= code_digits(n)[i] <= '\u{7f}' && ascii_bytes(code_digits(n))[i] != 58 by {
        let c = code_digits(n)[i];
        assert(ascii_bytes(code_digits(n))[i] == c as u8);
        if i == 0 {
            assert(c == digit_char(n / 100000 % 10));
        } else if i == 1 {
            assert(c == digit_char(n / 10000 % 10));
        } else if i == 2 {
            assert(c == digit_char(n / 1000 % 10));
        } else if i == 3 {
            assert(c == digit_char(n / 100 % 10));
        } else if i == 4 {
            assert(c == digit_char(n / 10 % 10));
        } else {
            assert(c == digit_char(n % 10));
        }
    }
}

/// One digit value as its char.
fn digit_to_char(d: u32) -> (c: char)
    requires
        d < 10,
    ensures
        c == digit_char(d as int),
{
    match d {
        0 => '0',
        1 => '1',
        2 => '2',
        3 => '3',
        4 => '4',
        5 => '5',
        6 => '6',
        7 => '7',
        8 => '8',
        _ => '9',
    }
}

/// Renders a code number as its six zero-padded decimal digits.
pub fn encode_code(n: u32) -> (r: String)
    requires
        n < 1000000,
    ensures
        r@ == code_digits(n as int),
        is_ascii_chars(r@),
{
    let c0 = digit_to_char(n / 100000 % 10);
    let c1 = digit_to_char(n / 10000 % 10);
    let c2 = digit_to_char(n / 1000 % 10);
    let c3 = digit_to_char(n / 100 % 10);
    let c4 = digit_to_char(n / 10 % 10);
    let c5 = digit_to_char(n % 10);
    proof {
        lemma_code_digits(n as int);
    }
    let mut out = String::new();
    push_norm_char(&mut out, c0);
    push_norm_char(&mut out, c1);
    push_norm_char(&mut out, c2);
    push_norm_char(&mut out, c3);
    push_norm_char(&mut out, c4);
    push_norm_char(&mut out, c5);
    proof {
        assert(out@ =~= code_digits(n as int));
    }
    out
}

/// Relies on rand::thread_rng and Rng::gen_range over `0..1_000_000`: a
/// number drawn from that half-open range. Only the bound is promised;
/// the draw itself is outside the library's control.
#[verifier::external_body]
fn random_code_num() -> (r: u32)
    ensures
        r < 1000000,
{
    rand::Rng::gen_range(&mut rand::thread_rng(), 0..1000000u32)
}

/// A request to send a verification code.
#[derive(Debug, Clone)]
pub struct PhoneRequest {
    pub phone: String,
}

/// A request to verify a code.
#[derive(Debug, Clone)]
pub struct VerifyRequest {
    pub phone: String,
    pub code: String,
}

/// The body returned on a successful verification.
#[derive(Debug, Clone)]
pub struct TokenResponse {
    pub token: String,
}

/// What the caller must do after a code was issued.
#[derive(Debug, Clone)]
pub enum Dispatch {
    /// The reserved test identity: nothing is dispatched.
    Test,
    /// Development mode: show the code instead of dispatching it.
    Dev { code: String },
    /// The code must be delivered to the normalized number.
    Sms { to: String, code: String },
}

/// The store key of an identity: the bytes of its normalized form.
pub open spec fn key_of(identity: Seq<char>) -> Seq<u8> {
    ascii_bytes(norm_spec(identity))
}

/// What a successful issuance did: the store now maps the normalized
/// identity to a fresh record — the fixed test code for the test
/// identity, the drawn code otherwise — expiring `CODE_LIFETIME_SECS`
/// from now, and the dispatch matches the identity and mode.
pub open spec fn issued(
    old_entries: Map<Seq<u8>, Seq<u8>>,
    new_entries: Map<Seq<u8>, Seq<u8>>,
    identity: Seq<char>,
    d: Dispatch,
    dev_mode: bool,
    code_num: int,
    now: int,
) -> bool {
    let m = if identity == test_phone_spec() {
        TEST_CODE_NUM as int
    } else {
        code_num
    };
    &&& new_entries == old_entries.insert(
        key_of(identity),
        record_value(ascii_bytes(code_digits(m)), now + CODE_LIFETIME_SECS),
    )
    &&& (identity == test_phone_spec() ==> d is Test)
    &&& (identity != test_phone_spec() ==> (if dev_mode {
        d matches Dispatch::Dev { code } && code@ == code_digits(code_num)
    } else {
        d matches Dispatch::Sms { to, code } && to@ == norm_spec(identity) && code@ == code_digits(
            code_num,
        )
    }))
}

/// Issues a code for `identity` at time `now`, storing it under the
/// normalized identity and superseding any prior record there. The
/// reserved test identity gets the fixed code and no dispatch; in
/// development mode the code is surfaced instead of dispatched.
pub fn issue_code(
    db: &mut AppDb,
    identity: &str,
    code_num: u32,
    now: i64,
    dev_mode: bool,
) -> (r: Result<Dispatch, AuthError>)
    requires
        code_num < 1000000,
        now + CODE_LIFETIME_SECS <= i64::MAX,
    ensures
        r matches Ok(d) ==> issued(
            old(db).entries(),
            final(db).entries(),
            identity@,
            d,
            dev_mode,
            code_num as int,
            now as int,
        ),
        r matches Err(e) ==> e == AuthError::Storage,
{
    broadcast use vstd::string::is_ascii_spec_bytes;

    let is_test = str_eq(identity, test_phone());
    let m: u32 = if is_test {
        TEST_CODE_NUM
    } else {
        code_num
    };
    let code = encode_code(m);
    let phone = normalize_phone(identity);
    let expiry: i64 = now + CODE_LIFETIME_SECS as i64;
    let ps = phone.as_str();
    let cs = code.as_str();
    match db.store_verification(ps, cs, expiry) {
        Err(_) => {
            return Err(AuthError::Storage);
        },
        Ok(()) => {},
    }
    proof {
        assert(vstd::string::is_ascii(ps));
        assert(vstd::string::is_ascii(cs));
        assert(ps.spec_bytes() =~= key_of(identity@));
        assert(cs.spec_bytes() =~= ascii_bytes(code_digits(m as int)));
    }
    if is_test {
        Ok(Dispatch::Test)
    } else if dev_mode {
        Ok(Dispatch::Dev { code })
    } else {
        Ok(Dispatch::Sms { to: phone, code })
    }
}

/// Handles a send-code request: draws a fresh random code, stamps it
/// with the present moment, and issues it. A clock too close to the end
/// of representable time is an internal fault.
pub fn send_code(db: &mut AppDb, identity: &str, dev_mode: bool) -> (r: Result<
    Dispatch,
    AuthError,
>)
    ensures
        r matches Ok(d) ==> exists|code_num: int, now: int|
            0 <= code_num < 1000000 && #[trigger] issued(
                old(db).entries(),
                final(db).entries(),
                identity@,
                d,
                dev_mode,
                code_num,
                now,
            ),
        r matches Err(e) ==> e == AuthError::Storage || e == AuthError::Internal,
{
    let now = crate::clock::now_ts();
    if now > i64::MAX - CODE_LIFETIME_SECS as i64 {
        return Err(AuthError::Internal);
    }
    let code_num = random_code_num();
    match issue_code(db, identity, code_num, now, dev_mode) {
        Ok(d) => {
            proof {
                assert(issued(
                    old(db).entries(),
                    final(db).entries(),
                    identity@,
                    d,
                    dev_mode,
                    code_num as int,
                    now as int,
                ));
            }
            Ok(d)
        },
        Err(e) => Err(e),
    }
}

/// The code an issuance for `identity` stored, as digits.
pub open spec fn issued_code(identity: Seq<char>, code_num: int) -> Seq<char> {
    if identity == test_phone_spec() {
        code_digits(TEST_CODE_NUM as int)
    } else {
        code_digits(code_num)
    }
}

/// Issuing supersedes: once an issuance went through, presenting
/// anything but the newly stored code for that identity fails, at every
/// instant — in particular an older unexpired code is dead.
pub proof fn lemma_issue_supersedes_identity(
    old_entries: Map<Seq<u8>, Seq<u8>>,
    new_entries: Map<Seq<u8>, Seq<u8>>,
    identity: Seq<char>,
    d: Dispatch,
    dev_mode: bool,
    code_num: int,
    now: int,
    presented: Seq<u8>,
    t: int,
)
    requires
        issued(old_entries, new_entries, identity, d, dev_mode, code_num, now),
        presented != ascii_bytes(issued_code(identity, code_num)),
        i64::MIN <= now + CODE_LIFETIME_SECS <= i64::MAX,
    ensures
        !crate::store::verify_hit(new_entries, key_of(identity), presented, t),
{
    let m = if identity == test_phone_spec() {
        TEST_CODE_NUM as int
    } else {
        code_num
    };
    lemma_code_digits(m);
    crate::store::lemma_issue_supersedes(
        old_entries,
        key_of(identity),
        presented,
        ascii_bytes(code_digits(m)),
        now + CODE_LIFETIME_SECS,
        t,
    );
}

/// An issued code lapses: from `CODE_LIFETIME_SECS` after its issuance
/// on, even the exactly right code no longer verifies.
pub proof fn lemma_issued_code_expires(
    old_entries: Map<Seq<u8>, Seq<u8>>,
    new_entries: Map<Seq<u8>, Seq<u8>>,
    identity: Seq<char>,
    d: Dispatch,
    dev_mode: bool,
    code_num: int,
    now: int,
    t: int,
)
    requires
        issued(old_entries, new_entries, identity, d, dev_mode, code_num, now),
        i64::MIN <= now + CODE_LIFETIME_SECS <= i64::MAX,
        t >= now + CODE_LIFETIME_SECS,
    ensures
        !crate::store::verify_hit(
            new_entries,
            key_of(identity),
            ascii_bytes(issued_code(identity, code_num)),
            t,
        ),
{
    let m = if identity == test_phone_spec() {
        TEST_CODE_NUM as int
    } else {
        code_num
    };
    lemma_code_digits(m);
    crate::store::lemma_expired_rejected(
        new_entries,
        key_of(identity),
        ascii_bytes(code_digits(m)),
        now + CODE_LIFETIME_SECS,
        t,
    );
}

/// Whether a request presents the reserved test pair exactly.
pub open spec fn is_test_pair(identity: Seq<char>, code: Seq<char>) -> bool {
    identity == test_phone_spec() && code == test_code_spec()
}

/// Verifies a presented code for `identity` at time `now`. The reserved
/// test pair succeeds without consulting or touching the store; any
/// other attempt is decided against the stored record — a hit deletes
/// it, a miss leaves the store as it was.
pub fn verify_code(db: &mut AppDb, identity: &str, code: &str, now: i64) -> (r: Result<
    bool,
    AuthError,
>)
    ensures
        is_test_pair(identity@, code@) ==> r == Ok::<bool, AuthError>(true) && final(db).entries()
            == old(db).entries(),
        !is_test_pair(identity@, code@) ==> {
            &&& (r matches Ok(b) ==> b == verify_hit(
                old(db).entries(),
                key_of(identity@),
                code.spec_bytes(),
                now as int,
            ))
            &&& (r == Ok::<bool, AuthError>(true) ==> final(db).entries() == old(
                db,
            ).entries().remove(key_of(identity@)))
            &&& (r == Ok::<bool, AuthError>(false) ==> final(db).entries() == old(db).entries())
            &&& (r matches Err(e) ==> e == AuthError::Storage)
        },
{
    broadcast use vstd::string::is_ascii_spec_bytes;

    if str_eq(identity, test_phone()) && str_eq(code, test_code()) {
        return Ok(true);
    }
    let phone = normalize_phone(identity);
    let ps = phone.as_str();
    proof {
        assert(vstd::string::is_ascii(ps));
        assert(ps.spec_bytes() =~= key_of(identity@));
    }
    match db.verify_code_at(ps, code, now) {
        Ok(b) => Ok(b),
        Err(_) => Err(AuthError::Storage),
    }
}

/// Handles a verify request at time `now`: checks the code and, when it
/// holds, mints a credential for the normalized identity. A wrong or
/// expired code is `InvalidCode`; store and signing faults surface as
/// `Storage` and `Internal`.
pub fn authenticate(
    db: &mut AppDb,
    identity: &str,
    code: &str,
    secret: &[u8],
    now: i64,
) -> (r: Result<TokenResponse, AuthError>)
    requires
        0 <= now,
        now + TOKEN_LIFETIME_SECS <= i64::MAX,
    ensures
        r matches Ok(t) ==> t.token@ == token_of(
            norm_spec(identity@),
            now as int,
            now + TOKEN_LIFETIME_SECS,
            secret@,
        ) && decoded_claims(t.token@, secret@) == Some(
            (norm_spec(identity@), now as int, now + TOKEN_LIFETIME_SECS as int),
        ),
        is_test_pair(identity@, code@) ==> final(db).entries() == old(db).entries() && (r is Ok
            || r == Err::<TokenResponse, AuthError>(AuthError::Internal)),
        !is_test_pair(identity@, code@) && r is Ok ==> verify_hit(
            old(db).entries(),
            key_of(identity@),
            code.spec_bytes(),
            now as int,
        ) && final(db).entries() == old(db).entries().remove(key_of(identity@)),
        r == Err::<TokenResponse, AuthError>(AuthError::InvalidCode) ==> !is_test_pair(
            identity@,
            code@,
        ) && !verify_hit(old(db).entries(), key_of(identity@), code.spec_bytes(), now as int)
            && final(db).entries() == old(db).entries(),
        !is_test_pair(identity@, code@) && !verify_hit(
            old(db).entries(),
            key_of(identity@),
            code.spec_bytes(),
            now as int,
        ) ==> r == Err::<TokenResponse, AuthError>(AuthError::InvalidCode) || r == Err::<
            TokenResponse,
            AuthError,
        >(AuthError::Storage),
        r matches Err(e) ==> e == AuthError::Storage || e == AuthError::Internal || e
            == AuthError::InvalidCode,
{
    let ok = match verify_code(db, identity, code, now) {
        Ok(b) => b,
        Err(e) => {
            return Err(e);
        },
    };
    if !ok {
        return Err(AuthError::InvalidCode);
    }
    let phone = normalize_phone(identity);
    match create_token(phone.as_str(), secret, now) {
        Ok(token) => Ok(TokenResponse { token }),
        Err(e) => Err(e),
    }
}

} // verus!
