//! Build-time configuration.
//!
//! The OAuth variant of the service reads its endpoints and credentials
//! from an env-style text: one `KEY=value` per line. Parsing is
//! verified here; reading the text itself is the caller's business.
//! A line that names a known key but carries no value, or a parse that
//! leaves a required key empty, yields `None`: a missing credential is
//! fatal at startup, and the caller decides how to abort.

use vstd::prelude::*;
use vstd::string::StringExecFns;
use crate::text::str_eq;

verus! {

/// Logging verbosity, from silence to full tracing.
#[derive(Debug, Clone, Copy, PartialEq, Eq, Structural)]
pub enum LogLevel {
    Off,
    Error,
    Warn,
    Info,
    Debug,
    Trace,
}

/// The configuration fields, at the spec level.
#[verifier::ext_equal]
pub struct EnvConfigV {
    pub reddit_client_id: Seq<char>,
    pub reddit_client_secret: Seq<char>,
    pub reddit_redirect_uri: Seq<char>,
    pub reddit_auth_uri: Seq<char>,
    pub reddit_access_uri: Seq<char>,
    pub reddit_author: Seq<char>,
    pub reddit_get_user_uri: Seq<char>,
    pub log_level: LogLevel,
}

/// The immutable configuration value, built once at startup.
#[derive(Debug, Clone)]
pub struct EnvConfig {
    pub reddit_client_id: String,
    pub reddit_client_secret: String,
    pub reddit_redirect_uri: String,
    pub reddit_auth_uri: String,
    pub reddit_access_uri: String,
    pub reddit_author: String,
    pub reddit_get_user_uri: String,
    pub log_level: LogLevel,
}

impl View for EnvConfig {
    type V = EnvConfigV;

    open spec fn view(&self) -> EnvConfigV {
        EnvConfigV {
            reddit_client_id: self.reddit_client_id@,
            reddit_client_secret: self.reddit_client_secret@,
            reddit_redirect_uri: self.reddit_redirect_uri@,
            reddit_auth_uri: self.reddit_auth_uri@,
            reddit_access_uri: self.reddit_access_uri@,
            reddit_author: self.reddit_author@,
            reddit_get_user_uri: self.reddit_get_user_uri@,
            log_level: self.log_level,
        }
    }
}

/// All fields empty, logging off: the state before any line applies.
pub open spec fn empty_env_v() -> EnvConfigV {
    EnvConfigV {
        reddit_client_id: Seq::empty(),
        reddit_client_secret: Seq::empty(),
        reddit_redirect_uri: Seq::empty(),
        reddit_auth_uri: Seq::empty(),
        reddit_access_uri: Seq::empty(),
        reddit_author: Seq::empty(),
        reddit_get_user_uri: Seq::empty(),
        log_level: LogLevel::Off,
    }
}

/// The index of the first occurrence of `t` in `s`, or `s.len()`.
pub open spec fn first_at(s: Seq<char>, t: char) -> int
    decreases s.len(),
{
    if s.len() == 0 {
        0
    } else if s[0] == t {
        0
    } else {
        1 + first_at(s.skip(1), t)
    }
}

/// `first_at` is pinned down by its characteristic facts.
pub proof fn lemma_first_at(s: Seq<char>, t: char, k: int)
    requires
        0 <= k <= s.len(),
        forall|j: int| 0 <= j < k ==> s[j] != t,
        k == s.len() || s[k] == t,
    ensures
        first_at(s, t) == k,
    decreases s.len(),
{
    if s.len() == 0 {
    } else if s[0] == t {
        assert(k == 0);
    } else {
        assert(k >= 1);
        let rest = s.skip(1);
        assert(forall|j: int| 0 <= j < k - 1 ==> rest[j] == s[j + 1] && s[j + 1] != t);
        assert(k - 1 == rest.len() || rest[k - 1] == s[k]);
        lemma_first_at(rest, t, k - 1);
    }
}

/// `first_at` lies in range and everything before it differs from `t`.
pub proof fn lemma_first_at_bounds(s: Seq<char>, t: char)
    ensures
        0 <= first_at(s, t) <= s.len(),
        forall|j: int| 0 <= j < first_at(s, t) ==> s[j] != t,
        first_at(s, t) < s.len() ==> s[first_at(s, t)] == t,
    decreases s.len(),
{
    if s.len() > 0 && s[0] != t {
        lemma_first_at_bounds(s.skip(1), t);
        let rest = s.skip(1);
        assert(forall|j: int| 1 <= j < first_at(s, t) ==> s[j] == rest[j - 1]);
    }
}

/// A line with its trailing carriage return dropped.
pub open spec fn strip_cr(l: Seq<char>) -> Seq<char> {
    if l.len() > 0 && l.last() == '\r' {
        l.drop_last()
    } else {
        l
    }
}

/// The key of a line: everything before the first `=`, or the whole
/// line when it has none.
pub open spec fn line_key(l: Seq<char>) -> Seq<char> {
    l.take(first_at(l, '='))
}

/// Whether the line carries a value at all.
pub open spec fn line_has_value(l: Seq<char>) -> bool {
    first_at(l, '=') < l.len()
}

/// The value of a line: what stands between the first `=` and the
/// second one, or the end of the line.
pub open spec fn line_value(l: Seq<char>) -> Seq<char> {
    let rest = l.skip(first_at(l, '=') + 1);
    rest.take(first_at(rest, '='))
}

/// ASCII lowercase of one char; everything but `A`-`Z` stays as it is.
pub open spec fn lower_char(c: char) -> char {
    if c == 'A' {
        'a'
    } else if c == 'B' {
        'b'
    } else if c == 'C' {
        'c'
    } else if c == 'D' {
        'd'
    } else if c == 'E' {
        'e'
    } else if c == 'F' {
        'f'
    } else if c == 'G' {
        'g'
    } else if c == 'H' {
        'h'
    } else if c == 'I' {
        'i'
    } else if c == 'J' {
        'j'
    } else if c == 'K' {
        'k'
    } else if c == 'L' {
        'l'
    } else if c == 'M' {
        'm'
    } else if c == 'N' {
        'n'
    } else if c == 'O' {
        'o'
    } else if c == 'P' {
        'p'
    } else if c == 'Q' {
        'q'
    } else if c == 'R' {
        'r'
    } else if c == 'S' {
        's'
    } else if c == 'T' {
        't'
    } else if c == 'U' {
        'u'
    } else if c == 'V' {
        'v'
    } else if c == 'W' {
        'w'
    } else if c == 'X' {
        'x'
    } else if c == 'Y' {
        'y'
    } else if c == 'Z' {
        'z'
    } else {
        c
    }
}

/// ASCII lowercase of a char sequence.
pub open spec fn ascii_lower(s: Seq<char>) -> Seq<char> {
    Seq::new(s.len(), |i: int| lower_char(s[i]))
}

/// The level a `RUST_LOG` value names, compared case-insensitively;
/// anything unrecognized means `Info`.
pub open spec fn level_of(v: Seq<char>) -> LogLevel {
    let l = ascii_lower(v);
    if l == "off"@ {
        LogLevel::Off
    } else if l == "error"@ {
        LogLevel::Error
    } else if l == "warn"@ {
        LogLevel::Warn
    } else if l == "info"@ {
        LogLevel::Info
    } else if l == "debug"@ {
        LogLevel::Debug
    } else if l == "trace"@ {
        LogLevel::Trace
    } else {
        LogLevel::Info
    }
}

/// What one line does to the configuration: a known key takes the
/// line's value — `None` when the line carries none — an unknown key
/// changes nothing.
pub open spec fn apply_line(c: EnvConfigV, l: Seq<char>) -> Option<EnvConfigV> {
    let key = line_key(l);
    if key == "REDDIT_CLIENT_ID"@ {
        if line_has_value(l) {
            Some(EnvConfigV { reddit_client_id: line_value(l), ..c })
        } else {
            None
        }
    } else if key == "REDDIT_CLIENT_SECRET"@ {
        if line_has_value(l) {
            Some(EnvConfigV { reddit_client_secret: line_value(l), ..c })
        } else {
            None
        }
    } else if key == "REDDIT_REDIRECT_URI"@ {
        if line_has_value(l) {
            Some(EnvConfigV { reddit_redirect_uri: line_value(l), ..c })
        } else {
            None
        }
    } else if key == "REDDIT_AUTH_URI"@ {
        if line_has_value(l) {
            Some(EnvConfigV { reddit_auth_uri: line_value(l), ..c })
        } else {
            None
        }
    } else if key == "REDDIT_ACCESS_URI"@ {
        if line_has_value(l) {
            Some(EnvConfigV { reddit_access_uri: line_value(l), ..c })
        } else {
            None
        }
    } else if key == "REDDIT_AUTHOR"@ {
        if line_has_value(l) {
            Some(EnvConfigV { reddit_author: line_value(l), ..c })
        } else {
            None
        }
    } else if key == "REDDIT_GET_USER_URI"@ {
        if line_has_value(l) {
            Some(EnvConfigV { reddit_get_user_uri: line_value(l), ..c })
        } else {
            None
        }
    } else if key == "RUST_LOG"@ {
        if line_has_value(l) {
            Some(EnvConfigV { log_level: level_of(line_value(l)), ..c })
        } else {
            None
        }
    } else {
        Some(c)
    }
}

/// Folds the remaining text into the configuration, line by line: lines
/// break at `\n`, a trailing `\r` is dropped, and text ending in a
/// newline yields no extra empty line.
pub open spec fn parse_env(c: EnvConfigV, s: Seq<char>) -> Option<EnvConfigV>
    decreases s.len(),
    via parse_env_dec
{
    if s.len() == 0 {
        Some(c)
    } else {
        let i = first_at(s, '\n');
        let line = strip_cr(s.take(i));
        match apply_line(c, line) {
            None => None,
            Some(c2) => if i == s.len() {
                Some(c2)
            } else {
                parse_env(c2, s.skip(i + 1))
            },
        }
    }
}

#[via_fn]
proof fn parse_env_dec(c: EnvConfigV, s: Seq<char>) {
    lemma_first_at_bounds(s, '\n');
}

/// A required field was left empty: the endpoints and credentials the
/// OAuth exchange cannot run without.
pub open spec fn config_missing(c: EnvConfigV) -> bool {
    ||| c.reddit_redirect_uri.len() == 0
    ||| c.reddit_client_id.len() == 0
    ||| c.reddit_client_secret.len() == 0
    ||| c.reddit_access_uri.len() == 0
}

/// Finds the first `t` at or after `from`, or the end of `s`.
#[verifier::loop_isolation(false)]
fn find_char(s: &str, from: usize, t: char) -> (r: usize)
    requires
        from <= s@.len(),
    ensures
        from <= r <= s@.len(),
        forall|j: int| from <= j < r ==> s@[j] != t,
        r < s@.len() ==> s@[r as int] == t,
        r as int - from == first_at(s@.skip(from as int), t),
{
    let n = s.unicode_len();
    let mut i: usize = from;
    while i < n
        invariant
            from <= i <= n,
            forall|j: int| from <= j < i ==> s@[j] != t,
        decreases n - i,
    {
        if s.get_char(i) == t {
            proof {
                lemma_first_at_from(s@, from as int, i as int, t);
            }
            return i;
        }
        i += 1;
    }
    proof {
        lemma_first_at_from(s@, from as int, n as int, t);
    }
    n
}

/// Bridges a scan of the whole string to `first_at` of its tail.
proof fn lemma_first_at_from(s: Seq<char>, from: int, k: int, t: char)
    requires
        0 <= from <= k <= s.len(),
        forall|j: int| from <= j < k ==> s[j] != t,
        k == s.len() || s[k] == t,
    ensures
        first_at(s.skip(from), t) == k - from,
{
    let rest = s.skip(from);
    assert(forall|j: int| 0 <= j < k - from ==> rest[j] == s[j + from] && s[j + from] != t);
    assert(k - from == rest.len() || rest[k - from] == s[k]);
    lemma_first_at(rest, t, k - from);
}

/// ASCII lowercase of one char.
fn lower_char_exec(c: char) -> (r: char)
    ensures
        r == lower_char(c),
{
    match c {
        'A' => 'a',
        'B' => 'b',
        'C' => 'c',
        'D' => 'd',
        'E' => 'e',
        'F' => 'f',
        'G' => 'g',
        'H' => 'h',
        'I' => 'i',
        'J' => 'j',
        'K' => 'k',
        'L' => 'l',
        'M' => 'm',
        'N' => 'n',
        'O' => 'o',
        'P' => 'p',
        'Q' => 'q',
        'R' => 'r',
        'S' => 's',
        'T' => 't',
        'U' => 'u',
        'V' => 'v',
        'W' => 'w',
        'X' => 'x',
        'Y' => 'y',
        'Z' => 'z',
        _ => c,
    }
}

/// Does `a`, lowercased, read exactly as `b`?
#[verifier::loop_isolation(false)]
fn eq_lowered(a: &str, b: &str) -> (r: bool)
    ensures
        r == (ascii_lower(a@) == b@),
{
    let na = a.unicode_len();
    let nb = b.unicode_len();
    if na != nb {
        return false;
    }
    let mut i: usize = 0;
    while i < na
        invariant
            0 <= i <= na,
            forall|j: int| 0 <= j < i ==> lower_char(a@[j]) == b@[j],
        decreases na - i,
    {
        if lower_char_exec(a.get_char(i)) != b.get_char(i) {
            proof {
                assert(ascii_lower(a@)[i as int] != b@[i as int]);
            }
            return false;
        }
        i += 1;
    }
    proof {
        assert(ascii_lower(a@) =~= b@);
    }
    true
}

/// Reads a `RUST_LOG` value, case-insensitively; anything it does not
/// recognize means `Info`.
fn parse_level(v: &str) -> (r: LogLevel)
    ensures
        r == level_of(v@),
{
    if eq_lowered(v, "off") {
        LogLevel::Off
    } else if eq_lowered(v, "error") {
        LogLevel::Error
    } else if eq_lowered(v, "warn") {
        LogLevel::Warn
    } else if eq_lowered(v, "info") {
        LogLevel::Info
    } else if eq_lowered(v, "debug") {
        LogLevel::Debug
    } else if eq_lowered(v, "trace") {
        LogLevel::Trace
    } else {
        LogLevel::Info
    }
}

/// Extracts the value of a line whose first `=` stands at `eq`.
fn extract_value(line: &str, eq: usize) -> (r: String)
    requires
        eq as int == first_at(line@, '='),
        eq < line@.len(),
    ensures
        r@ == line_value(line@),
{
    let n = line.unicode_len();
    let ve = find_char(line, eq + 1, '=');
    let v = line.substring_char(eq + 1, ve);
    proof {
        let rest = line@.skip(eq + 1);
        assert(v@ =~= rest.take(first_at(rest, '=')));
    }
    String::from_str(v)
}

/// Applies one line to the configuration; `false` means the line named
/// a known key but carried no value.
fn apply_env_line(cfg: &mut EnvConfig, line: &str) -> (ok: bool)
    ensures
        ok ==> apply_line(old(cfg)@, line@) == Some(final(cfg)@),
        !ok ==> apply_line(old(cfg)@, line@) is None,
{
    let n = line.unicode_len();
    let eq = find_char(line, 0, '=');
    proof {
        assert(line@.skip(0) =~= line@);
    }
    let key = line.substring_char(0, eq);
    proof {
        assert(key@ =~= line_key(line@));
    }
    if str_eq(key, "REDDIT_CLIENT_ID") {
        if eq == n {
            return false;
        }
        cfg.reddit_client_id = extract_value(line, eq);
        proof {
            assert(apply_line(old(cfg)@, line@) == Some(final(cfg)@));
        }
        true
    } else if str_eq(key, "REDDIT_CLIENT_SECRET") {
        if eq == n {
            return false;
        }
        cfg.reddit_client_secret = extract_value(line, eq);
        true
    } else if str_eq(key, "REDDIT_REDIRECT_URI") {
        if eq == n {
            return false;
        }
        cfg.reddit_redirect_uri = extract_value(line, eq);
        true
    } else if str_eq(key, "REDDIT_AUTH_URI") {
        if eq == n {
            return false;
        }
        cfg.reddit_auth_uri = extract_value(line, eq);
        true
    } else if str_eq(key, "REDDIT_ACCESS_URI") {
        if eq == n {
            return false;
        }
        cfg.reddit_access_uri = extract_value(line, eq);
        true
    } else if str_eq(key, "REDDIT_AUTHOR") {
        if eq == n {
            return false;
        }
        cfg.reddit_author = extract_value(line, eq);
        true
    } else if str_eq(key, "REDDIT_GET_USER_URI") {
        if eq == n {
            return false;
        }
        cfg.reddit_get_user_uri = extract_value(line, eq);
        true
    } else if str_eq(key, "RUST_LOG") {
        if eq == n {
            return false;
        }
        let v = extract_value(line, eq);
        cfg.log_level = parse_level(v.as_str());
        true
    } else {
        true
    }
}

impl EnvConfig {
    /// Whether a required field was left empty.
    pub fn is_empty(&self) -> (r: bool)
        ensures
            r == config_missing(self@),
    {
        self.reddit_redirect_uri.as_str().is_empty() || self.reddit_client_id.as_str().is_empty()
            || self.reddit_client_secret.as_str().is_empty()
            || self.reddit_access_uri.as_str().is_empty()
    }

    /// Builds the configuration from env-style text, one `KEY=value`
    /// per line. `None` where a known key carries no value or a
    /// required field would be left empty.
    #[verifier::loop_isolation(false)]
    pub fn new(env_file: &str) -> (r: Option<EnvConfig>)
        ensures
            match r {
                Some(cfg) => parse_env(empty_env_v(), env_file@) == Some(cfg@) && !config_missing(
                    cfg@,
                ),
                None => parse_env(empty_env_v(), env_file@) is None || (parse_env(
                    empty_env_v(),
                    env_file@,
                ) matches Some(c) && config_missing(c)),
            },
    {
        let n = env_file.unicode_len();
        let mut cfg = EnvConfig {
            reddit_client_id: String::new(),
            reddit_client_secret: String::new(),
            reddit_redirect_uri: String::new(),
            reddit_auth_uri: String::new(),
            reddit_access_uri: String::new(),
            reddit_author: String::new(),
            reddit_get_user_uri: String::new(),
            log_level: LogLevel::Off,
        };
        proof {
            assert(cfg@ =~= empty_env_v());
            assert(env_file@.skip(0) =~= env_file@);
        }
        let mut pos: usize = 0;
        while pos < n
            invariant
                0 <= pos <= n,
                parse_env(empty_env_v(), env_file@) == parse_env(
                    cfg@,
                    env_file@.skip(pos as int),
                ),
            decreases n - pos,
        {
            let ghost s = env_file@.skip(pos as int);
            let nl = find_char(env_file, pos, '\n');
            proof {
                assert(first_at(s, '\n') == nl - pos);
            }
            let has_cr = nl > pos && env_file.get_char(nl - 1) == '\r';
            let line_end = if has_cr {
                nl - 1
            } else {
                nl
            };
            let line = env_file.substring_char(pos, line_end);
            proof {
                assert(s.take(nl - pos) =~= env_file@.subrange(pos as int, nl as int));
                if has_cr {
                    assert(s.take(nl - pos).last() == '\r');
                    assert(line@ =~= s.take(nl - pos).drop_last());
                } else {
                    if nl > pos {
                        assert(s.take(nl - pos).last() == env_file@[nl - 1]);
                    }
                    assert(line@ =~= s.take(nl - pos));
                }
                assert(line@ == strip_cr(s.take(first_at(s, '\n'))));
            }
            let ghost pre = cfg@;
            if !apply_env_line(&mut cfg, line) {
                proof {
                    assert(parse_env(pre, s) is None);
                }
                return None;
            }
            proof {
                assert(apply_line(pre, strip_cr(s.take(first_at(s, '\n')))) == Some(cfg@));
            }
            if nl == n {
                pos = n;
                proof {
                    assert(env_file@.skip(n as int) =~= Seq::<char>::empty());
                    assert(parse_env(pre, s) == Some(cfg@));
                }
            } else {
                pos = nl + 1;
                proof {
                    assert(s.skip(first_at(s, '\n') + 1) =~= env_file@.skip(nl + 1));
                    assert(parse_env(pre, s) == parse_env(cfg@, env_file@.skip(nl + 1)));
                }
            }
        }
        proof {
            assert(env_file@.skip(pos as int) =~= Seq::<char>::empty());
        }
        if cfg.is_empty() {
            return None;
        }
        Some(cfg)
    }
}

impl EnvConfig {
    /// The authorization URL a login redirects to: the configured auth
    /// endpoint with the client id, redirect and fixed OAuth query.
    pub fn reddit_login_url(&self) -> (r: String)
        ensures
            r@ == self.reddit_auth_uri@ + "client_id="@ + self.reddit_client_id@
                + "&response_type=code&state=randomstate&redirect_uri="@
                + self.reddit_redirect_uri@ + "&duration=permanent&scope=identity"@,
    {
        let mut url = self.reddit_auth_uri.clone();
        url.append("client_id=");
        url.append(self.reddit_client_id.as_str());
        url.append("&response_type=code&state=randomstate&redirect_uri=");
        url.append(self.reddit_redirect_uri.as_str());
        url.append("&duration=permanent&scope=identity");
        url
    }
}

/// The form-encoded body of an OAuth token exchange.
#[derive(Debug, Clone)]
pub struct TokenRequest {
    pub grant_type: String,
    pub code: String,
    pub redirect_uri: String,
}

impl TokenRequest {
    /// A token exchange for `code`, bound to the configured redirect.
    pub fn new(code: String, env_config: &EnvConfig) -> (r: TokenRequest)
        ensures
            r.grant_type@ == "authorization_code"@,
            r.code@ == code@,
            r.redirect_uri@ == env_config.reddit_redirect_uri@,
    {
        TokenRequest {
            grant_type: String::from_str("authorization_code"),
            code,
            redirect_uri: env_config.reddit_redirect_uri.clone(),
        }
    }
}

} // verus!
