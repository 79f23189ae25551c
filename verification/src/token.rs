use vstd::arithmetic::div_mod::lemma_fundamental_div_mod;
use vstd::prelude::*;
use vstd::string::StrSliceExecFns;
use vstd::string::StringExecFns;

use crate::errors::AuthError;
use crate::store::{User, UserView};

verus! {

// ---------------------------------------------------------------------------
// Decimal numerals, used for the token's length prefixes and its expiry field.
// ---------------------------------------------------------------------------

/// The character of one decimal digit.
pub open spec fn digit_char(d: nat) -> char
    recommends
        d < 10,
{
    ((48 + d) as u8) as char
}

pub open spec fn is_digit(c: char) -> bool {
    48 <= c as u32 <= 57
}

pub open spec fn digit_val(c: char) -> nat
    recommends
        is_digit(c),
{
    (c as u32 - 48) as nat
}

/// The decimal numeral of `n`, most significant digit first, no leading zeros.
pub open spec fn dec_chars(n: nat) -> Seq<char>
    decreases n,
{
    if n < 10 {
        seq![digit_char(n)]
    } else {
        dec_chars(n / 10).push(digit_char(n % 10))
    }
}

/// Append the decimal numeral of `n`.
fn push_dec(v: &mut Vec<char>, n: usize)
    ensures
        final(v)@ == old(v)@ + dec_chars(n as nat),
    decreases n,
{
    if n < 10 {
        let d: u8 = (n as u8) + 48;
        v.push(d as char);
        proof {
            assert(final(v)@ =~= old(v)@ + dec_chars(n as nat));
        }
    } else {
        push_dec(v, n / 10);
        let d: u8 = ((n % 10) as u8) + 48;
        v.push(d as char);
        proof {
            assert(final(v)@ =~= old(v)@ + dec_chars(n as nat));
        }
    }
}

/// Append every character of `s`.
#[verifier::loop_isolation(false)]
fn push_str_chars(v: &mut Vec<char>, s: &str)
    ensures
        final(v)@ == old(v)@ + s@,
{
    let n = s.unicode_len();
    let mut i: usize = 0;
    while i < n
        invariant
            i <= n,
            n == s@.len(),
            v@ == old(v)@ + s@.subrange(0, i as int),
        decreases n - i,
    {
        let c = s.get_char(i);
        v.push(c);
        proof {
            assert(v@ =~= old(v)@ + s@.subrange(0, i + 1 as int));
        }
        i += 1;
    }
    proof {
        assert(s@.subrange(0, n as int) =~= s@);
    }
}

/// Relies on `String`'s `FromIterator` over `char`: collecting yields a string
/// of exactly the given characters, in order.
#[verifier::external_body]
fn chars_to_string(v: &Vec<char>) -> (r: String)
    ensures
        r@ == v@,
{
    v.iter().collect()
}

/// Copy `t[from..to]` into a fresh string.
#[verifier::loop_isolation(false)]
fn chars_substring(t: &Vec<char>, from: usize, to: usize) -> (r: String)
    requires
        from <= to <= t@.len(),
    ensures
        r@ == t@.subrange(from as int, to as int),
{
    let mut v: Vec<char> = Vec::new();
    let mut i: usize = from;
    while i < to
        invariant
            from <= i <= to,
            v@ == t@.subrange(from as int, i as int),
        decreases to - i,
    {
        v.push(t[i]);
        proof {
            assert(v@ =~= t@.subrange(from as int, i + 1 as int));
        }
        i += 1;
    }
    chars_to_string(&v)
}

// ---------------------------------------------------------------------------
// Parsing: a numeral, then a length-prefixed field.
// ---------------------------------------------------------------------------

/// Consume leading digits of `s` into an accumulator; `None` marks a value
/// that does not fit in `usize`. Stops at the first non-digit.
pub open spec fn parse_num_rec(s: Seq<char>, acc: usize) -> Option<(usize, Seq<char>)>
    decreases s.len(),
{
    if s.len() > 0 && is_digit(s[0]) {
        let v = acc * 10 + digit_val(s[0]);
        if v <= usize::MAX as int {
            parse_num_rec(s.drop_first(), v as usize)
        } else {
            None
        }
    } else {
        Some((acc, s))
    }
}

/// A numeral: one or more digits, value in `usize`; returns the value and the
/// rest of the input.
pub open spec fn parse_num(s: Seq<char>) -> Option<(usize, Seq<char>)> {
    if s.len() > 0 && is_digit(s[0]) {
        parse_num_rec(s, 0)
    } else {
        None
    }
}

/// A field: its character count, a colon, then exactly that many characters.
pub open spec fn parse_field(s: Seq<char>) -> Option<(Seq<char>, Seq<char>)> {
    match parse_num(s) {
        Some((n, r)) => if n as int + 1 <= r.len() && r[0] == ':' {
            Some((r.subrange(1, 1 + n as int), r.subrange(1 + n as int, r.len() as int)))
        } else {
            None
        },
        None => None,
    }
}

/// Parse a numeral out of `t[i..end]`; on success the returned index marks
/// where the digits stop.
#[verifier::loop_isolation(false)]
fn parse_num_exec(t: &Vec<char>, i: usize, end: usize) -> (r: Option<(usize, usize)>)
    requires
        i <= end <= t@.len(),
    ensures
        match r {
            Some((n, j)) => i <= j <= end && parse_num(t@.subrange(i as int, end as int))
                == Some((n, t@.subrange(j as int, end as int))),
            None => parse_num(t@.subrange(i as int, end as int)) is None,
        },
{
    if i == end {
        return None;
    }
    let c0 = t[i] as u32;
    if c0 < 48 || c0 > 57 {
        return None;
    }
    let mut acc: usize = 0;
    let mut j: usize = i;
    while j < end
        invariant
            i <= j <= end,
            parse_num_rec(t@.subrange(i as int, end as int), 0) == parse_num_rec(
                t@.subrange(j as int, end as int),
                acc,
            ),
        decreases end - j,
    {
        let c = t[j] as u32;
        if c < 48 || c > 57 {
            proof {
                assert(parse_num_rec(t@.subrange(j as int, end as int), acc) == Some(
                    (acc, t@.subrange(j as int, end as int)),
                ));
            }
            return Some((acc, j));
        }
        let d: usize = (c - 48) as usize;
        let acc10 = match acc.checked_mul(10) {
            Some(x) => x,
            None => {
                return None;
            },
        };
        let next = match acc10.checked_add(d) {
            Some(x) => x,
            None => {
                return None;
            },
        };
        proof {
            assert(t@.subrange(j as int, end as int).drop_first() =~= t@.subrange(
                j + 1 as int,
                end as int,
            ));
        }
        acc = next;
        j += 1;
    }
    proof {
        assert(parse_num_rec(t@.subrange(j as int, end as int), acc) == Some(
            (acc, t@.subrange(j as int, end as int)),
        ));
    }
    Some((acc, j))
}

/// Parse a length-prefixed field out of `t[i..]`; on success the field's
/// characters sit at `t[a..b]` and parsing resumes at `b`.
#[verifier::loop_isolation(false)]
fn parse_field_exec(t: &Vec<char>, i: usize) -> (r: Option<(usize, usize)>)
    requires
        i <= t@.len(),
    ensures
        match r {
            Some((a, b)) => i <= a <= b <= t@.len() && parse_field(
                t@.subrange(i as int, t@.len() as int),
            ) == Some((t@.subrange(a as int, b as int), t@.subrange(b as int, t@.len() as int))),
            None => parse_field(t@.subrange(i as int, t@.len() as int)) is None,
        },
{
    let len = t.len();
    let (n, k) = match parse_num_exec(t, i, len) {
        Some(p) => p,
        None => {
            return None;
        },
    };
    if k == len {
        return None;
    }
    if t[k] != ':' {
        return None;
    }
    if n > len - k - 1 {
        return None;
    }
    let a = k + 1;
    let b = a + n;
    proof {
        let r = t@.subrange(k as int, len as int);
        assert(r[0] == ':');
        assert(r.subrange(1, 1 + n as int) =~= t@.subrange(a as int, b as int));
        assert(r.subrange(1 + n as int, r.len() as int) =~= t@.subrange(b as int, len as int));
    }
    Some((a, b))
}

// ---------------------------------------------------------------------------
// Session claims and the token format.
//
// A token is three dot-separated parts: a fixed header naming the signing
// algorithm, a payload of four length-prefixed fields (subject id, email,
// role, expiry as Unix seconds), and an HMAC-SHA256 tag over everything
// before it. Length prefixes make the payload unambiguous whatever the
// fields contain, and the tag makes any alteration detectable.
// ---------------------------------------------------------------------------

/// The decoded, verified content of a token.
#[derive(Clone, Debug)]
pub struct Claims {
    pub sub: String,
    pub email: String,
    pub role: String,
    pub exp: usize,
}

/// The mathematical image of `Claims`.
pub struct ClaimsView {
    pub sub: Seq<char>,
    pub email: Seq<char>,
    pub role: Seq<char>,
    pub exp: usize,
}

impl View for Claims {
    type V = ClaimsView;

    open spec fn view(&self) -> ClaimsView {
        ClaimsView { sub: self.sub@, email: self.email@, role: self.role@, exp: self.exp }
    }
}

/// How long an issued token stays valid, in seconds.
pub const TOKEN_TTL_SECONDS: usize = 86400;

/// The claims issued for a user at time `now`.
pub open spec fn issued_claims(u: UserView, now: usize) -> ClaimsView {
    ClaimsView { sub: u.id, email: u.email, role: u.role, exp: (now + TOKEN_TTL_SECONDS) as usize }
}

/// What `jsonwebtoken::crypto::sign` returns for HS256: the base64url encoding
/// of the HMAC-SHA256 tag of the message under the key. A function of the two
/// strings alone.
pub uninterp spec fn hs256_sig(message: Seq<char>, key: Seq<char>) -> Seq<char>;

/// One length-prefixed field of the payload.
pub open spec fn field_chars(s: Seq<char>) -> Seq<char> {
    dec_chars(s.len()) + seq![':'] + s
}

/// The fixed header: the pinned algorithm name and the separating dot.
pub open spec fn header_chars() -> Seq<char> {
    seq!['H', 'S', '2', '5', '6', '.']
}

/// Everything the signature covers: header and payload.
pub open spec fn signing_input(c: ClaimsView) -> Seq<char> {
    header_chars() + field_chars(c.sub) + field_chars(c.email) + field_chars(c.role)
        + field_chars(dec_chars(c.exp as nat))
}

/// The complete token for claims `c` under signing key `key`.
pub open spec fn token_chars(c: ClaimsView, key: Seq<char>) -> Seq<char> {
    signing_input(c) + seq!['.'] + hs256_sig(signing_input(c), key)
}

/// Parse a token's structure: on success, the claims, the signed message
/// (everything before the last part) and the signature part.
pub open spec fn parse_token(t: Seq<char>) -> Option<(ClaimsView, Seq<char>, Seq<char>)> {
    if t.len() >= 6 && t.subrange(0, 6) == header_chars() {
        let r0 = t.subrange(6, t.len() as int);
        match parse_field(r0) {
            Some((sub, r1)) => match parse_field(r1) {
                Some((email, r2)) => match parse_field(r2) {
                    Some((role, r3)) => match parse_field(r3) {
                        Some((expf, r4)) => match parse_num(expf) {
                            Some((exp, rem)) => if rem.len() == 0 && r4.len() >= 1 && r4[0]
                                == '.' {
                                let sig = r4.subrange(1, r4.len() as int);
                                let msg = t.subrange(0, t.len() - r4.len());
                                Some((ClaimsView { sub, email, role, exp }, msg, sig))
                            } else {
                                None
                            },
                            None => None,
                        },
                        None => None,
                    },
                    None => None,
                },
                None => None,
            },
            None => None,
        }
    } else {
        None
    }
}

/// What verification answers for a token under a key at time `now`: the claims
/// exactly when the structure parses, the signature is the one the key yields
/// for the signed message, and the expiry lies in the future; `InvalidToken`
/// in every other case, with no distinction between them.
pub open spec fn verify_model(t: Seq<char>, key: Seq<char>, now: usize) -> Result<
    ClaimsView,
    AuthError,
> {
    match parse_token(t) {
        Some((c, msg, sig)) => if sig == hs256_sig(msg, key) && now < c.exp {
            Ok(c)
        } else {
            Err(AuthError::InvalidToken)
        },
        None => Err(AuthError::InvalidToken),
    }
}

/// Relies on `jsonwebtoken::crypto::sign` with the HS256 algorithm and a key
/// built by `EncodingKey::from_secret`: the base64url-encoded HMAC-SHA256 tag
/// of the message bytes under the secret, deterministic in the two strings.
/// Under this crate's RustCrypto backend — the process's default crypto
/// provider, and nothing here installs another — HMAC accepts keys of any
/// length and signing cannot fail.
#[verifier::external_body]
fn hmac_sha256_sign(message: &str, key: &str) -> (r: String)
    ensures
        r@ == hs256_sig(message@, key@),
{
    let encoding_key = jsonwebtoken::EncodingKey::from_secret(key.as_bytes());
    jsonwebtoken::crypto::sign(message.as_bytes(), &encoding_key, jsonwebtoken::Algorithm::HS256)
        .expect("HMAC signing with the RustCrypto provider cannot fail")
}

/// Append one length-prefixed field holding the characters of `s`.
fn push_field(v: &mut Vec<char>, s: &str)
    ensures
        final(v)@ == old(v)@ + field_chars(s@),
{
    let n = s.unicode_len();
    push_dec(v, n);
    v.push(':');
    push_str_chars(v, s);
    proof {
        assert(final(v)@ =~= old(v)@ + field_chars(s@));
    }
}

/// Append one length-prefixed field holding the characters of `f`.
#[verifier::loop_isolation(false)]
fn push_vec_field(v: &mut Vec<char>, f: &Vec<char>)
    ensures
        final(v)@ == old(v)@ + field_chars(f@),
{
    let n = f.len();
    push_dec(v, n);
    v.push(':');
    let ghost mid = v@;
    let mut i: usize = 0;
    while i < n
        invariant
            i <= n,
            n == f@.len(),
            v@ == mid + f@.subrange(0, i as int),
        decreases n - i,
    {
        v.push(f[i]);
        proof {
            assert(v@ =~= mid + f@.subrange(0, i + 1 as int));
        }
        i += 1;
    }
    proof {
        assert(f@.subrange(0, n as int) =~= f@);
        assert(v@ =~= old(v)@ + field_chars(f@));
    }
}

/// The one place secrets and signatures are handled: issues and verifies the
/// session tokens. Holds the signing secret for the process's lifetime; the
/// secret is injected at construction and never exposed.
pub struct TokenCodec {
    secret: String,
}

impl View for TokenCodec {
    type V = Seq<char>;

    /// A codec is viewed as its signing secret.
    closed spec fn view(&self) -> Seq<char> {
        self.secret@
    }
}

impl TokenCodec {
    /// Build a codec from the configured signing secret. An empty secret is
    /// refused: the service must not start without one.
    pub fn new(secret: String) -> (r: Result<TokenCodec, AuthError>)
        ensures
            r is Ok <==> secret@.len() > 0,
            r is Ok ==> r->Ok_0@ == secret@,
            r is Err ==> r == Err::<TokenCodec, AuthError>(AuthError::ValidationFailure),
    {
        if secret.as_str().is_empty() {
            Err(AuthError::ValidationFailure)
        } else {
            Ok(TokenCodec { secret })
        }
    }

    /// Issue a signed token for `user`, valid for `TOKEN_TTL_SECONDS` from
    /// `now`: exactly the signed encoding of the issued claims, nothing else —
    /// HMAC signing with this codec's secret cannot fail, so no unsigned or
    /// partial token can ever leave here.
    pub fn issue(&self, user: &User, now: usize) -> (t: String)
        requires
            now <= usize::MAX - TOKEN_TTL_SECONDS,
        ensures
            t@ == token_chars(issued_claims(user@, now), self@),
    {
        let ghost c = issued_claims(user@, now);
        let mut m: Vec<char> = Vec::new();
        push_str_chars(&mut m, "HS256.");
        proof {
            reveal_strlit("HS256.");
            assert(m@ =~= header_chars());
        }
        push_field(&mut m, user.id.as_str());
        push_field(&mut m, user.email.as_str());
        push_field(&mut m, user.role.as_str());
        let exp = now + TOKEN_TTL_SECONDS;
        let mut ef: Vec<char> = Vec::new();
        push_dec(&mut ef, exp);
        push_vec_field(&mut m, &ef);
        proof {
            assert(m@ =~= signing_input(c));
        }
        let msg = chars_to_string(&m);
        let sig = hmac_sha256_sign(msg.as_str(), self.secret.as_str());
        let mut tv = m;
        tv.push('.');
        push_str_chars(&mut tv, sig.as_str());
        let token = chars_to_string(&tv);
        proof {
            assert(token@ =~= token_chars(c, self@));
        }
        token
    }

    /// Verify a presented token at time `now`. Accepts only tokens whose
    /// structure parses, whose signature matches the one this codec's secret
    /// yields for the signed part, and whose expiry lies in the future; every
    /// rejection is the single `InvalidToken`. The algorithm is pinned: the
    /// recomputation always uses HMAC-SHA256, and the signature covers the
    /// header, so a token naming any other algorithm cannot pass. The answer
    /// is exactly the model's: a well-formed, correctly signed, unexpired
    /// token is owed its claims.
    pub fn verify(&self, token: &str, now: usize) -> (r: Result<Claims, AuthError>)
        ensures
            match r {
                Ok(c) => verify_model(token@, self@, now) == Ok::<ClaimsView, AuthError>(c@),
                Err(e) => verify_model(token@, self@, now) == Err::<ClaimsView, AuthError>(e),
            },
    {
        let mut t: Vec<char> = Vec::new();
        push_str_chars(&mut t, token);
        proof {
            assert(t@ =~= token@);
        }
        let len = t.len();
        if len < 6 {
            return Err(AuthError::InvalidToken);
        }
        if t[0] != 'H' || t[1] != 'S' || t[2] != '2' || t[3] != '5' || t[4] != '6' || t[5] != '.' {
            proof {
                assert(t@.subrange(0, 6) != header_chars());
            }
            return Err(AuthError::InvalidToken);
        }
        proof {
            assert(t@.subrange(0, 6) =~= header_chars());
        }
        let (a1, b1) = match parse_field_exec(&t, 6) {
            Some(p) => p,
            None => {
                return Err(AuthError::InvalidToken);
            },
        };
        let (a2, b2) = match parse_field_exec(&t, b1) {
            Some(p) => p,
            None => {
                return Err(AuthError::InvalidToken);
            },
        };
        let (a3, b3) = match parse_field_exec(&t, b2) {
            Some(p) => p,
            None => {
                return Err(AuthError::InvalidToken);
            },
        };
        let (a4, b4) = match parse_field_exec(&t, b3) {
            Some(p) => p,
            None => {
                return Err(AuthError::InvalidToken);
            },
        };
        let (exp, jnum) = match parse_num_exec(&t, a4, b4) {
            Some(p) => p,
            None => {
                return Err(AuthError::InvalidToken);
            },
        };
        if jnum != b4 {
            proof {
                assert(t@.subrange(jnum as int, b4 as int).len() != 0);
            }
            return Err(AuthError::InvalidToken);
        }
        proof {
            assert(t@.subrange(jnum as int, b4 as int).len() == 0);
        }
        if b4 == len {
            return Err(AuthError::InvalidToken);
        }
        if t[b4] != '.' {
            return Err(AuthError::InvalidToken);
        }
        let msg = chars_substring(&t, 0, b4);
        let sig = chars_substring(&t, b4 + 1, len);
        let ghost r4 = t@.subrange(b4 as int, len as int);
        proof {
            assert(r4[0] == '.');
            assert(r4.subrange(1, r4.len() as int) =~= t@.subrange(b4 + 1 as int, len as int));
            assert(t@.subrange(0, t@.len() - r4.len()) =~= t@.subrange(0, b4 as int));
        }
        let expected = hmac_sha256_sign(msg.as_str(), self.secret.as_str());
        if expected != sig {
            return Err(AuthError::InvalidToken);
        }
        if now >= exp {
            return Err(AuthError::InvalidToken);
        }
        let c = Claims {
            sub: chars_substring(&t, a1, b1),
            email: chars_substring(&t, a2, b2),
            role: chars_substring(&t, a3, b3),
            exp,
        };
        Ok(c)
    }
}

// ---------------------------------------------------------------------------
// The encoding laws: what was encoded parses back, exactly.
// ---------------------------------------------------------------------------

pub open spec fn pow10(k: nat) -> nat
    decreases k,
{
    if k == 0 {
        1
    } else {
        10 * pow10((k - 1) as nat)
    }
}

proof fn lemma_dec_first_digit(n: nat)
    ensures
        dec_chars(n).len() >= 1,
        is_digit(dec_chars(n)[0]),
    decreases n,
{
    if n >= 10 {
        lemma_dec_first_digit(n / 10);
        assert(dec_chars(n)[0] == dec_chars(n / 10)[0]);
    } else {
        assert(is_digit(digit_char(n)));
    }
}

proof fn lemma_parse_num_rec_dec(n: usize, acc: usize, rest: Seq<char>)
    requires
        acc as nat * pow10(dec_chars(n as nat).len()) + n as nat <= usize::MAX as nat,
    ensures
        parse_num_rec(dec_chars(n as nat) + rest, acc) == parse_num_rec(
            rest,
            ((acc as nat * pow10(dec_chars(n as nat).len()) + n as nat) as usize),
        ),
    decreases n,
{
    if n < 10 {
        let s = dec_chars(n as nat) + rest;
        assert(s[0] == digit_char(n as nat));
        assert(is_digit(s[0]));
        assert(digit_val(s[0]) == n as nat);
        assert(pow10(1) == 10) by {
            reveal_with_fuel(pow10, 2);
        }
        assert(s.drop_first() =~= rest);
    } else {
        let q = (n / 10) as usize;
        let d = (n % 10) as usize;
        lemma_fundamental_div_mod(n as int, 10);
        let k = dec_chars(q as nat).len();
        assert(dec_chars(n as nat) == dec_chars(q as nat).push(digit_char(d as nat)));
        assert(dec_chars(n as nat).len() == k + 1);
        assert(pow10(k + 1) == 10 * pow10(k));
        let tail = seq![digit_char(d as nat)] + rest;
        assert(dec_chars(n as nat) + rest =~= dec_chars(q as nat) + tail);
        assert(acc as nat * pow10(k) + q as nat <= usize::MAX as nat) by (nonlinear_arith)
            requires
                acc as nat * pow10(k + 1) + n as nat <= usize::MAX as nat,
                pow10(k + 1) == 10 * pow10(k),
                n as nat == 10 * (q as nat) + d as nat,
                (d as nat) < 10,
        ;
        lemma_parse_num_rec_dec(q, acc, tail);
        let m = ((acc as nat * pow10(k) + q as nat) as usize);
        assert(tail[0] == digit_char(d as nat));
        assert(is_digit(tail[0]));
        assert(digit_val(tail[0]) == d as nat);
        assert(m as nat * 10 + d as nat == acc as nat * pow10(k + 1) + n as nat)
            by (nonlinear_arith)
            requires
                m as nat == acc as nat * pow10(k) + q as nat,
                pow10(k + 1) == 10 * pow10(k),
                n as nat == 10 * (q as nat) + d as nat,
        ;
        assert(tail.drop_first() =~= rest);
    }
}

proof fn lemma_parse_num_dec(n: usize, rest: Seq<char>)
    requires
        rest.len() == 0 || !is_digit(rest[0]),
    ensures
        parse_num(dec_chars(n as nat) + rest) == Some((n, rest)),
{
    lemma_dec_first_digit(n as nat);
    let s = dec_chars(n as nat) + rest;
    assert(s[0] == dec_chars(n as nat)[0]);
    assert(0 as nat * pow10(dec_chars(n as nat).len()) + n as nat == n as nat)
        by (nonlinear_arith);
    lemma_parse_num_rec_dec(n, 0, rest);
    assert(parse_num_rec(rest, n) == Some((n, rest)));
}

proof fn lemma_parse_field_enc(s: Seq<char>, rest: Seq<char>)
    requires
        s.len() <= usize::MAX,
    ensures
        parse_field(field_chars(s) + rest) == Some((s, rest)),
{
    let mid = seq![':'] + s + rest;
    assert(field_chars(s) + rest =~= dec_chars(s.len()) + mid);
    assert(mid[0] == ':');
    assert(!is_digit(':'));
    lemma_parse_num_dec(s.len() as usize, mid);
    assert(mid.subrange(1, 1 + s.len() as int) =~= s);
    assert(mid.subrange(1 + s.len() as int, mid.len() as int) =~= rest);
}

/// The structural inverse: whatever signature part is attached, the encoded
/// claims parse back to themselves, the signed message is recovered exactly,
/// and the signature part is returned untouched.
pub proof fn lemma_parse_token_enc(c: ClaimsView, sig: Seq<char>)
    requires
        c.sub.len() <= usize::MAX,
        c.email.len() <= usize::MAX,
        c.role.len() <= usize::MAX,
    ensures
        parse_token(signing_input(c) + seq!['.'] + sig) == Some((c, signing_input(c), sig)),
{
    let t = signing_input(c) + seq!['.'] + sig;
    assert(t.subrange(0, 6) =~= header_chars());
    let f1 = field_chars(c.sub);
    let f2 = field_chars(c.email);
    let f3 = field_chars(c.role);
    let f4 = field_chars(dec_chars(c.exp as nat));
    let dot_sig = seq!['.'] + sig;
    let r0 = t.subrange(6, t.len() as int);
    assert(r0 =~= f1 + (f2 + (f3 + (f4 + dot_sig))));
    lemma_parse_field_enc(c.sub, f2 + (f3 + (f4 + dot_sig)));
    lemma_parse_field_enc(c.email, f3 + (f4 + dot_sig));
    lemma_parse_field_enc(c.role, f4 + dot_sig);
    assert(dec_chars(c.exp as nat).len() <= usize::MAX) by {
        lemma_dec_len_bound(c.exp as nat);
    }
    lemma_parse_field_enc(dec_chars(c.exp as nat), dot_sig);
    assert(dec_chars(c.exp as nat) + Seq::<char>::empty() =~= dec_chars(c.exp as nat));
    lemma_parse_num_dec(c.exp, Seq::<char>::empty());
    assert(dot_sig[0] == '.');
    assert(dot_sig.subrange(1, dot_sig.len() as int) =~= sig);
    assert(t.subrange(0, t.len() - dot_sig.len()) =~= signing_input(c));
}

proof fn lemma_dec_len_bound(n: nat)
    ensures
        n == 0 ==> dec_chars(n).len() == 1,
        n >= 1 ==> dec_chars(n).len() <= n,
    decreases n,
{
    if n >= 10 {
        lemma_dec_len_bound(n / 10);
        assert(n / 10 >= 1 && n / 10 + 1 <= n) by (nonlinear_arith)
            requires
                n >= 10,
        ;
    }
}

/// Round trip: a token issued for claims `c` under `key` verifies back to
/// exactly `c` at any time before its expiry — in particular, the verified
/// subject is the identity the token was issued for.
pub proof fn lemma_issue_verify_roundtrip(c: ClaimsView, key: Seq<char>, now: usize)
    requires
        c.sub.len() <= usize::MAX,
        c.email.len() <= usize::MAX,
        c.role.len() <= usize::MAX,
        now < c.exp,
    ensures
        verify_model(token_chars(c, key), key, now) == Ok::<ClaimsView, AuthError>(c),
{
    lemma_parse_token_enc(c, hs256_sig(signing_input(c), key));
}

/// An expired token is rejected: with `exp` at or before `now` — one second in
/// the past included — verification answers `InvalidToken`.
pub proof fn lemma_expired_token_rejected(c: ClaimsView, key: Seq<char>, now: usize)
    requires
        c.sub.len() <= usize::MAX,
        c.email.len() <= usize::MAX,
        c.role.len() <= usize::MAX,
        now >= c.exp,
    ensures
        verify_model(token_chars(c, key), key, now) == Err::<ClaimsView, AuthError>(
            AuthError::InvalidToken,
        ),
{
    lemma_parse_token_enc(c, hs256_sig(signing_input(c), key));
}

/// Tamper evidence: replacing the signature part of a well-formed token by
/// anything other than the key's own signature of the message is rejected,
/// whatever the time.
pub proof fn lemma_tampered_signature_rejected(
    c: ClaimsView,
    key: Seq<char>,
    sig: Seq<char>,
    now: usize,
)
    requires
        c.sub.len() <= usize::MAX,
        c.email.len() <= usize::MAX,
        c.role.len() <= usize::MAX,
        sig != hs256_sig(signing_input(c), key),
    ensures
        verify_model(signing_input(c) + seq!['.'] + sig, key, now) == Err::<
            ClaimsView,
            AuthError,
        >(AuthError::InvalidToken),
{
    lemma_parse_token_enc(c, sig);
}

} // verus!
