//! Session tokens. A token reads `<expiry>.<subject>.<signature>`: the expiry
//! in decimal seconds, the subject's email address, and the lower-case hex
//! HMAC-SHA256 of everything before the last dot under the signing secret.
use crate::domain::{digit_char, digit_text, is_digit, Email};
use crate::stores::BannedTokenStore;
use hmac::Mac;
use vstd::prelude::*;
use vstd::string::*;

verus! {

/// The HMAC-SHA256 tag of the UTF-8 bytes of `msg` under the UTF-8 bytes of
/// `key`.
pub uninterp spec fn mac_of(key: Seq<char>, msg: Seq<char>) -> Seq<u8>;

/// Relies on `hmac::Hmac<sha2::Sha256>`: `new_from_slice` takes a key of any
/// length, and `finalize` gives the 32-byte tag of what `update` was given.
#[verifier::external_body]
fn hmac_sha256(key: &str, msg: &str) -> (r: Vec<u8>)
    ensures
        r@ == mac_of(key@, msg@),
        r@.len() == 32,
{
    let mut mac = hmac::Hmac::<sha2::Sha256>::new_from_slice(key.as_bytes()).unwrap();
    mac.update(msg.as_bytes());
    mac.finalize().into_bytes().to_vec()
}

pub open spec fn hex_digit(d: nat) -> char {
    if d < 10 {
        ((d + 48) as u8) as char
    } else {
        ((d + 87) as u8) as char
    }
}

/// Two lower-case hexadecimal digits for each byte, high half first.
pub open spec fn hex_text(b: Seq<u8>) -> Seq<char>
    decreases b.len(),
{
    if b.len() == 0 {
        Seq::empty()
    } else {
        seq![hex_digit((b[0] / 16) as nat), hex_digit((b[0] % 16) as nat)] + hex_text(b.drop_first())
    }
}

/// Relies on `hex::encode`: two lower-case digits per byte, in order.
#[verifier::external_body]
fn hex_encode(bytes: &Vec<u8>) -> (r: String)
    ensures
        r@ == hex_text(bytes@),
{
    hex::encode(bytes)
}

pub open spec fn digit_value(c: char) -> nat {
    (c as u32 - 48) as nat
}

/// The decimal numeral of `n`, without leading zeros.
pub open spec fn decimal_of(n: nat) -> Seq<char>
    decreases n,
{
    if n < 10 {
        seq![digit_char(n)]
    } else {
        decimal_of(n / 10).push(digit_char(n % 10))
    }
}

/// The number that a string of decimal digits denotes.
pub open spec fn digits_value(s: Seq<char>) -> nat
    decreases s.len(),
{
    if s.len() == 0 {
        0
    } else {
        digits_value(s.drop_last()) * 10 + digit_value(s.last())
    }
}

/// The decimal numeral of `n`.
fn decimal_text(n: u64) -> (r: String)
    ensures
        r@ == decimal_of(n as nat),
    decreases n,
{
    if n < 10 {
        String::from_str(digit_text(n as u8))
    } else {
        let mut text = decimal_text(n / 10);
        text.append(digit_text((n % 10) as u8));
        assert(text@ =~= decimal_of(n as nat));
        text
    }
}

/// The signature of a token body.
pub open spec fn signature_of(secret: Seq<char>, body: Seq<char>) -> Seq<char> {
    hex_text(mac_of(secret, body))
}

pub open spec fn token_body(sub: Seq<char>, exp: nat) -> Seq<char> {
    decimal_of(exp) + seq!['.'] + sub
}

/// The token issued for `sub`, expiring at `exp`.
pub open spec fn token_text(secret: Seq<char>, sub: Seq<char>, exp: nat) -> Seq<char> {
    token_body(sub, exp) + seq!['.'] + signature_of(secret, token_body(sub, exp))
}

/// The number of decimal digits at the start of `s`.
pub open spec fn digit_run(s: Seq<char>) -> nat
    decreases s.len(),
{
    if s.len() > 0 && is_digit(s[0]) {
        1 + digit_run(s.drop_first())
    } else {
        0
    }
}

/// The number of characters after the last dot of `s` (all of them, if it
/// has none).
pub open spec fn tail_run(s: Seq<char>) -> nat
    decreases s.len(),
{
    if s.len() > 0 && s.last() != '.' {
        1 + tail_run(s.drop_last())
    } else {
        0
    }
}

/// The parts of a token text: the signed body, the subject, the expiry and
/// the signature. A text has them when it starts with a numeral that fits in
/// 64 bits, followed by a dot, and has a later dot.
pub open spec fn decode_token(raw: Seq<char>) -> Option<(Seq<char>, Seq<char>, nat, Seq<char>)> {
    let n = raw.len() as int;
    let p = digit_run(raw) as int;
    let d = n - 1 - tail_run(raw);
    if 0 <= d && 1 <= p && p < d && raw[p] == '.' && digits_value(raw.subrange(0, p))
        <= u64::MAX {
        Some(
            (
                raw.subrange(0, d),
                raw.subrange(p + 1, d),
                digits_value(raw.subrange(0, p)),
                raw.subrange(d + 1, n),
            ),
        )
    } else {
        None
    }
}

pub proof fn lemma_digit_run(s: Seq<char>, k: int)
    requires
        0 <= k <= s.len(),
        forall|j: int| 0 <= j < k ==> is_digit(#[trigger] s[j]),
        k == s.len() || !is_digit(s[k]),
    ensures
        digit_run(s) == k,
    decreases k,
{
    if k > 0 {
        let t = s.drop_first();
        assert forall|j: int| 0 <= j < k - 1 implies is_digit(#[trigger] t[j]) by {
            assert(t[j] == s[j + 1]);
        }
        if k < s.len() {
            assert(t[k - 1] == s[k]);
        }
        lemma_digit_run(t, k - 1);
    }
}

pub proof fn lemma_tail_run(s: Seq<char>, t: int)
    requires
        0 <= t <= s.len(),
        forall|j: int| 0 <= j < t ==> #[trigger] s[s.len() - 1 - j] != '.',
        t == s.len() || s[s.len() - 1 - t] == '.',
    ensures
        tail_run(s) == t,
    decreases t,
{
    if t > 0 {
        let r = s.drop_last();
        assert(s[s.len() - 1 - 0] != '.');
        assert forall|j: int| 0 <= j < t - 1 implies #[trigger] r[r.len() - 1 - j] != '.' by {
            assert(r[r.len() - 1 - j] == s[s.len() - 1 - (j + 1)]);
        }
        if t < s.len() {
            assert(r[r.len() - 1 - (t - 1)] == s[s.len() - 1 - t]);
        }
        lemma_tail_run(r, t - 1);
    }
}

proof fn lemma_digits_step(s: Seq<char>, i: int)
    requires
        0 <= i < s.len(),
    ensures
        digits_value(s.subrange(0, i + 1)) == digits_value(s.subrange(0, i)) * 10 + digit_value(
            s[i],
        ),
{
    assert(s.subrange(0, i + 1).drop_last() =~= s.subrange(0, i));
}

proof fn lemma_digits_monotone(s: Seq<char>, i: int, j: int)
    requires
        0 <= i <= j <= s.len(),
    ensures
        digits_value(s.subrange(0, i)) <= digits_value(s.subrange(0, j)),
    decreases j - i,
{
    if i < j {
        lemma_digits_monotone(s, i, j - 1);
        lemma_digits_step(s, j - 1);
    }
}

fn is_digit_char(c: char) -> (r: bool)
    ensures
        r == is_digit(c),
{
    '0' <= c && c <= '9'
}

#[derive(Debug, Clone, Copy, PartialEq, Eq, Structural)]
pub enum TokenError {
    InvalidSignature,
    Expired,
    Revoked,
    UnexpectedError,
}

/// What a token shows, its revocation aside: the subject and expiry when it
/// is well formed, signed under `secret` and not expired at `now`.
pub open spec fn check_token(secret: Seq<char>, raw: Seq<char>, now: nat) -> Result<
    (Seq<char>, nat),
    TokenError,
> {
    match decode_token(raw) {
        None => Err(TokenError::InvalidSignature),
        Some((body, sub, exp, sig)) => {
            if sig != signature_of(secret, body) {
                Err(TokenError::InvalidSignature)
            } else if exp <= now {
                Err(TokenError::Expired)
            } else {
                Ok((sub, exp))
            }
        },
    }
}

/// The outcome of validating `raw` at `now` against the revoked tokens.
pub open spec fn validation(secret: Seq<char>, raw: Seq<char>, now: nat, revoked: Set<Seq<char>>) -> Result<
    (Seq<char>, nat),
    TokenError,
> {
    match check_token(secret, raw, now) {
        Err(e) => Err(e),
        Ok(claims) => if revoked.contains(raw) {
            Err(TokenError::Revoked)
        } else {
            Ok(claims)
        },
    }
}

proof fn lemma_digit_char(d: nat)
    requires
        d < 10,
    ensures
        is_digit(digit_char(d)),
        digit_value(digit_char(d)) == d,
{
    let b = (d + 48) as u8;
    assert(b as char as u32 == b as u32);
}

proof fn lemma_decimal(n: nat)
    ensures
        decimal_of(n).len() >= 1,
        forall|i: int| 0 <= i < decimal_of(n).len() ==> is_digit(#[trigger] decimal_of(n)[i]),
        digits_value(decimal_of(n)) == n,
    decreases n,
{
    if n < 10 {
        lemma_digit_char(n);
        assert(seq![digit_char(n)].drop_last() =~= Seq::<char>::empty());
        assert(digits_value(Seq::<char>::empty()) == 0);
    } else {
        lemma_decimal(n / 10);
        lemma_digit_char(n % 10);
        let s = decimal_of(n);
        assert(s.drop_last() =~= decimal_of(n / 10));
        assert(s.last() == digit_char(n % 10));
        assert(digits_value(s) == digits_value(decimal_of(n / 10)) * 10 + n % 10);
        assert((n / 10) * 10 + n % 10 == n);
        assert forall|i: int| 0 <= i < s.len() implies is_digit(#[trigger] s[i]) by {
            if i < s.len() - 1 {
                assert(s[i] == decimal_of(n / 10)[i]);
            }
        }
    }
}

proof fn lemma_hex_has_no_dot(b: Seq<u8>)
    ensures
        forall|i: int| 0 <= i < hex_text(b).len() ==> #[trigger] hex_text(b)[i] != '.',
    decreases b.len(),
{
    if b.len() > 0 {
        lemma_hex_has_no_dot(b.drop_first());
        let head = seq![hex_digit((b[0] / 16) as nat), hex_digit((b[0] % 16) as nat)];
        let t = hex_text(b);
        assert(t == head + hex_text(b.drop_first()));
        assert forall|i: int| 0 <= i < t.len() implies #[trigger] t[i] != '.' by {
            if i >= 2 {
                assert(t[i] == hex_text(b.drop_first())[i - 2]);
            }
        }
    }
}

/// A token issued for `sub` that expires at `exp` is accepted at any earlier
/// time while it is not revoked, and it names `sub` and `exp`.
pub proof fn law_issued_token_validates(
    secret: Seq<char>,
    sub: Seq<char>,
    exp: nat,
    now: nat,
    revoked: Set<Seq<char>>,
)
    requires
        exp <= u64::MAX,
        now < exp,
        !revoked.contains(token_text(secret, sub, exp)),
    ensures
        validation(secret, token_text(secret, sub, exp), now, revoked) == Ok::<
            (Seq<char>, nat),
            TokenError,
        >((sub, exp)),
{
    let dec = decimal_of(exp);
    let body = token_body(sub, exp);
    let sig = signature_of(secret, body);
    let raw = token_text(secret, sub, exp);
    lemma_decimal(exp);
    lemma_hex_has_no_dot(mac_of(secret, body));
    let p = dec.len() as int;
    let d = p + 1 + sub.len();
    assert(raw.len() == d + 1 + sig.len());
    assert forall|j: int| 0 <= j < p implies is_digit(#[trigger] raw[j]) by {
        assert(raw[j] == dec[j]);
    }
    assert(raw[p] == '.');
    lemma_digit_run(raw, p);
    assert forall|j: int| 0 <= j < sig.len() implies #[trigger] raw[raw.len() - 1 - j] != '.' by {
        assert(raw[raw.len() - 1 - j] == sig[sig.len() - 1 - j]);
    }
    assert(raw[raw.len() - 1 - sig.len()] == '.');
    lemma_tail_run(raw, sig.len() as int);
    assert(raw.subrange(0, p) =~= dec);
    assert(raw.subrange(0, d) =~= body);
    assert(raw.subrange(p + 1, d) =~= sub);
    assert(raw.subrange(d + 1, raw.len() as int) =~= sig);
}

/// What a valid token states.
#[derive(Debug)]
pub struct Claims {
    pub sub: String,
    pub exp: u64,
}

/// Issues and validates session tokens under one signing secret and one
/// lifetime, in seconds.
pub struct TokenService {
    secret: String,
    lifetime: u64,
}

impl TokenService {
    pub closed spec fn secret(&self) -> Seq<char> {
        self.secret@
    }

    pub closed spec fn lifetime(&self) -> nat {
        self.lifetime as nat
    }

    pub fn new(secret: String, lifetime: u64) -> (r: TokenService)
        ensures
            r.secret() == secret@,
            r.lifetime() == lifetime,
    {
        TokenService { secret, lifetime }
    }

    /// How long an issued token stays valid, in seconds.
    pub fn lifetime_secs(&self) -> (r: u64)
        ensures
            r == self.lifetime(),
    {
        self.lifetime
    }

    fn sign(&self, body: &str) -> (r: String)
        ensures
            r@ == signature_of(self.secret(), body@),
    {
        let tag = hmac_sha256(self.secret.as_str(), body);
        hex_encode(&tag)
    }

    /// A token for `email` that expires one lifetime after `now`.
    pub fn issue(&self, email: &Email, now: u64) -> (r: String)
        requires
            now + self.lifetime() <= u64::MAX,
        ensures
            r@ == token_text(self.secret(), email@, (now + self.lifetime()) as nat),
    {
        proof {
            reveal_strlit(".");
        }
        let exp = now + self.lifetime;
        let mut body = decimal_text(exp);
        body.append(".");
        body.append(email.as_str());
        assert(body@ =~= token_body(email@, exp as nat));
        let signature = self.sign(body.as_str());
        let mut token = body;
        token.append(".");
        token.append(signature.as_str());
        assert(token@ =~= token_text(self.secret(), email@, exp as nat));
        token
    }

    /// Validates `raw` at time `now`: its form and signature first, then its
    /// expiry, and only then whether it was revoked.
    pub fn validate<B: BannedTokenStore>(&self, raw: &str, banned: &B, now: u64) -> (r: Result<
        Claims,
        TokenError,
    >)
        ensures
            banned.infallible() ==> r != Err::<Claims, TokenError>(TokenError::UnexpectedError),
            r matches Ok(c) ==> validation(self.secret(), raw@, now as nat, banned.tokens())
                == Ok::<(Seq<char>, nat), TokenError>((c.sub@, c.exp as nat)),
            r matches Err(e) ==> if e == TokenError::UnexpectedError {
                check_token(self.secret(), raw@, now as nat) is Ok
            } else {
                validation(self.secret(), raw@, now as nat, banned.tokens()) == Err::<
                    (Seq<char>, nat),
                    TokenError,
                >(e)
            },
    {
        let ghost s = raw@;
        let n = raw.unicode_len();
        let mut p: usize = 0;
        while p < n && is_digit_char(raw.get_char(p))
            invariant
                s == raw@,
                n == s.len(),
                p <= n,
                forall|j: int| 0 <= j < p ==> is_digit(#[trigger] s[j]),
            decreases n - p,
        {
            p = p + 1;
        }
        proof {
            lemma_digit_run(s, p as int);
        }
        let mut t: usize = 0;
        while t < n && raw.get_char(n - 1 - t) != '.'
            invariant
                s == raw@,
                n == s.len(),
                t <= n,
                forall|j: int| 0 <= j < t ==> #[trigger] s[s.len() - 1 - j] != '.',
            decreases n - t,
        {
            t = t + 1;
        }
        proof {
            lemma_tail_run(s, t as int);
        }
        if t == n || p == 0 || p >= n - 1 - t {
            return Err(TokenError::InvalidSignature);
        }
        let d = n - 1 - t;
        if raw.get_char(p) != '.' {
            return Err(TokenError::InvalidSignature);
        }
        let mut exp: u64 = 0;
        let mut i: usize = 0;
        while i < p
            invariant
                s == raw@,
                n == s.len(),
                p < n,
                i <= p,
                digit_run(s) == p,
                forall|j: int| 0 <= j < p ==> is_digit(#[trigger] s[j]),
                exp as nat == digits_value(s.subrange(0, i as int)),
            decreases p - i,
        {
            let c = raw.get_char(i);
            let v = (c as u32 - 48) as u64;
            proof {
                assert(is_digit(s[i as int]));
                lemma_digits_step(s, i as int);
            }
            match exp.checked_mul(10) {
                Some(m) => match m.checked_add(v) {
                    Some(x) => {
                        exp = x;
                    },
                    None => {
                        proof {
                            assert(digits_value(s.subrange(0, i + 1)) > u64::MAX);
                            lemma_digits_monotone(s, i + 1, p as int);
                            assert(decode_token(s) is None);
                        }
                        return Err(TokenError::InvalidSignature);
                    },
                },
                None => {
                    proof {
                        assert(exp * 10 > u64::MAX);
                        assert(digits_value(s.subrange(0, i + 1)) > u64::MAX);
                        lemma_digits_monotone(s, i + 1, p as int);
                        assert(decode_token(s) is None);
                    }
                    return Err(TokenError::InvalidSignature);
                },
            }
            i = i + 1;
        }
        let body = raw.substring_char(0, d);
        let given = raw.substring_char(d + 1, n).to_owned();
        let expected = self.sign(body);
        if expected != given {
            return Err(TokenError::InvalidSignature);
        }
        if exp <= now {
            return Err(TokenError::Expired);
        }
        match banned.contains_token(raw) {
            Err(_) => Err(TokenError::UnexpectedError),
            Ok(true) => Err(TokenError::Revoked),
            Ok(false) => Ok(Claims { sub: raw.substring_char(p + 1, d).to_owned(), exp }),
        }
    }
}

} // verus!
