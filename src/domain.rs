//! Validated credential values: email addresses, passwords, two-factor
//! challenge identifiers and one-time codes.
use rand::Rng;
use vstd::prelude::*;
use vstd::string::*;
use vstd::utf8::encode_utf8;

verus! {

/// The length of a text in bytes, as it is encoded in UTF-8.
pub open spec fn byte_len(s: Seq<char>) -> nat {
    encode_utf8(s).len()
}

/// An email address is accepted when it holds an `@` and is at least eight
/// bytes long.
pub open spec fn valid_email(s: Seq<char>) -> bool {
    s.contains('@') && byte_len(s) >= 8
}

/// A password is accepted when it is at least eight bytes long.
pub open spec fn valid_password(s: Seq<char>) -> bool {
    byte_len(s) >= 8
}

/// A one-time code is accepted when it is exactly six bytes long.
pub open spec fn valid_code(s: Seq<char>) -> bool {
    byte_len(s) == 6
}

/// The character of a decimal digit.
pub open spec fn digit_char(d: nat) -> char {
    ((d + 48) as u8) as char
}

/// The length in bytes of `s`.
fn text_byte_len(s: &str) -> (r: usize)
    ensures
        r == byte_len(s@),
{
    s.as_bytes().len()
}

pub open spec fn is_hex_char(c: char) -> bool {
    ('0' <= c && c <= '9') || ('a' <= c && c <= 'f') || ('A' <= c && c <= 'F')
}

pub open spec fn is_lower_hex_char(c: char) -> bool {
    ('0' <= c && c <= '9') || ('a' <= c && c <= 'f')
}

/// The positions of the four hyphens in the hyphenated form of a UUID.
pub open spec fn is_hyphen_position(i: int) -> bool {
    i == 8 || i == 13 || i == 18 || i == 23
}

/// `xxxxxxxx-xxxx-xxxx-xxxx-xxxxxxxxxxxx`, with hexadecimal digits of either case.
pub open spec fn is_hyphenated_uuid(s: Seq<char>) -> bool {
    &&& s.len() == 36
    &&& forall|i: int| 0 <= i < 36 ==> if is_hyphen_position(i) {
        s[i] == '-'
    } else {
        is_hex_char(#[trigger] s[i])
    }
}

/// The hyphenated form with lower-case digits only, as a freshly generated
/// identifier is written.
pub open spec fn is_lower_hyphenated_uuid(s: Seq<char>) -> bool {
    &&& is_hyphenated_uuid(s)
    &&& forall|i: int| 0 <= i < 36 && !is_hyphen_position(i) ==> is_lower_hex_char(#[trigger] s[i])
}

pub open spec fn ascii_lower(c: char) -> char {
    if 'A' <= c && c <= 'Z' {
        ((c as u32 + 32) as u8) as char
    } else {
        c
    }
}

/// The texts accepted as a UUID: 32 hexadecimal digits; the hyphenated form;
/// the hyphenated form in braces; or the hyphenated form after a `urn:uuid:`
/// prefix of any case.
pub open spec fn is_uuid_text(s: Seq<char>) -> bool {
    ||| (s.len() == 32 && forall|i: int| 0 <= i < 32 ==> is_hex_char(#[trigger] s[i]))
    ||| is_hyphenated_uuid(s)
    ||| (s.len() == 38 && s[0] == '{' && s[37] == '}' && is_hyphenated_uuid(s.subrange(1, 37)))
    ||| (s.len() == 45 && is_hyphenated_uuid(s.subrange(9, 45)) && forall|i: int|
        0 <= i < 9 ==> ascii_lower(#[trigger] s[i]) == "urn:uuid:"@[i])
}

/// Relies on `uuid::Uuid::parse_str`, which accepts exactly the forms of
/// `is_uuid_text` (a character outside ASCII is never accepted).
#[verifier::external_body]
fn uuid_parses(s: &str) -> (r: bool)
    ensures
        r == is_uuid_text(s@),
{
    uuid::Uuid::parse_str(s).is_ok()
}

/// Relies on `uuid::Uuid::new_v4` and its `Display`, which writes the
/// hyphenated form in lower case.
#[verifier::external_body]
fn random_uuid_text() -> (r: String)
    ensures
        is_lower_hyphenated_uuid(r@),
{
    uuid::Uuid::new_v4().to_string()
}

/// Relies on `rand::Rng::gen_range` over the thread-local generator: a
/// uniformly drawn integer below ten.
#[verifier::external_body]
fn random_digit() -> (d: u8)
    ensures
        d < 10,
{
    rand::thread_rng().gen_range(0..10u8)
}

/// The one-character text of the decimal digit `d`.
pub(crate) fn digit_text(d: u8) -> (r: &'static str)
    requires
        d < 10,
    ensures
        r@ == seq![digit_char(d as nat)],
{
    proof {
        reveal_strlit("0");
        reveal_strlit("1");
        reveal_strlit("2");
        reveal_strlit("3");
        reveal_strlit("4");
        reveal_strlit("5");
        reveal_strlit("6");
        reveal_strlit("7");
        reveal_strlit("8");
        reveal_strlit("9");
    }
    let r = match d {
        0 => "0",
        1 => "1",
        2 => "2",
        3 => "3",
        4 => "4",
        5 => "5",
        6 => "6",
        7 => "7",
        8 => "8",
        _ => "9",
    };
    assert(r@ =~= seq![digit_char(d as nat)]);
    r
}

/// Whether the text holds an `@`.
fn has_at_sign(s: &str) -> (r: bool)
    ensures
        r == s@.contains('@'),
{
    let n = s.unicode_len();
    let mut i: usize = 0;
    while i < n
        invariant
            n == s@.len(),
            i <= n,
            forall|k: int| 0 <= k < i ==> s@[k] != '@',
        decreases n - i,
    {
        if s.get_char(i) == '@' {
            return true;
        }
        i = i + 1;
    }
    false
}

/// An account identifier: a text that holds an `@` and is at least eight
/// bytes long.
#[derive(Debug)]
pub struct Email(String);

impl View for Email {
    type V = Seq<char>;

    closed spec fn view(&self) -> Seq<char> {
        self.0@
    }
}

impl Email {
    #[verifier::type_invariant]
    spec fn inv(&self) -> bool {
        valid_email(self.0@)
    }

    /// Accepts `email` when it holds an `@` and is at least eight bytes long.
    pub fn parse(email: &str) -> (r: Result<Email, String>)
        ensures
            r is Ok <==> valid_email(email@),
            r matches Ok(e) ==> e@ == email@,
            r matches Err(m) ==> m@ == "Invalid Email Address: "@ + email@,
    {
        if !has_at_sign(email) || text_byte_len(email) < 8 {
            let mut message = String::from_str("Invalid Email Address: ");
            message.append(email);
            proof {
                reveal_strlit("Invalid Email Address: ");
            }
            return Err(message);
        }
        Ok(Email(email.to_owned()))
    }

    pub fn as_str(&self) -> (r: &str)
        ensures
            r@ == self@,
    {
        self.0.as_str()
    }

    /// A second value equal to this one.
    pub fn duplicate(&self) -> (r: Email)
        ensures
            r@ == self@,
    {
        proof {
            use_type_invariant(self);
        }
        Email(self.0.clone())
    }
}

impl PartialEq for Email {
    fn eq(&self, other: &Email) -> (r: bool) {
        self.0 == other.0
    }
}

impl vstd::std_specs::cmp::PartialEqSpecImpl for Email {
    open spec fn obeys_eq_spec() -> bool {
        true
    }

    open spec fn eq_spec(&self, other: &Email) -> bool {
        self@ == other@
    }
}

impl Eq for Email {

}

/// A secret of at least eight bytes.
#[derive(Debug)]
pub struct Password(String);

impl View for Password {
    type V = Seq<char>;

    closed spec fn view(&self) -> Seq<char> {
        self.0@
    }
}

impl Password {
    #[verifier::type_invariant]
    spec fn inv(&self) -> bool {
        valid_password(self.0@)
    }

    /// Accepts `password` when it is at least eight bytes long.
    pub fn parse(password: &str) -> (r: Result<Password, String>)
        ensures
            r is Ok <==> valid_password(password@),
            r matches Ok(p) ==> p@ == password@,
            r matches Err(m) ==> m@ == "Invalid Password"@,
    {
        if text_byte_len(password) < 8 {
            return Err(String::from_str("Invalid Password"));
        }
        Ok(Password(password.to_owned()))
    }

    pub fn as_str(&self) -> (r: &str)
        ensures
            r@ == self@,
    {
        self.0.as_str()
    }

    /// A second value equal to this one.
    pub fn duplicate(&self) -> (r: Password)
        ensures
            r@ == self@,
    {
        proof {
            use_type_invariant(self);
        }
        Password(self.0.clone())
    }
}

impl PartialEq for Password {
    fn eq(&self, other: &Password) -> (r: bool) {
        self.0 == other.0
    }
}

impl vstd::std_specs::cmp::PartialEqSpecImpl for Password {
    open spec fn obeys_eq_spec() -> bool {
        true
    }

    open spec fn eq_spec(&self, other: &Password) -> bool {
        self@ == other@
    }
}

impl Eq for Password {

}

/// A record of an account.
#[derive(Debug)]
pub struct User {
    pub email: Email,
    pub password: Password,
    pub requires_2fa: bool,
}

impl User {
    pub fn new(email: Email, password: Password, requires_2fa: bool) -> (r: User)
        ensures
            r.email@ == email@,
            r.password@ == password@,
            r.requires_2fa == requires_2fa,
    {
        User { email, password, requires_2fa }
    }
}

/// The identifier of one pending two-factor challenge.
#[derive(Debug, Clone)]
pub struct LoginAttemptId(pub String);

impl View for LoginAttemptId {
    type V = Seq<char>;

    open spec fn view(&self) -> Seq<char> {
        self.0@
    }
}

impl LoginAttemptId {
    /// Accepts `id` when it is written as a UUID.
    pub fn parse(id: String) -> (r: Result<LoginAttemptId, String>)
        ensures
            r is Ok <==> is_uuid_text(id@),
            r matches Ok(v) ==> v@ == id@,
            r matches Err(m) ==> m@ == "Not a valid uuid"@,
    {
        if uuid_parses(id.as_str()) {
            Ok(LoginAttemptId(id))
        } else {
            Err(String::from_str("Not a valid uuid"))
        }
    }

    /// A fresh identifier drawn at random.
    pub fn generate() -> (r: LoginAttemptId)
        ensures
            is_lower_hyphenated_uuid(r@),
    {
        LoginAttemptId(random_uuid_text())
    }

    pub fn as_str(&self) -> (r: &str)
        ensures
            r@ == self@,
    {
        self.0.as_str()
    }

    /// A second value equal to this one.
    pub fn duplicate(&self) -> (r: LoginAttemptId)
        ensures
            r@ == self@,
    {
        LoginAttemptId(self.0.clone())
    }
}

impl Default for LoginAttemptId {
    fn default() -> (r: LoginAttemptId)
        ensures
            is_lower_hyphenated_uuid(r@),
    {
        LoginAttemptId::generate()
    }
}

impl PartialEq for LoginAttemptId {
    fn eq(&self, other: &LoginAttemptId) -> (r: bool) {
        self.0 == other.0
    }
}

impl vstd::std_specs::cmp::PartialEqSpecImpl for LoginAttemptId {
    open spec fn obeys_eq_spec() -> bool {
        true
    }

    open spec fn eq_spec(&self, other: &LoginAttemptId) -> bool {
        self@ == other@
    }
}

pub open spec fn is_digit(c: char) -> bool {
    '0' <= c && c <= '9'
}

/// The secret of a two-factor challenge, delivered out of band.
#[derive(Debug, Clone)]
pub struct TwoFACode(pub String);

impl View for TwoFACode {
    type V = Seq<char>;

    open spec fn view(&self) -> Seq<char> {
        self.0@
    }
}

impl TwoFACode {
    /// Accepts `code` when it is six bytes long; its characters are not
    /// required to be digits.
    pub fn parse(code: String) -> (r: Result<TwoFACode, String>)
        ensures
            r is Ok <==> valid_code(code@),
            r matches Ok(v) ==> v@ == code@,
            r matches Err(m) ==> m@ == "Invalid 2FA Code"@,
    {
        if text_byte_len(code.as_str()) == 6 {
            Ok(TwoFACode(code))
        } else {
            Err(String::from_str("Invalid 2FA Code"))
        }
    }

    /// The code written with the decimal digits `digits`, in order.
    pub fn from_digits(digits: &Vec<u8>) -> (r: TwoFACode)
        requires
            digits@.len() == 6,
            forall|i: int| 0 <= i < 6 ==> digits@[i] < 10,
        ensures
            r@ == digits@.map_values(|d: u8| digit_char(d as nat)),
    {
        let mut text = String::new();
        let mut i: usize = 0;
        while i < 6
            invariant
                i <= 6,
                digits@.len() == 6,
                forall|k: int| 0 <= k < 6 ==> digits@[k] < 10,
                text@ == digits@.subrange(0, i as int).map_values(|d: u8| digit_char(d as nat)),
            decreases 6 - i,
        {
            text.append(digit_text(digits[i]));
            assert(digits@.subrange(0, i + 1) =~= digits@.subrange(0, i as int).push(digits@[i as int]));
            i = i + 1;
        }
        assert(digits@.subrange(0, 6) =~= digits@);
        TwoFACode(text)
    }

    /// Six decimal digits, each drawn uniformly at random.
    pub fn generate() -> (r: TwoFACode)
        ensures
            r@.len() == 6,
            forall|i: int| 0 <= i < 6 ==> is_digit(#[trigger] r@[i]),
    {
        let mut digits: Vec<u8> = Vec::new();
        let mut i: usize = 0;
        while i < 6
            invariant
                i <= 6,
                digits@.len() == i,
                forall|k: int| 0 <= k < i ==> #[trigger] digits@[k] < 10,
            decreases 6 - i,
        {
            digits.push(random_digit());
            i = i + 1;
        }
        let code = TwoFACode::from_digits(&digits);
        assert forall|i: int| 0 <= i < 6 implies is_digit(#[trigger] code@[i]) by {
            let b = (digits@[i] + 48) as u8;
            assert(b as char as u32 == b as u32);
        }
        code
    }

    pub fn as_str(&self) -> (r: &str)
        ensures
            r@ == self@,
    {
        self.0.as_str()
    }

    /// A second value equal to this one.
    pub fn duplicate(&self) -> (r: TwoFACode)
        ensures
            r@ == self@,
    {
        TwoFACode(self.0.clone())
    }
}

impl Default for TwoFACode {
    fn default() -> (r: TwoFACode)
        ensures
            r@.len() == 6,
            forall|i: int| 0 <= i < 6 ==> is_digit(#[trigger] r@[i]),
    {
        TwoFACode::generate()
    }
}

impl PartialEq for TwoFACode {
    fn eq(&self, other: &TwoFACode) -> (r: bool) {
        self.0 == other.0
    }
}

impl vstd::std_specs::cmp::PartialEqSpecImpl for TwoFACode {
    open spec fn obeys_eq_spec() -> bool {
        true
    }

    open spec fn eq_spec(&self, other: &TwoFACode) -> bool {
        self@ == other@
    }
}

/// The errors that the service reports to its callers.
#[derive(Debug, Clone, Copy, PartialEq, Eq, Structural)]
pub enum AuthAPIError {
    UserAlreadyExists,
    InvalidCredentials,
    UnexpectedError,
    IncorrectCredentials,
    MissingToken,
    InvalidToken,
}

} // verus!
