use vstd::prelude::*;
use vstd::string::StrSliceExecFns;

verus! {

/// A decimal digit character.
pub open spec fn is_digit_char(c: char) -> bool {
    48 <= c as u32 <= 57
}

/// Every character of the string is a decimal digit.
pub open spec fn all_digits(s: Seq<char>) -> bool {
    forall|i: int| 0 <= i < s.len() ==> is_digit_char(#[trigger] s[i])
}

/// The digit part of an unsigned decimal numeral: the string with its one
/// optional leading plus sign removed.
pub open spec fn numeral_digits(s: Seq<char>) -> Seq<char> {
    if s.len() > 0 && s[0] == '+' {
        s.drop_first()
    } else {
        s
    }
}

/// The value of one digit character.
pub open spec fn digit_val(c: char) -> nat
    recommends
        is_digit_char(c),
{
    (c as u32 - 48) as nat
}

/// The number a string of decimal digits denotes, read left to right.
pub open spec fn digits_val(s: Seq<char>) -> nat
    decreases s.len(),
{
    if s.len() == 0 {
        0
    } else {
        digits_val(s.drop_last()) * 10 + digit_val(s.last())
    }
}

/// A longer digit string never denotes a smaller number than its prefix.
proof fn lemma_digits_val_prefix_monotone(s: Seq<char>, i: int, j: int)
    requires
        0 <= i <= j <= s.len(),
    ensures
        digits_val(s.take(i)) <= digits_val(s.take(j)),
    decreases j - i,
{
    if i < j {
        lemma_digits_val_prefix_monotone(s, i, j - 1);
        assert(s.take(j).drop_last() =~= s.take(j - 1));
    }
}

/// Reads a string as an unsigned decimal numeral: the digits' value when
/// the string is non-empty, all digits, and the value fits; nothing
/// otherwise.
pub fn parse_code_number(s: &str) -> (r: Option<u32>)
    ensures
        r is Some <==> (s@.len() > 0 && all_digits(s@) && digits_val(s@) <= u32::MAX),
        r is Some ==> r->Some_0 == digits_val(s@),
{
    let n = s.unicode_len();
    if n == 0 {
        return None;
    }
    let mut acc: u32 = 0;
    let mut i: usize = 0;
    while i < n
        invariant
            n == s@.len(),
            0 <= i <= n,
            all_digits(s@.take(i as int)),
            acc == digits_val(s@.take(i as int)),
        decreases n - i,
    {
        let c = s.get_char(i);
        let cv = c as u32;
        if cv < 48 || cv > 57 {
            proof {
                assert(!is_digit_char(s@[i as int]));
            }
            return None;
        }
        let digit = cv - 48;
        proof {
            vstd::arithmetic::div_mod::lemma_fundamental_div_mod(
                u32::MAX - digit,
                10,
            );
            vstd::arithmetic::div_mod::lemma_mod_bound(u32::MAX - digit, 10);
            assert(s@.take(i + 1).drop_last() =~= s@.take(i as int));
            assert(s@.take(i + 1).last() == s@[i as int]);
        }
        if acc > (u32::MAX - digit) / 10 {
            proof {
                lemma_digits_val_prefix_monotone(s@, i + 1, n as int);
                assert(s@.take(n as int) =~= s@);
            }
            return None;
        }
        acc = acc * 10 + digit;
        i = i + 1;
    }
    proof {
        assert(s@.take(n as int) =~= s@);
    }
    Some(acc)
}

/// A six-digit second-factor code, kept in the exact text form it was
/// presented in.
#[derive(Debug, PartialEq)]
pub struct TwoFACode(String);

impl Clone for TwoFACode {
    fn clone(&self) -> (r: Self)
        ensures
            r == *self,
    {
        TwoFACode(self.0.clone())
    }
}

impl View for TwoFACode {
    type V = Seq<char>;

    closed spec fn view(&self) -> Seq<char> {
        self.0@
    }
}

impl TwoFACode {
    /// Accepts exactly the unsigned decimal numerals (digits, after one
    /// optional leading plus sign) denoting a value between 100000 and
    /// 999999, and keeps the text as presented (sign, leading zeroes and
    /// all).
    pub fn parse(code: String) -> (r: Result<TwoFACode, String>)
        ensures
            r is Ok <==> ({
                let d = numeral_digits(code@);
                &&& d.len() > 0
                &&& all_digits(d)
                &&& 100_000 <= digits_val(d) <= 999_999
            }),
            r is Ok ==> r->Ok_0@ == code@,
            r is Err ==> r->Err_0@ == "Invalid 2FA code"@,
    {
        let text = code.as_str();
        let n = text.unicode_len();
        let digits: &str = if n > 0 && text.get_char(0) == '+' {
            proof {
                assert(code@.drop_first() =~= code@.subrange(1, n as int));
            }
            text.substring_char(1, n)
        } else {
            text
        };
        match parse_code_number(digits) {
            Some(v) => {
                if 100_000 <= v && v <= 999_999 {
                    Ok(TwoFACode(code))
                } else {
                    Err("Invalid 2FA code".to_owned())
                }
            },
            None => Err("Invalid 2FA code".to_owned()),
        }
    }

    /// The code's text.
    pub fn as_str(&self) -> (r: &str)
        ensures
            r@ == self@,
    {
        self.0.as_str()
    }
}

/// The decimal digit bytes of `n`, most significant first.
pub open spec fn dec_bytes(n: nat) -> Seq<u8>
    decreases n,
{
    if n < 10 {
        seq![(48 + n) as u8]
    } else {
        dec_bytes(n / 10).push((48 + n % 10) as u8)
    }
}

/// The decimal numeral of `n` as characters, most significant first.
pub open spec fn dec_digits(n: nat) -> Seq<char>
    decreases n,
{
    if n < 10 {
        seq![((48 + n) as u8) as char]
    } else {
        dec_digits(n / 10).push(((48 + n % 10) as u8) as char)
    }
}

/// The digit characters of `n` are its digit bytes, read as characters.
proof fn lemma_dec_bytes_chars(n: nat)
    ensures
        dec_bytes(n).len() == dec_digits(n).len(),
        forall|i: int|
            0 <= i < dec_digits(n).len() ==> #[trigger] dec_digits(n)[i] == dec_bytes(n)[i] as char,
        forall|i: int| 0 <= i < dec_bytes(n).len() ==> 48 <= #[trigger] dec_bytes(n)[i] <= 57,
    decreases n,
{
    if n >= 10 {
        lemma_dec_bytes_chars(n / 10);
        vstd::arithmetic::div_mod::lemma_mod_bound(n as int, 10);
    }
}

/// The decimal numeral of `n` denotes `n`, is non-empty, is all digits,
/// and carries no leading zero.
proof fn lemma_dec_digits_val(n: nat)
    ensures
        dec_digits(n).len() > 0,
        all_digits(dec_digits(n)),
        digits_val(dec_digits(n)) == n,
        n >= 1 ==> dec_digits(n)[0] as u32 != 48,
    decreases n,
{
    if n < 10 {
        assert(dec_digits(n).drop_last() =~= Seq::<char>::empty());
        assert(dec_digits(n).last() == ((48 + n) as u8) as char);
        assert(digit_val(((48 + n) as u8) as char) == n);
    } else {
        lemma_dec_digits_val(n / 10);
        vstd::arithmetic::div_mod::lemma_mod_bound(n as int, 10);
        assert(dec_digits(n).drop_last() =~= dec_digits(n / 10));
        assert(digits_val(dec_digits(n).drop_last()) == n / 10);
        assert(dec_digits(n).last() == ((48 + n % 10) as u8) as char);
        assert(digit_val(dec_digits(n).last()) == n % 10);
        vstd::arithmetic::div_mod::lemma_fundamental_div_mod(n as int, 10);
        assert(digits_val(dec_digits(n)) == digits_val(dec_digits(n).drop_last()) * 10
            + digit_val(dec_digits(n).last()));
    }
}

/// Relies on String::from_utf8: bytes that are all ASCII digits decode to
/// exactly those characters.
#[verifier::external_body]
fn digit_bytes_to_string(bytes: Vec<u8>) -> (r: String)
    requires
        forall|i: int| 0 <= i < bytes@.len() ==> 48 <= #[trigger] bytes@[i] <= 57,
    ensures
        r@.len() == bytes@.len(),
        forall|i: int| 0 <= i < r@.len() ==> #[trigger] r@[i] == bytes@[i] as char,
{
    String::from_utf8(bytes).unwrap_or_default()
}

/// Appends the decimal digit bytes of `n`, most significant first.
fn push_digit_bytes(n: u32, out: &mut Vec<u8>)
    ensures
        final(out)@ == old(out)@ + dec_bytes(n as nat),
    decreases n,
{
    if n < 10 {
        out.push(48 + n as u8);
        proof {
            assert(final(out)@ =~= old(out)@ + dec_bytes(n as nat));
        }
    } else {
        push_digit_bytes(n / 10, out);
        out.push(48 + (n % 10) as u8);
        proof {
            assert(final(out)@ =~= old(out)@ + dec_bytes(n as nat));
        }
    }
}

/// The decimal numeral of `n`.
pub fn format_u32(n: u32) -> (r: String)
    ensures
        r@.len() > 0,
        all_digits(r@),
        digits_val(r@) == n,
        r@.len() > 1 ==> r@[0] as u32 != 48,
{
    let mut bytes: Vec<u8> = Vec::new();
    push_digit_bytes(n, &mut bytes);
    proof {
        lemma_dec_bytes_chars(n as nat);
        lemma_dec_digits_val(n as nat);
        assert(bytes@ =~= dec_bytes(n as nat));
    }
    let r = digit_bytes_to_string(bytes);
    proof {
        assert(r@ =~= dec_digits(n as nat));
    }
    r
}

/// Relies on rand::random_range: the sampled value lies within the given
/// (non-empty) range. Nothing more can be said of a random draw.
#[verifier::external_body]
fn sample_code_value() -> (r: u32)
    ensures
        100_000 <= r <= 999_999,
{
    rand::random_range(100_000u32..=999_999u32)
}

impl Default for TwoFACode {
    /// A freshly drawn six-digit code.
    fn default() -> (r: Self)
        ensures
            r@.len() > 0,
            all_digits(r@),
            100_000 <= digits_val(r@) <= 999_999,
    {
        let v = sample_code_value();
        TwoFACode(format_u32(v))
    }
}

/// What `uuid::Uuid::parse_str`, followed by the canonical hyphenated
/// rendering of the parsed value, yields for a given string: nothing
/// where the string is no UUID text form, else the canonical form.
pub uninterp spec fn uuid_normal_form(s: Seq<char>) -> Option<Seq<char>>;

/// Relies on uuid::Uuid::parse_str (a pure function of its input,
/// accepting the simple, hyphenated, braced and urn text forms) and on
/// uuid::Uuid's Display, which renders the parsed value canonically:
/// hyphenated, lowercase, 36 characters.
#[verifier::external_body]
fn normalize_uuid(s: &str) -> (r: Option<String>)
    ensures
        r is Some <==> uuid_normal_form(s@) is Some,
        r is Some ==> r->Some_0@ == uuid_normal_form(s@)->Some_0 && r->Some_0@.len() == 36,
{
    match uuid::Uuid::parse_str(s) {
        Ok(u) => Some(u.to_string()),
        Err(_) => None,
    }
}

/// Relies on uuid::Uuid::new_v4 (a fresh random UUID) and on uuid::Uuid's
/// Display: the canonical hyphenated rendering is 36 characters. Nothing
/// more can be said of a random draw.
#[verifier::external_body]
fn fresh_uuid_string() -> (r: String)
    ensures
        r@.len() == 36,
{
    uuid::Uuid::new_v4().to_string()
}

/// One login attempt's identifier: a UUID, kept in canonical text form.
#[derive(Debug, PartialEq)]
pub struct LoginAttemptId(String);

impl Clone for LoginAttemptId {
    fn clone(&self) -> (r: Self)
        ensures
            r == *self,
    {
        LoginAttemptId(self.0.clone())
    }
}

impl View for LoginAttemptId {
    type V = Seq<char>;

    closed spec fn view(&self) -> Seq<char> {
        self.0@
    }
}

impl LoginAttemptId {
    /// Accepts exactly the UUID text forms and keeps the canonical
    /// rendering of the parsed value.
    pub fn parse(id: String) -> (r: Result<LoginAttemptId, String>)
        ensures
            r is Ok <==> uuid_normal_form(id@) is Some,
            r is Ok ==> r->Ok_0@ == uuid_normal_form(id@)->Some_0 && r->Ok_0@.len() == 36,
            r is Err ==> r->Err_0@ == "Invalid login attempt id"@,
    {
        match normalize_uuid(id.as_str()) {
            Some(parsed) => Ok(LoginAttemptId(parsed)),
            None => Err("Invalid login attempt id".to_owned()),
        }
    }

    /// The identifier's text.
    pub fn as_str(&self) -> (r: &str)
        ensures
            r@ == self@,
    {
        self.0.as_str()
    }
}

impl Default for LoginAttemptId {
    /// A freshly drawn identifier, in canonical text form.
    fn default() -> (r: Self)
        ensures
            r@.len() == 36,
    {
        LoginAttemptId(fresh_uuid_string())
    }
}

} // verus!
