//! How far apart health checks of a service run.

use vstd::prelude::*;

verus! {

/// `c` is one of the ASCII digits `0` to `9`.
pub open spec fn is_digit(c: char) -> bool {
    '0' as int <= c as int <= '9' as int
}

/// The number that the decimal digits `d` spell.
pub open spec fn digits_value(d: Seq<char>) -> nat
    decreases d.len(),
{
    if d.len() == 0 {
        0
    } else {
        digits_value(d.drop_last()) * 10 + (d.last() as int - '0' as int) as nat
    }
}

/// The text after an optional leading `+`.
pub open spec fn unsigned_digits(s: Seq<char>) -> Seq<char> {
    if s.len() > 0 && s[0] == '+' {
        s.drop_first()
    } else {
        s
    }
}

/// `s` is an optional `+` followed by one or more decimal digits whose
/// value fits in a `u64`: the texts `u64::from_str` accepts.
pub open spec fn is_u64_text(s: Seq<char>) -> bool {
    let d = unsigned_digits(s);
    &&& d.len() > 0
    &&& forall|i: int| 0 <= i < d.len() ==> is_digit(#[trigger] d[i])
    &&& digits_value(d) <= u64::MAX
}

/// The decimal digit for `d < 10`.
pub open spec fn digit_char(d: nat) -> char {
    ('0' as int + d) as char
}

/// The decimal text of `n`, without leading zeros.
pub open spec fn decimal_text(n: nat) -> Seq<char>
    decreases n,
{
    if n < 10 {
        seq![digit_char(n)]
    } else {
        decimal_text(n / 10) + seq![digit_char(n % 10)]
    }
}

/// The decimal text of a number is all digits, does not start with `+`,
/// and spells the number back.
proof fn lemma_decimal_text(n: nat)
    ensures
        decimal_text(n).len() > 0,
        forall|i: int| 0 <= i < decimal_text(n).len() ==> is_digit(#[trigger] decimal_text(n)[i]),
        digits_value(decimal_text(n)) == n,
    decreases n,
{
    if n >= 10 {
        lemma_decimal_text(n / 10);
        let t = decimal_text(n);
        assert(t.drop_last() =~= decimal_text(n / 10));
        assert(t.last() == digit_char(n % 10));
        assert(digit_char(n % 10) as int == '0' as int + n % 10);
        assert(digits_value(t) == digits_value(decimal_text(n / 10)) * 10 + n % 10);
        assert(n == (n / 10) * 10 + n % 10);
    } else {
        let t = decimal_text(n);
        assert(digit_char(n) as int == '0' as int + n);
        assert(t.drop_last() =~= Seq::<char>::empty());
        assert(digits_value(t.drop_last()) == 0);
    }
}

/// Reading back the decimal text of a `u64` gives the number: what
/// `to_string` writes, `from_str` accepts and reads as the same value.
pub proof fn law_decimal_roundtrip(n: u64)
    ensures
        is_u64_text(decimal_text(n as nat)),
        digits_value(unsigned_digits(decimal_text(n as nat))) == n,
{
    lemma_decimal_text(n as nat);
    assert(is_digit(decimal_text(n as nat)[0]));
}

/// `std::num::ParseIntError`, the error of `u64::from_str`, carried through
/// unopened.
#[verifier::external_type_specification]
#[verifier::external_body]
pub struct ExParseIntError(core::num::ParseIntError);

/// What `u64::from_str` returns as its error for the text `text`, where it
/// refuses the text.
pub uninterp spec fn u64_parse_error(text: Seq<char>) -> core::num::ParseIntError;

/// Calls `u64::from_str`, which accepts an optional `+` followed by
/// decimal digits whose value fits in a `u64`, and returns that value;
/// on every other text its error is the one `u64_parse_error` names.
#[verifier::external_body]
pub(crate) fn parse_u64(s: &str) -> (r: Result<u64, core::num::ParseIntError>)
    ensures
        r is Ok <==> is_u64_text(s@),
        r matches Ok(n) ==> n == digits_value(unsigned_digits(s@)),
        r matches Err(e) ==> e == u64_parse_error(s@),
{
    s.parse::<u64>()
}

/// The kind of a refusal by `u64::from_str`, as `ParseIntError::kind`
/// reports it (`Other` stands for the kinds a `u64` never gives).
#[derive(Clone, Copy, Debug, PartialEq, Eq, Structural)]
pub enum ParseFailure {
    /// The text is empty.
    Empty,
    /// The text holds a character that is not a digit where one is due,
    /// such as a sign on its own or a `-`.
    InvalidDigit,
    /// The digits spell a number above `u64::MAX`.
    PosOverflow,
    Other,
}

/// `s` holds only decimal digits.
pub open spec fn all_digits(s: Seq<char>) -> bool {
    forall|i: int| 0 <= i < s.len() ==> is_digit(#[trigger] s[i])
}

/// The kind of error `u64::from_str` reports for a text it refuses, where
/// its documentation settles it: `Empty` for the empty text, `PosOverflow`
/// for digits whose value is too large, `InvalidDigit` for a text holding
/// a non-digit (a lone `+` included) whose digits are too few to overflow.
/// A long text that holds a non-digit is left open (`None`).
pub open spec fn refusal_kind(s: Seq<char>) -> Option<ParseFailure> {
    let d = unsigned_digits(s);
    if s.len() == 0 {
        Some(ParseFailure::Empty)
    } else if d.len() > 0 && all_digits(d) {
        Some(ParseFailure::PosOverflow)
    } else if d.len() <= 19 {
        Some(ParseFailure::InvalidDigit)
    } else {
        None
    }
}

/// Calls `ParseIntError::kind`. An error that `u64::from_str` gave for a
/// text it refused has the kind its documentation gives for that text.
#[verifier::external_body]
fn error_kind(e: &core::num::ParseIntError) -> (k: ParseFailure)
    ensures
        forall|s: Seq<char>|
            #[trigger] u64_parse_error(s) == *e && !is_u64_text(s) ==> (refusal_kind(s) matches Some(
                f,
            ) ==> k == f),
{
    match e.kind() {
        core::num::IntErrorKind::Empty => ParseFailure::Empty,
        core::num::IntErrorKind::InvalidDigit => ParseFailure::InvalidDigit,
        core::num::IntErrorKind::PosOverflow => ParseFailure::PosOverflow,
        _ => ParseFailure::Other,
    }
}

/// The kind of the error that `HealthCheckInterval::from_str` returned
/// for the text `text`.
pub fn refusal(e: &core::num::ParseIntError, text: &str) -> (k: ParseFailure)
    requires
        *e == u64_parse_error(text@),
        !is_u64_text(text@),
    ensures
        refusal_kind(text@) matches Some(f) ==> k == f,
{
    error_kind(e)
}

/// Why `HealthCheckInterval::from_str` refuses `text`, or `None` when it
/// accepts it.
pub fn refusal_of(text: &str) -> (r: Option<ParseFailure>)
    ensures
        r is None <==> is_u64_text(text@),
        r matches Some(k) ==> (refusal_kind(text@) matches Some(f) ==> k == f),
{
    match HealthCheckInterval::from_str(text) {
        Ok(_) => None,
        Err(e) => Some(refusal(&e, text)),
    }
}

/// The one-character text of the decimal digit `d`.
fn digit_str(d: u64) -> (r: &'static str)
    requires
        d < 10,
    ensures
        r@ == seq![digit_char(d as nat)],
{
    proof {
        reveal_strlit("0");
        reveal_strlit("1");
        reveal_strlit("2");
        reveal_strlit("3");
        reveal_strlit("4");
        reveal_strlit("5");
        reveal_strlit("6");
        reveal_strlit("7");
        reveal_strlit("8");
        reveal_strlit("9");
    }
    match d {
        0 => "0",
        1 => "1",
        2 => "2",
        3 => "3",
        4 => "4",
        5 => "5",
        6 => "6",
        7 => "7",
        8 => "8",
        _ => "9",
    }
}

/// Appends the decimal digits of `n`, without leading zeros, to `out`.
fn write_decimal(out: &mut String, n: u64)
    ensures
        final(out)@ == old(out)@ + decimal_text(n as nat),
    decreases n,
{
    if n >= 10 {
        write_decimal(out, n / 10);
    }
    out.append(digit_str(n % 10));
    proof {
        if n >= 10 {
            assert(decimal_text(n as nat) == decimal_text((n / 10) as nat) + seq![digit_char((n % 10) as nat)]);
        }
        assert(old(out)@ + decimal_text(n as nat) =~= final(out)@);
    }
}

/// How far apart to run health checks for individual services: a whole
/// number of seconds and a sub-second number of nanoseconds.
#[derive(Clone, Copy, Debug, PartialEq, Eq, PartialOrd, Ord, Hash, Structural)]
pub struct HealthCheckInterval {
    secs: u64,
    nanos: u32,
}

impl View for HealthCheckInterval {
    /// Seconds and sub-second nanoseconds.
    type V = (u64, u32);

    closed spec fn view(&self) -> (u64, u32) {
        (self.secs, self.nanos)
    }
}

impl HealthCheckInterval {
    /// Every interval holds fewer than a second's worth of nanoseconds
    /// beside its seconds.
    #[verifier::type_invariant]
    spec fn nanos_below_a_second(self) -> bool {
        self.nanos < 1_000_000_000
    }

    /// Run health checks back to back.
    pub fn immediately() -> (r: Self)
        ensures
            r@ == (0u64, 0u32),
    {
        Self::from(0)
    }

    /// An interval of whole seconds.
    pub fn from(seconds: u64) -> (r: Self)
        ensures
            r@ == (seconds, 0u32),
    {
        HealthCheckInterval { secs: seconds, nanos: 0 }
    }

    /// An interval of `secs` seconds and `nanos` nanoseconds.
    pub fn from_secs_nanos(secs: u64, nanos: u32) -> (r: Self)
        requires
            nanos < 1_000_000_000,
        ensures
            r@ == (secs, nanos),
    {
        HealthCheckInterval { secs, nanos }
    }

    /// The whole seconds of this interval.
    pub fn as_secs(&self) -> (r: u64)
        ensures
            r == self@.0,
    {
        self.secs
    }

    /// The sub-second nanoseconds of this interval.
    pub fn subsec_nanos(&self) -> (r: u32)
        ensures
            r == self@.1,
            r < 1_000_000_000,
    {
        proof {
            use_type_invariant(self);
        }
        self.nanos
    }

    /// Displays as `(Ns)`, with N the whole seconds.
    pub fn to_string(&self) -> (r: String)
        ensures
            r@ == seq!['('] + decimal_text(self@.0 as nat) + seq!['s', ')'],
    {
        let mut r = String::from_str("(");
        write_decimal(&mut r, self.secs);
        r.append("s)");
        proof {
            reveal_strlit("(");
            reveal_strlit("s)");
            assert(r@ =~= seq!['('] + decimal_text(self@.0 as nat) + seq!['s', ')']);
        }
        r
    }

    /// Reads a whole number of seconds; a refused text gives the error of
    /// `u64::from_str` unchanged.
    pub fn from_str(s: &str) -> (r: Result<Self, core::num::ParseIntError>)
        ensures
            r is Ok <==> is_u64_text(s@),
            r matches Ok(h) ==> h@ == (digits_value(unsigned_digits(s@)) as u64, 0u32),
            r matches Err(e) ==> e == u64_parse_error(s@),
    {
        match parse_u64(s) {
            Ok(n) => Ok(Self::from(n)),
            Err(e) => Err(e),
        }
    }
}

impl Default for HealthCheckInterval {
    /// Thirty seconds.
    fn default() -> (r: Self)
        ensures
            r@ == (30u64, 0u32),
    {
        Self::from(30)
    }
}

impl core::str::FromStr for HealthCheckInterval {
    type Err = core::num::ParseIntError;

    /// Reads a whole number of seconds, as `HealthCheckInterval::from_str`
    /// does.
    fn from_str(s: &str) -> (r: Result<Self, core::num::ParseIntError>)
        ensures
            r is Ok <==> is_u64_text(s@),
            r matches Ok(h) ==> h@ == (digits_value(unsigned_digits(s@)) as u64, 0u32),
            r matches Err(e) ==> e == u64_parse_error(s@),
    {
        HealthCheckInterval::from_str(s)
    }
}

} // verus!
