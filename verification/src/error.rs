use vstd::prelude::*;
use vstd::string::StringExecFns;

verus! {

/// Why an operation on the store was refused.
#[derive(Debug, Clone, PartialEq, Eq)]
pub enum Error {
    /// No record is stored under the identifier.
    NotFound { msg: String },
    /// The caller lacks the required role, or supplied the wrong secret key.
    Unauthorized { msg: String },
    /// The payload breaks a rule of the validation gate.
    InvalidInput { msg: String },
    /// The identifier counter could not be advanced.
    CounterIncrementFailed,
    /// The bytes stored under the identifier are no record.
    CorruptData { msg: String },
}

/// An [`Error`] without its message.
#[derive(Debug, Clone, Copy, PartialEq, Eq, Structural)]
pub enum ErrorKind {
    NotFound,
    Unauthorized,
    InvalidInput,
    CounterIncrementFailed,
    CorruptData,
}

/// The character of a digit below ten.
pub open spec fn digit_char(d: nat) -> char
    recommends
        d < 10,
{
    (48 + d) as char
}

/// A number in decimal, without leading zeros.
pub open spec fn decimal_text(n: nat) -> Seq<char>
    decreases n,
{
    if n < 10 {
        seq![digit_char(n)]
    } else {
        decimal_text(n / 10).push(digit_char(n % 10))
    }
}

/// The text of the error for an identifier under which nothing is stored.
pub open spec fn not_found_text(id: u64) -> Seq<char> {
    "A message with id="@ + decimal_text(id as nat) + " not found"@
}

fn digit_text(d: u64) -> (r: &'static str)
    requires
        d < 10,
    ensures
        r@ == seq![digit_char(d as nat)],
{
    proof {
        reveal_strlit("0");
        reveal_strlit("1");
        reveal_strlit("2");
        reveal_strlit("3");
        reveal_strlit("4");
        reveal_strlit("5");
        reveal_strlit("6");
        reveal_strlit("7");
        reveal_strlit("8");
        reveal_strlit("9");
    }
    match d {
        0 => "0",
        1 => "1",
        2 => "2",
        3 => "3",
        4 => "4",
        5 => "5",
        6 => "6",
        7 => "7",
        8 => "8",
        _ => "9",
    }
}

/// A number in decimal, without leading zeros.
pub fn decimal(n: u64) -> (text: String)
    ensures
        text@ == decimal_text(n as nat),
{
    let mut rest: u64 = n / 10;
    let mut text = String::from_str(digit_text(n % 10));
    while rest > 0
        invariant
            decimal_text(n as nat) == (if rest == 0 {
                Seq::<char>::empty()
            } else {
                decimal_text(rest as nat)
            }) + text@,
        decreases rest,
    {
        text = String::from_str(digit_text(rest % 10)).concat(text.as_str());
        rest = rest / 10;
    }
    text
}

impl Error {
    /// The error for an identifier under which nothing is stored.
    pub fn not_found(id: u64) -> (e: Error)
        ensures
            e matches Error::NotFound { msg } && msg@ == not_found_text(id),
    {
        let number = decimal(id);
        let msg = String::from_str("A message with id=").concat(number.as_str()).concat(
            " not found",
        );
        Error::NotFound { msg }
    }

    /// The variant of this error.
    pub open spec fn spec_kind(&self) -> ErrorKind {
        match self {
            Error::NotFound { .. } => ErrorKind::NotFound,
            Error::Unauthorized { .. } => ErrorKind::Unauthorized,
            Error::InvalidInput { .. } => ErrorKind::InvalidInput,
            Error::CounterIncrementFailed => ErrorKind::CounterIncrementFailed,
            Error::CorruptData { .. } => ErrorKind::CorruptData,
        }
    }

    /// The variant of this error.
    #[verifier::when_used_as_spec(spec_kind)]
    pub fn kind(&self) -> (k: ErrorKind)
        ensures
            k == self.spec_kind(),
    {
        match self {
            Error::NotFound { .. } => ErrorKind::NotFound,
            Error::Unauthorized { .. } => ErrorKind::Unauthorized,
            Error::InvalidInput { .. } => ErrorKind::InvalidInput,
            Error::CounterIncrementFailed => ErrorKind::CounterIncrementFailed,
            Error::CorruptData { .. } => ErrorKind::CorruptData,
        }
    }
}

} // verus!
