use vstd::prelude::*;
use vstd::string::StringExecFns;

verus! {

/// Why a file could not be embedded.
#[derive(Debug, PartialEq, Eq)]
pub enum IncludeError {
    /// Reading the file's metadata or its contents failed; the text is the
    /// system's description of the failure.
    Io(String),
    /// The file is larger than the address space allows; `max` is the limit.
    FileTooLarge { max: usize },
}

/// The decimal digit for `d`, which is below ten.
pub open spec fn digit_char(d: nat) -> char {
    (48 + d) as char
}

/// The decimal digits of `n`, without sign or leading zeros.
pub open spec fn decimal_text(n: nat) -> Seq<char>
    decreases n,
{
    if n < 10 {
        seq![digit_char(n)]
    } else {
        decimal_text(n / 10).push(digit_char(n % 10))
    }
}

/// The text of the failure for a file that is too large.
pub open spec fn too_big_text(max: nat) -> Seq<char> {
    "File too big (max: "@ + decimal_text(max) + ")"@
}

impl IncludeError {
    /// The text that describes this failure.
    pub open spec fn message_text(&self) -> Seq<char> {
        match self {
            IncludeError::Io(m) => m@,
            IncludeError::FileTooLarge { max } => too_big_text(*max as nat),
        }
    }

    /// The text that describes this failure, for a diagnostic.
    pub fn message(&self) -> (r: String)
        ensures
            r@ == self.message_text(),
    {
        match self {
            IncludeError::Io(m) => m.clone(),
            IncludeError::FileTooLarge { max } => {
                let s = String::from_str("File too big (max: ");
                let s = s.concat(decimal(*max).as_str());
                s.concat(")")
            },
        }
    }
}

/// Relies on the `ToString` of `usize`, through its `Display`: the decimal
/// digits of the value, without sign or leading zeros.
#[verifier::external_body]
fn decimal(n: usize) -> (r: String)
    ensures
        r@ == decimal_text(n as nat),
{
    n.to_string()
}

} // verus!
