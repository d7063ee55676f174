use vstd::prelude::*;

verus! {

/// Outcome of a parser that looked at a partial byte stream.
///
/// `Incomplete` means that more bytes must be read before a decision
/// can be made; it is never surfaced to a user.  `Invalid` means the
/// stream violates the framing rules and the operation cannot succeed.
#[derive(Debug, Clone, Copy, PartialEq, Eq, Structural)]
pub enum ParserError {
    Incomplete,
    Invalid,
}

impl ParserError {
    /// Short human-readable name, in place of a `Display` impl.
    pub fn as_str(&self) -> (r: &'static str)
        ensures
            *self is Incomplete ==> r@ == "Incomplete"@,
            *self is Invalid ==> r@ == "Invalid"@,
    {
        match self {
            ParserError::Incomplete => "Incomplete",
            ParserError::Invalid => "Invalid",
        }
    }
}

} // verus!
