use vstd::prelude::*;

verus! {

/// Outcomes of a command other than success.
#[derive(Clone, Copy, Debug, PartialEq, Eq, Structural)]
pub enum Error {
    /// Communication with the card failed.
    TransportError,
    /// An input or output violates a fixed bound.
    SizeError,
    /// A length-prefixed structure is malformed or carries an unexpected tag.
    ParseError,
    /// The card reports that its security conditions are not met.
    AuthenticationError,
    /// The PIN or PUK was wrong; `tries` attempts remain.
    WrongPin { tries: u8 },
    /// No attempts remain for this secret.
    PinLocked,
    /// The requested object does not exist.
    NotFound,
    /// Any other failure reported by the card.
    GenericError,
}

} // verus!
