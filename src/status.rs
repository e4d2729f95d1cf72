//! Classification of the card's two-byte status codes.
use vstd::prelude::*;

verus! {

pub const SW_SUCCESS: u16 = 0x9000;

/// The semantic outcome that a status code stands for.
#[derive(Clone, Copy, Debug, PartialEq, Eq, Structural)]
pub enum StatusWords {
    /// `0x9000`.
    Success,
    /// `0x61NN`: the command succeeded and `len` more bytes are ready.
    BytesRemaining { len: u8 },
    /// `0x63CN`: verification failed, `tries` attempts remain.
    VerifyFailError { tries: u8 },
    /// `0x6983`: no attempts remain.
    AuthBlockedError,
    /// `0x6982`: security conditions are not satisfied.
    SecurityStatusError,
    /// `0x6A88`: the referenced data is not found.
    NotFoundError,
    /// Any other code.
    Other(u16),
}

/// The status class byte (high byte) of a code.
pub open spec fn class_of(code: u16) -> u8 {
    (code / 256) as u8
}

/// Whether a code says that more response bytes are available.
pub open spec fn more_data(code: u16) -> bool {
    class_of(code) == 0x61
}

/// The outcome a raw code stands for.
pub open spec fn status_of(code: u16) -> StatusWords {
    if code == 0x9000 {
        StatusWords::Success
    } else if 0x6100 <= code <= 0x61ff {
        StatusWords::BytesRemaining { len: (code - 0x6100) as u8 }
    } else if 0x63c0 <= code <= 0x63cf {
        StatusWords::VerifyFailError { tries: (code - 0x63c0) as u8 }
    } else if code == 0x6983 {
        StatusWords::AuthBlockedError
    } else if code == 0x6982 {
        StatusWords::SecurityStatusError
    } else if code == 0x6a88 {
        StatusWords::NotFoundError
    } else {
        StatusWords::Other(code)
    }
}

/// Whether a value is the one that its own code maps back to.
pub open spec fn canonical(s: StatusWords) -> bool {
    match s {
        StatusWords::VerifyFailError { tries } => tries < 16,
        StatusWords::Other(c) => status_of(c) == StatusWords::Other(c),
        _ => true,
    }
}

/// The code of an outcome.
pub open spec fn code_of(s: StatusWords) -> u16 {
    match s {
        StatusWords::Success => 0x9000,
        StatusWords::BytesRemaining { len } => (0x6100 + len) as u16,
        StatusWords::VerifyFailError { tries } => (0x63c0 + tries) as u16,
        StatusWords::AuthBlockedError => 0x6983,
        StatusWords::SecurityStatusError => 0x6982,
        StatusWords::NotFoundError => 0x6a88,
        StatusWords::Other(c) => c,
    }
}

impl StatusWords {
    /// Classifies a raw status code.
    pub fn from_code(code: u16) -> (r: StatusWords)
        ensures
            r == status_of(code),
    {
        if code == 0x9000 {
            StatusWords::Success
        } else if 0x6100 <= code && code <= 0x61ff {
            StatusWords::BytesRemaining { len: (code - 0x6100) as u8 }
        } else if 0x63c0 <= code && code <= 0x63cf {
            StatusWords::VerifyFailError { tries: (code - 0x63c0) as u8 }
        } else if code == 0x6983 {
            StatusWords::AuthBlockedError
        } else if code == 0x6982 {
            StatusWords::SecurityStatusError
        } else if code == 0x6a88 {
            StatusWords::NotFoundError
        } else {
            StatusWords::Other(code)
        }
    }

    /// The raw code of this outcome.
    pub fn code(&self) -> (r: u16)
        requires
            canonical(*self),
        ensures
            r == code_of(*self),
    {
        match *self {
            StatusWords::Success => 0x9000,
            StatusWords::BytesRemaining { len } => 0x6100 + len as u16,
            StatusWords::VerifyFailError { tries } => 0x63c0 + tries as u16,
            StatusWords::AuthBlockedError => 0x6983,
            StatusWords::SecurityStatusError => 0x6982,
            StatusWords::NotFoundError => 0x6a88,
            StatusWords::Other(c) => c,
        }
    }

    pub fn is_success(&self) -> (r: bool)
        ensures
            r == (*self == StatusWords::Success),
    {
        matches!(*self, StatusWords::Success)
    }
}

/// Every code classifies to a canonical outcome whose code is the code itself,
/// and every canonical outcome is what its own code classifies to.
pub proof fn lemma_status_code_round_trip(code: u16, s: StatusWords)
    ensures
        canonical(status_of(code)),
        code_of(status_of(code)) == code,
        canonical(s) ==> status_of(code_of(s)) == s,
{
}

} // verus!
