//! Error surface of the swap core.
//!
//! Every failure of an instruction is reported as a single terminal
//! `SwapError`; no partial signing request is ever produced alongside one.

use vstd::prelude::*;

verus! {

/// The error kinds a swap instruction can end in.
#[derive(Clone, Copy, Debug, PartialEq, Eq, Structural)]
pub enum SwapError {
    /// The opcode byte is not one of the recognized values.
    InvalidOpcode,
    /// The account list does not hold exactly one account.
    WrongAccountCount,
    /// The parameter bytes after the opcode do not decode to the
    /// expected record (wrong length, truncation, or invalid UTF-8).
    MalformedParameters,
    /// The counterparty-supplied transaction bytes do not decode to a
    /// structured transaction.
    MalformedTransaction,
    /// A computed signer index does not refer to an input of the
    /// assembled transaction.
    SignerIndexOutOfRange,
}

/// The host's generic invalid-argument signal: builtin code 2, carried
/// in the upper half of the returned word.
pub const INVALID_ARGUMENT_CODE: u64 = 0x200000000;

impl SwapError {
    /// The stable numeric code surfaced to callers.
    ///
    /// `WrongAccountCount` keeps its distinct custom code 501 so tools can
    /// special-case it; every other kind maps to the host's generic
    /// invalid-argument signal.
    pub fn code(&self) -> (c: u64)
        ensures
            c == self.spec_code(),
    {
        match self {
            SwapError::WrongAccountCount => 501,
            _ => INVALID_ARGUMENT_CODE,
        }
    }

    /// What `code` returns for each kind.
    pub open spec fn spec_code(self) -> u64 {
        match self {
            SwapError::WrongAccountCount => 501,
            _ => INVALID_ARGUMENT_CODE,
        }
    }
}

} // verus!
