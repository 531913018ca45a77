//! Error kinds of the registry and their wire codes.

use vstd::prelude::*;

verus! {

/// The registry's own error kinds. A host reports one by its numeric code.
#[derive(Debug, Clone, Copy, PartialEq, Eq, Structural)]
pub enum LibraryError {
    /// The instruction bytes name no operation, or the account list is too short.
    InvalidInstruction,
    /// A checked addition or subtraction left the range of `u64`.
    ArithmeticError,
    /// The paying account did not sign.
    NotSignerPayer,
    /// An account that must belong to this program belongs to another.
    InvalidOwner,
    /// The caller is none of the three stored authorities.
    AuthorityError,
}

impl LibraryError {
    /// The number a host reports for this error: the variant's position in the declaration.
    pub open spec fn spec_code(self) -> u32 {
        match self {
            LibraryError::InvalidInstruction => 0,
            LibraryError::ArithmeticError => 1,
            LibraryError::NotSignerPayer => 2,
            LibraryError::InvalidOwner => 3,
            LibraryError::AuthorityError => 4,
        }
    }

    /// The words that describe this error.
    pub open spec fn spec_message(self) -> Seq<char> {
        match self {
            LibraryError::InvalidInstruction => "Invalid Instruction"@,
            LibraryError::ArithmeticError => "Arithmetic Error"@,
            LibraryError::NotSignerPayer => "Payer account is not signer"@,
            LibraryError::InvalidOwner => "owner is not program id"@,
            LibraryError::AuthorityError => "User is not authority"@,
        }
    }

    /// Describes the error in words.
    pub fn message(self) -> (m: &'static str)
        ensures
            m@ == self.spec_message(),
    {
        match self {
            LibraryError::InvalidInstruction => "Invalid Instruction",
            LibraryError::ArithmeticError => "Arithmetic Error",
            LibraryError::NotSignerPayer => "Payer account is not signer",
            LibraryError::InvalidOwner => "owner is not program id",
            LibraryError::AuthorityError => "User is not authority",
        }
    }

    /// The number that a host reports for this error.
    #[verifier::when_used_as_spec(spec_code)]
    pub fn code(self) -> (c: u32)
        ensures
            c == self.spec_code(),
    {
        match self {
            LibraryError::InvalidInstruction => 0,
            LibraryError::ArithmeticError => 1,
            LibraryError::NotSignerPayer => 2,
            LibraryError::InvalidOwner => 3,
            LibraryError::AuthorityError => 4,
        }
    }
}

/// Why an operation was refused.
#[derive(Debug, Clone, Copy, PartialEq, Eq, Structural)]
pub enum ProcessError {
    /// One of the registry's own error kinds.
    Custom(LibraryError),
    /// An account does not hold the bytes of the record expected in it, or is too
    /// short to take the record.
    BorshIoError,
    /// The operation needs the time and the host has no clock.
    UnsupportedSysvar,
    /// The seeds yield no address that a program may sign for.
    InvalidSeeds,
}

} // verus!
