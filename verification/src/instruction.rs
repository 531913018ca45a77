//! The eight operations and their form on the wire: one tag byte, then the payload.

use vstd::prelude::*;
use vstd::slice::slice_subrange;
use crate::error::LibraryError;
use crate::state::BookNumber;

verus! {

/// An operation of the registry.
#[derive(Debug, Clone, Copy, PartialEq, Eq)]
pub enum LibraryInstruction {
    CreateUser,
    CreateBook,
    AddBook { data: BookNumber },
    RemoveBook,
    BorrowBook,
    ReturnBook,
    Config,
    InitCounter,
}

impl LibraryInstruction {
    /// The tag byte of the operation.
    pub open spec fn tag(self) -> u8 {
        match self {
            LibraryInstruction::CreateUser => 0,
            LibraryInstruction::CreateBook => 1,
            LibraryInstruction::AddBook { .. } => 2,
            LibraryInstruction::RemoveBook => 3,
            LibraryInstruction::BorrowBook => 4,
            LibraryInstruction::ReturnBook => 5,
            LibraryInstruction::Config => 6,
            LibraryInstruction::InitCounter => 7,
        }
    }

    /// The payload of the operation: the number of copies for `AddBook`, nothing
    /// for the others.
    pub open spec fn payload(self) -> Seq<u8> {
        match self {
            LibraryInstruction::AddBook { data } => data.encoded(),
            _ => Seq::empty(),
        }
    }

    /// The operation on the wire: the tag, then the payload.
    pub open spec fn encoded(self) -> Seq<u8> {
        seq![self.tag()] + self.payload()
    }

    /// The operation that `input` asks for. The first byte selects it. `AddBook`
    /// needs exactly the eight bytes of its payload behind the tag; the other
    /// operations take no payload and do not look at what follows the tag.
    pub open spec fn decoded(input: Seq<u8>) -> Option<LibraryInstruction> {
        if input.len() == 0 {
            None
        } else if input[0] == 0 {
            Some(LibraryInstruction::CreateUser)
        } else if input[0] == 1 {
            Some(LibraryInstruction::CreateBook)
        } else if input[0] == 2 {
            match BookNumber::decoded(input.subrange(1, input.len() as int)) {
                Some(data) => Some(LibraryInstruction::AddBook { data }),
                None => None,
            }
        } else if input[0] == 3 {
            Some(LibraryInstruction::RemoveBook)
        } else if input[0] == 4 {
            Some(LibraryInstruction::BorrowBook)
        } else if input[0] == 5 {
            Some(LibraryInstruction::ReturnBook)
        } else if input[0] == 6 {
            Some(LibraryInstruction::Config)
        } else if input[0] == 7 {
            Some(LibraryInstruction::InitCounter)
        } else {
            None
        }
    }

    /// Reads an operation from the bytes of a call. Empty input, a tag above 7 and
    /// an `AddBook` whose payload is not eight bytes are all `InvalidInstruction`.
    pub fn unpack(input: &[u8]) -> (res: Result<LibraryInstruction, LibraryError>)
        ensures
            match LibraryInstruction::decoded(input@) {
                Some(instruction) => res == Ok::<_, LibraryError>(instruction),
                None => res == Err::<LibraryInstruction, _>(LibraryError::InvalidInstruction),
            },
    {
        if input.len() == 0 {
            return Err(LibraryError::InvalidInstruction);
        }
        let tag = input[0];
        let rest = slice_subrange(input, 1, input.len());
        match tag {
            0 => Ok(LibraryInstruction::CreateUser),
            1 => Ok(LibraryInstruction::CreateBook),
            2 => match BookNumber::try_from_slice(rest) {
                Some(data) => Ok(LibraryInstruction::AddBook { data }),
                None => Err(LibraryError::InvalidInstruction),
            },
            3 => Ok(LibraryInstruction::RemoveBook),
            4 => Ok(LibraryInstruction::BorrowBook),
            5 => Ok(LibraryInstruction::ReturnBook),
            6 => Ok(LibraryInstruction::Config),
            7 => Ok(LibraryInstruction::InitCounter),
            _ => Err(LibraryError::InvalidInstruction),
        }
    }
}

} // verus!
