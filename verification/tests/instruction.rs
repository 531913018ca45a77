use book_lending::error::{LibraryError, ProcessError};
use book_lending::instruction::LibraryInstruction;
use book_lending::state::BookNumber;

#[test]
fn unpack_reads_each_tag() {
    assert_eq!(LibraryInstruction::unpack(&[0]), Ok(LibraryInstruction::CreateUser));
    assert_eq!(LibraryInstruction::unpack(&[1]), Ok(LibraryInstruction::CreateBook));
    assert_eq!(LibraryInstruction::unpack(&[3]), Ok(LibraryInstruction::RemoveBook));
    assert_eq!(LibraryInstruction::unpack(&[4]), Ok(LibraryInstruction::BorrowBook));
    assert_eq!(LibraryInstruction::unpack(&[5]), Ok(LibraryInstruction::ReturnBook));
    assert_eq!(LibraryInstruction::unpack(&[6]), Ok(LibraryInstruction::Config));
    assert_eq!(LibraryInstruction::unpack(&[7]), Ok(LibraryInstruction::InitCounter));
}

#[test]
fn unpack_reads_add_book_payload() {
    let input = [2u8, 5, 0, 0, 0, 0, 0, 0, 0];
    assert_eq!(
        LibraryInstruction::unpack(&input),
        Ok(LibraryInstruction::AddBook { data: BookNumber { book_number: 5 } })
    );
    let input = [2u8, 0x08, 0x07, 0x06, 0x05, 0x04, 0x03, 0x02, 0x01];
    assert_eq!(
        LibraryInstruction::unpack(&input),
        Ok(LibraryInstruction::AddBook { data: BookNumber { book_number: 0x0102_0304_0506_0708 } })
    );
}

#[test]
fn unpack_payload_survives_reencoding() {
    let input = [2u8, 0xff, 0xee, 0xdd, 0xcc, 0xbb, 0xaa, 0x99, 0x88];
    match LibraryInstruction::unpack(&input) {
        Ok(LibraryInstruction::AddBook { data }) => {
            assert_eq!(data.to_bytes(), input[1..].to_vec());
            assert_eq!(BookNumber::try_from_slice(&data.to_bytes()), Some(data));
        }
        other => panic!("unexpected {:?}", other),
    }
}

#[test]
fn unpack_refuses_empty_input() {
    assert_eq!(LibraryInstruction::unpack(&[]), Err(LibraryError::InvalidInstruction));
}

#[test]
fn unpack_refuses_unknown_tags() {
    assert_eq!(LibraryInstruction::unpack(&[8]), Err(LibraryError::InvalidInstruction));
    assert_eq!(LibraryInstruction::unpack(&[255]), Err(LibraryError::InvalidInstruction));
    assert_eq!(
        LibraryInstruction::unpack(&[9, 1, 2, 3, 4, 5, 6, 7, 8]),
        Err(LibraryError::InvalidInstruction)
    );
}

#[test]
fn unpack_refuses_truncated_add_book() {
    assert_eq!(LibraryInstruction::unpack(&[2]), Err(LibraryError::InvalidInstruction));
    assert_eq!(
        LibraryInstruction::unpack(&[2, 5, 0, 0, 0, 0, 0, 0]),
        Err(LibraryError::InvalidInstruction)
    );
}

#[test]
fn unpack_refuses_overlong_add_book() {
    assert_eq!(
        LibraryInstruction::unpack(&[2, 5, 0, 0, 0, 0, 0, 0, 0, 0]),
        Err(LibraryError::InvalidInstruction)
    );
}

#[test]
fn unpack_ignores_bytes_behind_a_tag_without_payload() {
    assert_eq!(LibraryInstruction::unpack(&[0, 1, 2, 3]), Ok(LibraryInstruction::CreateUser));
    assert_eq!(LibraryInstruction::unpack(&[7, 9]), Ok(LibraryInstruction::InitCounter));
}

#[test]
fn error_codes_follow_the_declaration() {
    assert_eq!(LibraryError::InvalidInstruction.code(), 0);
    assert_eq!(LibraryError::ArithmeticError.code(), 1);
    assert_eq!(LibraryError::NotSignerPayer.code(), 2);
    assert_eq!(LibraryError::InvalidOwner.code(), 3);
    assert_eq!(LibraryError::AuthorityError.code(), 4);
}

#[test]
fn error_messages() {
    assert_eq!(LibraryError::InvalidInstruction.message(), "Invalid Instruction");
    assert_eq!(LibraryError::ArithmeticError.message(), "Arithmetic Error");
    assert_eq!(LibraryError::NotSignerPayer.message(), "Payer account is not signer");
    assert_eq!(LibraryError::InvalidOwner.message(), "owner is not program id");
    assert_eq!(LibraryError::AuthorityError.message(), "User is not authority");
}

#[test]
fn process_errors_compare_by_kind() {
    assert_ne!(ProcessError::BorshIoError, ProcessError::InvalidSeeds);
    assert_ne!(
        ProcessError::Custom(LibraryError::InvalidOwner),
        ProcessError::Custom(LibraryError::AuthorityError)
    );
}
