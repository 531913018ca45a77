use book_lending::codec::same_key;
use book_lending::error::LibraryError;
use book_lending::state::{Book, BookNumber, Configuration, Counter, User};

fn key(fill: u8) -> [u8; 32] {
    [fill; 32]
}

fn ramp() -> [u8; 32] {
    let mut out = [0u8; 32];
    for (i, byte) in out.iter_mut().enumerate() {
        *byte = i as u8 + 1;
    }
    out
}

#[test]
fn counter_layout_is_little_endian() {
    let counter = Counter { counter: 0x0102_0304_0506_0708 };
    assert_eq!(counter.to_bytes(), vec![8, 7, 6, 5, 4, 3, 2, 1]);
    assert_eq!(Counter::try_from_slice(&[8, 7, 6, 5, 4, 3, 2, 1]), Some(counter));
    assert_eq!(Counter::try_from_slice(&[0; 8]), Some(Counter { counter: 0 }));
    assert_eq!(Counter::try_from_slice(&[255; 8]), Some(Counter { counter: u64::MAX }));
}

#[test]
fn counter_needs_eight_bytes() {
    assert_eq!(Counter::try_from_slice(&[]), None);
    assert_eq!(Counter::try_from_slice(&[0; 7]), None);
    assert_eq!(Counter::try_from_slice(&[0; 9]), None);
}

#[test]
fn book_number_layout() {
    let number = BookNumber { book_number: 5 };
    assert_eq!(number.to_bytes(), vec![5, 0, 0, 0, 0, 0, 0, 0]);
    assert_eq!(BookNumber::try_from_slice(&[5, 0, 0, 0, 0, 0, 0, 0]), Some(number));
    assert_eq!(BookNumber::try_from_slice(&[5, 0, 0, 0]), None);
}

#[test]
fn book_layout_keeps_field_order() {
    let book = Book {
        book_no: 1,
        number_of_books: 0x0200,
        in_circulation: 3,
        total_number_of_books: u64::MAX,
    };
    let mut expected = vec![1u8, 0, 0, 0, 0, 0, 0, 0];
    expected.extend_from_slice(&[0, 2, 0, 0, 0, 0, 0, 0]);
    expected.extend_from_slice(&[3, 0, 0, 0, 0, 0, 0, 0]);
    expected.extend_from_slice(&[255; 8]);
    assert_eq!(book.to_bytes(), expected);
    assert_eq!(book.to_bytes().len(), 32);
    assert_eq!(Book::try_from_slice(&expected), Some(book));
}

#[test]
fn book_needs_thirty_two_bytes() {
    assert_eq!(Book::try_from_slice(&[0; 31]), None);
    assert_eq!(Book::try_from_slice(&[0; 33]), None);
    assert_eq!(Book::try_from_slice(&[0; 32]), Some(Book::new(0)));
}

#[test]
fn user_layout_keeps_field_order() {
    let user = User {
        user_no: 7,
        user_address: ramp(),
        book_no: 9,
        borrowed_at: 1_700_000_000,
        return_by: 1_701_209_600,
    };
    let mut expected = vec![7u8, 0, 0, 0, 0, 0, 0, 0];
    expected.extend_from_slice(&ramp());
    expected.extend_from_slice(&[9, 0, 0, 0, 0, 0, 0, 0]);
    expected.extend_from_slice(&1_700_000_000u64.to_le_bytes());
    expected.extend_from_slice(&1_701_209_600u64.to_le_bytes());
    assert_eq!(user.to_bytes(), expected);
    assert_eq!(user.to_bytes().len(), 64);
    assert_eq!(User::try_from_slice(&expected), Some(user));
}

#[test]
fn user_needs_sixty_four_bytes() {
    assert_eq!(User::try_from_slice(&[0; 63]), None);
    assert_eq!(User::try_from_slice(&[0; 65]), None);
    assert_eq!(User::try_from_slice(&[0; 64]), Some(User::new(0, [0; 32])));
}

#[test]
fn configuration_layout_is_the_three_keys() {
    let config = Configuration {
        authority_account1: key(1),
        authority_account2: ramp(),
        authority_account3: key(3),
    };
    let mut expected = vec![1u8; 32];
    expected.extend_from_slice(&ramp());
    expected.extend_from_slice(&[3; 32]);
    assert_eq!(config.to_bytes(), expected);
    assert_eq!(Configuration::try_from_slice(&expected), Some(config));
    assert_eq!(Configuration::try_from_slice(&expected[..95]), None);
    assert_eq!(Configuration::try_from_slice(&[0; 97]), None);
}

#[test]
fn configuration_new_fills_all_places() {
    let config = Configuration::new(key(4));
    assert_eq!(config.authority_account1, key(4));
    assert_eq!(config.authority_account2, key(4));
    assert_eq!(config.authority_account3, key(4));
}

#[test]
fn same_key_compares_every_byte() {
    let mut other = ramp();
    assert!(same_key(&ramp(), &other));
    other[31] ^= 1;
    assert!(!same_key(&ramp(), &other));
    other = ramp();
    other[0] ^= 1;
    assert!(!same_key(&ramp(), &other));
}

#[test]
fn counter_steps_are_checked() {
    let mut counter = Counter { counter: 0 };
    assert_eq!(counter.increment(), Ok(()));
    assert_eq!(counter.counter, 1);
    assert_eq!(counter.decrement(), Ok(()));
    assert_eq!(counter.counter, 0);
    assert_eq!(counter.decrement(), Err(LibraryError::ArithmeticError));
    assert_eq!(counter.counter, 0);
    let mut top = Counter { counter: u64::MAX };
    assert_eq!(top.increment(), Err(LibraryError::ArithmeticError));
    assert_eq!(top.counter, u64::MAX);
}

#[test]
fn add_five_copies_to_an_empty_book() {
    let mut book = Book { book_no: 3, number_of_books: 0, in_circulation: 0, total_number_of_books: 0 };
    assert_eq!(book.add_copies(5), Ok(()));
    assert_eq!(
        book,
        Book { book_no: 3, number_of_books: 5, in_circulation: 0, total_number_of_books: 5 }
    );
}

#[test]
fn add_copies_refuses_overflow_and_keeps_the_book() {
    let before =
        Book { book_no: 3, number_of_books: 1, in_circulation: 0, total_number_of_books: u64::MAX };
    let mut book = before;
    assert_eq!(book.add_copies(1), Err(LibraryError::ArithmeticError));
    assert_eq!(book, before);
    let before =
        Book { book_no: 3, number_of_books: u64::MAX, in_circulation: 0, total_number_of_books: 1 };
    let mut book = before;
    assert_eq!(book.add_copies(1), Err(LibraryError::ArithmeticError));
    assert_eq!(book, before);
    let mut book = before;
    assert_eq!(book.add_copies(0), Ok(()));
    assert_eq!(book, before);
}

#[test]
fn remove_copy_lowers_the_shelf_and_raises_the_total() {
    let mut book =
        Book { book_no: 3, number_of_books: 1, in_circulation: 0, total_number_of_books: 1 };
    assert_eq!(book.remove_copy(), Ok(()));
    assert_eq!(
        book,
        Book { book_no: 3, number_of_books: 0, in_circulation: 0, total_number_of_books: 2 }
    );
    let before = book;
    assert_eq!(book.remove_copy(), Err(LibraryError::ArithmeticError));
    assert_eq!(book, before);
}

#[test]
fn remove_copy_refuses_a_total_at_the_top() {
    let before =
        Book { book_no: 3, number_of_books: 4, in_circulation: 0, total_number_of_books: u64::MAX };
    let mut book = before;
    assert_eq!(book.remove_copy(), Err(LibraryError::ArithmeticError));
    assert_eq!(book, before);
}

#[test]
fn borrow_moves_one_copy_into_circulation() {
    let mut book =
        Book { book_no: 3, number_of_books: 5, in_circulation: 2, total_number_of_books: 7 };
    assert_eq!(book.borrow_copy(), Ok(()));
    assert_eq!(
        book,
        Book { book_no: 3, number_of_books: 4, in_circulation: 3, total_number_of_books: 7 }
    );
}

#[test]
fn borrow_from_an_empty_shelf_is_refused() {
    let before =
        Book { book_no: 3, number_of_books: 0, in_circulation: 2, total_number_of_books: 2 };
    let mut book = before;
    assert_eq!(book.borrow_copy(), Err(LibraryError::ArithmeticError));
    assert_eq!(book, before);
    let before =
        Book { book_no: 3, number_of_books: 1, in_circulation: u64::MAX, total_number_of_books: 2 };
    let mut book = before;
    assert_eq!(book.borrow_copy(), Err(LibraryError::ArithmeticError));
    assert_eq!(book, before);
}

#[test]
fn return_lowers_circulation_only() {
    let mut book =
        Book { book_no: 3, number_of_books: 4, in_circulation: 3, total_number_of_books: 7 };
    assert_eq!(book.return_copy(), Ok(()));
    assert_eq!(
        book,
        Book { book_no: 3, number_of_books: 4, in_circulation: 2, total_number_of_books: 7 }
    );
    let before =
        Book { book_no: 3, number_of_books: 4, in_circulation: 0, total_number_of_books: 4 };
    let mut book = before;
    assert_eq!(book.return_copy(), Err(LibraryError::ArithmeticError));
    assert_eq!(book, before);
}

#[test]
fn borrow_then_return_restores_circulation_but_not_the_shelf() {
    let before =
        Book { book_no: 3, number_of_books: 5, in_circulation: 2, total_number_of_books: 7 };
    let mut book = before;
    assert_eq!(book.borrow_copy(), Ok(()));
    assert_eq!(book.return_copy(), Ok(()));
    assert_eq!(book.in_circulation, before.in_circulation);
    assert_eq!(book.number_of_books, before.number_of_books - 1);
    assert_eq!(book.total_number_of_books, before.total_number_of_books);
    assert_eq!(book.add_copies(1), Ok(()));
    assert_eq!(book.number_of_books, before.number_of_books);
    assert_eq!(book.total_number_of_books, before.total_number_of_books + 1);
}

#[test]
fn stock_stays_balanced_under_additions_and_loans() {
    let mut book = Book::new(1);
    assert_eq!(book.add_copies(3), Ok(()));
    assert_eq!(book.borrow_copy(), Ok(()));
    assert_eq!(book.add_copies(2), Ok(()));
    assert_eq!(book.borrow_copy(), Ok(()));
    assert_eq!(book.total_number_of_books, book.number_of_books + book.in_circulation);
    assert_eq!(book.return_copy(), Ok(()));
    assert_eq!(book.total_number_of_books, book.number_of_books + book.in_circulation + 1);
    assert_eq!(book.remove_copy(), Ok(()));
    assert_eq!(book.total_number_of_books, book.number_of_books + book.in_circulation + 3);
}

#[test]
fn a_loan_is_due_after_fourteen_days() {
    let mut user = User::new(1, key(9));
    assert_eq!(user.take_book(12, 1_700_000_000), Ok(()));
    assert_eq!(
        user,
        User {
            user_no: 1,
            user_address: key(9),
            book_no: 12,
            borrowed_at: 1_700_000_000,
            return_by: 1_701_209_600,
        }
    );
}

#[test]
fn a_loan_whose_due_date_overflows_is_refused() {
    let before = User::new(1, key(9));
    let mut user = before;
    assert_eq!(user.take_book(12, u64::MAX - 1_209_599), Err(LibraryError::ArithmeticError));
    assert_eq!(user, before);
    assert_eq!(user.take_book(12, u64::MAX - 1_209_600), Ok(()));
    assert_eq!(user.return_by, u64::MAX);
}

#[test]
fn a_return_clears_the_loan() {
    let mut user = User {
        user_no: 1,
        user_address: key(9),
        book_no: 12,
        borrowed_at: 1_700_000_000,
        return_by: 1_701_209_600,
    };
    assert_eq!(user.hand_back(1_700_500_000), Ok(()));
    assert_eq!(
        user,
        User {
            user_no: 1,
            user_address: key(9),
            book_no: 0,
            borrowed_at: 1_700_500_000 - 1_209_600,
            return_by: 1_700_500_000,
        }
    );
}

#[test]
fn a_return_in_the_first_fourteen_days_of_time_is_refused() {
    let before = User {
        user_no: 1,
        user_address: key(9),
        book_no: 12,
        borrowed_at: 5,
        return_by: 1_209_605,
    };
    let mut user = before;
    assert_eq!(user.hand_back(1_209_599), Err(LibraryError::ArithmeticError));
    assert_eq!(user, before);
    assert_eq!(user.hand_back(1_209_600), Ok(()));
    assert_eq!(user.borrowed_at, 0);
}
