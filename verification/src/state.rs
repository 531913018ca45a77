//! The four persisted records and the instruction payload: their fields, their
//! fixed layouts, and the checked updates that the operations make to them.

use vstd::prelude::*;
use crate::codec::{
    field_key, field_u64, key_of, lemma_key_of, lemma_key_of_view, lemma_u64_bytes_then_number,
    lemma_u64_number_then_bytes, u64_from_le_bytes, u64_le_bytes, write_key, write_u64,
};
use crate::error::LibraryError;

verus! {

/// Bytes of a stored `Counter`.
pub const COUNTER_LEN: usize = 8;

/// Bytes of a stored `Configuration`.
pub const CONFIGURATION_LEN: usize = 96;

/// Bytes of a stored `User`.
pub const USER_LEN: usize = 64;

/// Bytes of a stored `Book`.
pub const BOOK_LEN: usize = 32;

/// Bytes of an encoded `BookNumber`.
pub const BOOK_NUMBER_LEN: usize = 8;

/// Length of a loan in seconds: fourteen days.
pub const LOAN_SECONDS: u64 = 1_209_600;

/// The three keys that may change the catalog.
#[derive(Debug, Clone, Copy, PartialEq, Eq)]
pub struct Configuration {
    pub authority_account1: [u8; 32],
    pub authority_account2: [u8; 32],
    pub authority_account3: [u8; 32],
}

/// A reader of the library.
#[derive(Debug, Clone, Copy, PartialEq, Eq)]
pub struct User {
    pub user_no: u64,
    /// The key that created the record.
    pub user_address: [u8; 32],
    /// The book held, 0 for none.
    pub book_no: u64,
    pub borrowed_at: u64,
    pub return_by: u64,
}

/// A running number from which new identifiers are drawn.
#[derive(Debug, Clone, Copy, PartialEq, Eq)]
pub struct Counter {
    pub counter: u64,
}

/// Payload of the instruction that adds copies.
#[derive(Debug, Clone, Copy, PartialEq, Eq)]
pub struct BookNumber {
    pub book_number: u64,
}

/// A catalog entry and its stock.
#[derive(Debug, Clone, Copy, PartialEq, Eq)]
pub struct Book {
    pub book_no: u64,
    /// Copies on the shelf.
    pub number_of_books: u64,
    /// Copies out with users.
    pub in_circulation: u64,
    pub total_number_of_books: u64,
}

/// One loan. No operation stores it.
#[derive(Debug, Clone, Copy, PartialEq, Eq)]
pub struct BorrowRecord {
    book_no: u64,
    borrow_date: u64,
    pub return_date: u64,
}

impl Counter {
    /// The stored form: the number, eight bytes.
    pub open spec fn encoded(self) -> Seq<u8> {
        u64_le_bytes(self.counter)
    }

    /// The record that `bytes` store, if they are eight.
    pub open spec fn decoded(bytes: Seq<u8>) -> Option<Counter> {
        if bytes.len() == COUNTER_LEN {
            Some(Counter { counter: u64_from_le_bytes(bytes) })
        } else {
            None
        }
    }

    /// The counter one higher, unless it is at the top of `u64`.
    pub open spec fn incremented(self) -> Option<Counter> {
        if self.counter < u64::MAX {
            Some(Counter { counter: (self.counter + 1) as u64 })
        } else {
            None
        }
    }

    /// The counter one lower, unless it is 0.
    pub open spec fn decremented(self) -> Option<Counter> {
        if self.counter > 0 {
            Some(Counter { counter: (self.counter - 1) as u64 })
        } else {
            None
        }
    }

    /// Reads a counter from exactly eight bytes; any other length gives `None`.
    pub fn try_from_slice(bytes: &[u8]) -> (r: Option<Counter>)
        ensures
            r == Counter::decoded(bytes@),
    {
        if bytes.len() != COUNTER_LEN {
            return None;
        }
        assert(bytes@.subrange(0, 8) =~= bytes@);
        let counter = field_u64(bytes, 0)?;
        Some(Counter { counter })
    }

    /// Writes the counter in its fixed layout.
    pub fn to_bytes(&self) -> (out: Vec<u8>)
        ensures
            out@ == self.encoded(),
    {
        let mut out: Vec<u8> = Vec::new();
        write_u64(&mut out, self.counter);
        assert(out@ =~= self.encoded());
        out
    }

    /// Counts one up. At the top of `u64` nothing changes and the error is
    /// `ArithmeticError`.
    pub fn increment(&mut self) -> (res: Result<(), LibraryError>)
        ensures
            match old(self).incremented() {
                Some(next) => res is Ok && *final(self) == next,
                None => res == Err::<(), _>(LibraryError::ArithmeticError) && *final(self) == *old(
                    self,
                ),
            },
    {
        match self.counter.checked_add(1) {
            Some(next) => {
                self.counter = next;
                Ok(())
            },
            None => Err(LibraryError::ArithmeticError),
        }
    }

    /// Counts one down. At 0 nothing changes and the error is `ArithmeticError`.
    pub fn decrement(&mut self) -> (res: Result<(), LibraryError>)
        ensures
            match old(self).decremented() {
                Some(next) => res is Ok && *final(self) == next,
                None => res == Err::<(), _>(LibraryError::ArithmeticError) && *final(self) == *old(
                    self,
                ),
            },
    {
        match self.counter.checked_sub(1) {
            Some(next) => {
                self.counter = next;
                Ok(())
            },
            None => Err(LibraryError::ArithmeticError),
        }
    }
}

impl BookNumber {
    /// The encoded form: the number, eight bytes.
    pub open spec fn encoded(self) -> Seq<u8> {
        u64_le_bytes(self.book_number)
    }

    /// The payload that `bytes` encode, if they are eight.
    pub open spec fn decoded(bytes: Seq<u8>) -> Option<BookNumber> {
        if bytes.len() == BOOK_NUMBER_LEN {
            Some(BookNumber { book_number: u64_from_le_bytes(bytes) })
        } else {
            None
        }
    }

    /// Reads a payload from exactly eight bytes; any other length gives `None`.
    pub fn try_from_slice(bytes: &[u8]) -> (r: Option<BookNumber>)
        ensures
            r == BookNumber::decoded(bytes@),
    {
        if bytes.len() != BOOK_NUMBER_LEN {
            return None;
        }
        assert(bytes@.subrange(0, 8) =~= bytes@);
        let book_number = field_u64(bytes, 0)?;
        Some(BookNumber { book_number })
    }

    /// Writes the payload in its fixed layout.
    pub fn to_bytes(&self) -> (out: Vec<u8>)
        ensures
            out@ == self.encoded(),
    {
        let mut out: Vec<u8> = Vec::new();
        write_u64(&mut out, self.book_number);
        assert(out@ =~= self.encoded());
        out
    }
}

impl Book {
    /// The stored form: the four numbers in the order of the fields.
    pub open spec fn encoded(self) -> Seq<u8> {
        u64_le_bytes(self.book_no) + u64_le_bytes(self.number_of_books) + u64_le_bytes(
            self.in_circulation,
        ) + u64_le_bytes(self.total_number_of_books)
    }

    /// The record that `bytes` store, if they are 32.
    pub open spec fn decoded(bytes: Seq<u8>) -> Option<Book> {
        if bytes.len() == BOOK_LEN {
            Some(
                Book {
                    book_no: u64_from_le_bytes(bytes.subrange(0, 8)),
                    number_of_books: u64_from_le_bytes(bytes.subrange(8, 16)),
                    in_circulation: u64_from_le_bytes(bytes.subrange(16, 24)),
                    total_number_of_books: u64_from_le_bytes(bytes.subrange(24, 32)),
                },
            )
        } else {
            None
        }
    }

    /// Every copy is either on the shelf or out with a user.
    pub open spec fn balanced(self) -> bool {
        self.total_number_of_books == self.number_of_books + self.in_circulation
    }

    /// By how much the total exceeds the copies on the shelf and in circulation.
    pub open spec fn surplus(self) -> int {
        self.total_number_of_books - (self.number_of_books + self.in_circulation)
    }

    /// The book with `n` more copies on the shelf and in the total, if both fit.
    pub open spec fn with_added(self, n: u64) -> Option<Book> {
        if self.total_number_of_books + n <= u64::MAX && self.number_of_books + n <= u64::MAX {
            Some(
                Book {
                    number_of_books: (self.number_of_books + n) as u64,
                    total_number_of_books: (self.total_number_of_books + n) as u64,
                    ..self
                },
            )
        } else {
            None
        }
    }

    /// The book with one copy fewer on the shelf and one more in the total, if the
    /// shelf is not empty and the total fits. That the total rises when a copy
    /// leaves is how stored records have always been kept; it unbalances the book.
    pub open spec fn with_removed(self) -> Option<Book> {
        if self.total_number_of_books < u64::MAX && self.number_of_books > 0 {
            Some(
                Book {
                    number_of_books: (self.number_of_books - 1) as u64,
                    total_number_of_books: (self.total_number_of_books + 1) as u64,
                    ..self
                },
            )
        } else {
            None
        }
    }

    /// The book with one copy moved from the shelf into circulation, if there is one
    /// on the shelf and the count in circulation fits.
    pub open spec fn with_borrowed(self) -> Option<Book> {
        if self.in_circulation < u64::MAX && self.number_of_books > 0 {
            Some(
                Book {
                    number_of_books: (self.number_of_books - 1) as u64,
                    in_circulation: (self.in_circulation + 1) as u64,
                    ..self
                },
            )
        } else {
            None
        }
    }

    /// The book with one copy fewer in circulation, if any is. The shelf and the
    /// total stay as they are: a returned copy is back on the shelf only once it
    /// is added again, and until then the book is unbalanced.
    pub open spec fn with_returned(self) -> Option<Book> {
        if self.in_circulation > 0 {
            Some(Book { in_circulation: (self.in_circulation - 1) as u64, ..self })
        } else {
            None
        }
    }

    /// A new catalog entry without copies.
    pub fn new(book_no: u64) -> (book: Book)
        ensures
            book == (Book {
                book_no,
                number_of_books: 0,
                in_circulation: 0,
                total_number_of_books: 0,
            }),
            book.balanced(),
    {
        Book { book_no, number_of_books: 0, in_circulation: 0, total_number_of_books: 0 }
    }

    /// Reads a book from exactly 32 bytes; any other length gives `None`.
    pub fn try_from_slice(bytes: &[u8]) -> (r: Option<Book>)
        ensures
            r == Book::decoded(bytes@),
    {
        if bytes.len() != BOOK_LEN {
            return None;
        }
        let book_no = field_u64(bytes, 0)?;
        let number_of_books = field_u64(bytes, 8)?;
        let in_circulation = field_u64(bytes, 16)?;
        let total_number_of_books = field_u64(bytes, 24)?;
        Some(Book { book_no, number_of_books, in_circulation, total_number_of_books })
    }

    /// Writes the book in its fixed layout.
    pub fn to_bytes(&self) -> (out: Vec<u8>)
        ensures
            out@ == self.encoded(),
    {
        let mut out: Vec<u8> = Vec::new();
        write_u64(&mut out, self.book_no);
        write_u64(&mut out, self.number_of_books);
        write_u64(&mut out, self.in_circulation);
        write_u64(&mut out, self.total_number_of_books);
        assert(out@ =~= self.encoded());
        out
    }

    /// Adds `n` copies to the shelf and to the total. If either sum leaves `u64`,
    /// nothing changes and the error is `ArithmeticError`.
    pub fn add_copies(&mut self, n: u64) -> (res: Result<(), LibraryError>)
        ensures
            match old(self).with_added(n) {
                Some(next) => res is Ok && *final(self) == next,
                None => res == Err::<(), _>(LibraryError::ArithmeticError) && *final(self) == *old(
                    self,
                ),
            },
            old(self).balanced() ==> final(self).balanced(),
    {
        let total = match self.total_number_of_books.checked_add(n) {
            Some(total) => total,
            None => return Err(LibraryError::ArithmeticError),
        };
        let shelf = match self.number_of_books.checked_add(n) {
            Some(shelf) => shelf,
            None => return Err(LibraryError::ArithmeticError),
        };
        self.total_number_of_books = total;
        self.number_of_books = shelf;
        Ok(())
    }

    /// Takes one copy off the shelf and counts the total one up. If the shelf is
    /// empty or the total is at the top of `u64`, nothing changes and the error is
    /// `ArithmeticError`.
    pub fn remove_copy(&mut self) -> (res: Result<(), LibraryError>)
        ensures
            match old(self).with_removed() {
                Some(next) => res is Ok && *final(self) == next,
                None => res == Err::<(), _>(LibraryError::ArithmeticError) && *final(self) == *old(
                    self,
                ),
            },
    {
        let total = match self.total_number_of_books.checked_add(1) {
            Some(total) => total,
            None => return Err(LibraryError::ArithmeticError),
        };
        let shelf = match self.number_of_books.checked_sub(1) {
            Some(shelf) => shelf,
            None => return Err(LibraryError::ArithmeticError),
        };
        self.total_number_of_books = total;
        self.number_of_books = shelf;
        Ok(())
    }

    /// Moves one copy from the shelf into circulation. If the shelf is empty or the
    /// count in circulation is at the top of `u64`, nothing changes and the error is
    /// `ArithmeticError`.
    pub fn borrow_copy(&mut self) -> (res: Result<(), LibraryError>)
        ensures
            match old(self).with_borrowed() {
                Some(next) => res is Ok && *final(self) == next,
                None => res == Err::<(), _>(LibraryError::ArithmeticError) && *final(self) == *old(
                    self,
                ),
            },
            old(self).balanced() ==> final(self).balanced(),
    {
        let out = match self.in_circulation.checked_add(1) {
            Some(out) => out,
            None => return Err(LibraryError::ArithmeticError),
        };
        let shelf = match self.number_of_books.checked_sub(1) {
            Some(shelf) => shelf,
            None => return Err(LibraryError::ArithmeticError),
        };
        self.in_circulation = out;
        self.number_of_books = shelf;
        Ok(())
    }

    /// Takes one copy out of circulation; the shelf is not restocked. If none is in
    /// circulation, nothing changes and the error is `ArithmeticError`.
    pub fn return_copy(&mut self) -> (res: Result<(), LibraryError>)
        ensures
            match old(self).with_returned() {
                Some(next) => res is Ok && *final(self) == next,
                None => res == Err::<(), _>(LibraryError::ArithmeticError) && *final(self) == *old(
                    self,
                ),
            },
    {
        match self.in_circulation.checked_sub(1) {
            Some(out) => {
                self.in_circulation = out;
                Ok(())
            },
            None => Err(LibraryError::ArithmeticError),
        }
    }
}

impl User {
    /// The stored form: the fields in order, the key as its 32 bytes.
    pub open spec fn encoded(self) -> Seq<u8> {
        u64_le_bytes(self.user_no) + self.user_address@ + u64_le_bytes(self.book_no)
            + u64_le_bytes(self.borrowed_at) + u64_le_bytes(self.return_by)
    }

    /// The record that `bytes` store, if they are 64.
    pub open spec fn decoded(bytes: Seq<u8>) -> Option<User> {
        if bytes.len() == USER_LEN {
            Some(
                User {
                    user_no: u64_from_le_bytes(bytes.subrange(0, 8)),
                    user_address: key_of(bytes.subrange(8, 40)),
                    book_no: u64_from_le_bytes(bytes.subrange(40, 48)),
                    borrowed_at: u64_from_le_bytes(bytes.subrange(48, 56)),
                    return_by: u64_from_le_bytes(bytes.subrange(56, 64)),
                },
            )
        } else {
            None
        }
    }

    /// A user who holds a book has a due date after the date of the loan.
    pub open spec fn consistent(self) -> bool {
        self.book_no != 0 ==> self.return_by > self.borrowed_at
    }

    /// The user holding `book_no` from `now` for fourteen days, if the due date fits.
    pub open spec fn with_loan(self, book_no: u64, now: u64) -> Option<User> {
        if now + LOAN_SECONDS <= u64::MAX {
            Some(
                User {
                    book_no,
                    borrowed_at: now,
                    return_by: (now + LOAN_SECONDS) as u64,
                    ..self
                },
            )
        } else {
            None
        }
    }

    /// The user holding nothing, with `now` as the date of return and the date
    /// fourteen days before it in place of the date of the loan, if that date is
    /// not before 0. The true date of the loan is not kept.
    pub open spec fn with_return(self, now: u64) -> Option<User> {
        if now >= LOAN_SECONDS {
            Some(
                User {
                    book_no: 0,
                    borrowed_at: (now - LOAN_SECONDS) as u64,
                    return_by: now,
                    ..self
                },
            )
        } else {
            None
        }
    }

    /// A new user who holds no book.
    pub fn new(user_no: u64, user_address: [u8; 32]) -> (user: User)
        ensures
            user == (User { user_no, user_address, book_no: 0, borrowed_at: 0, return_by: 0 }),
            user.consistent(),
    {
        User { user_no, user_address, book_no: 0, borrowed_at: 0, return_by: 0 }
    }

    /// Reads a user from exactly 64 bytes; any other length gives `None`.
    pub fn try_from_slice(bytes: &[u8]) -> (r: Option<User>)
        ensures
            r == User::decoded(bytes@),
    {
        if bytes.len() != USER_LEN {
            return None;
        }
        let user_no = field_u64(bytes, 0)?;
        let user_address = field_key(bytes, 8)?;
        let book_no = field_u64(bytes, 40)?;
        let borrowed_at = field_u64(bytes, 48)?;
        let return_by = field_u64(bytes, 56)?;
        Some(User { user_no, user_address, book_no, borrowed_at, return_by })
    }

    /// Writes the user in its fixed layout.
    pub fn to_bytes(&self) -> (out: Vec<u8>)
        ensures
            out@ == self.encoded(),
    {
        let mut out: Vec<u8> = Vec::new();
        write_u64(&mut out, self.user_no);
        write_key(&mut out, &self.user_address);
        write_u64(&mut out, self.book_no);
        write_u64(&mut out, self.borrowed_at);
        write_u64(&mut out, self.return_by);
        assert(out@ =~= self.encoded());
        out
    }

    /// Records a loan of `book_no` that starts at `now` and is due fourteen days
    /// later. If the due date leaves `u64`, nothing changes and the error is
    /// `ArithmeticError`.
    pub fn take_book(&mut self, book_no: u64, now: u64) -> (res: Result<(), LibraryError>)
        ensures
            match old(self).with_loan(book_no, now) {
                Some(next) => res is Ok && *final(self) == next,
                None => res == Err::<(), _>(LibraryError::ArithmeticError) && *final(self) == *old(
                    self,
                ),
            },
            old(self).consistent() ==> final(self).consistent(),
    {
        match now.checked_add(LOAN_SECONDS) {
            Some(due) => {
                self.book_no = book_no;
                self.borrowed_at = now;
                self.return_by = due;
                Ok(())
            },
            None => Err(LibraryError::ArithmeticError),
        }
    }

    /// Records the return at `now`. If `now` is less than fourteen days, nothing
    /// changes and the error is `ArithmeticError`.
    pub fn hand_back(&mut self, now: u64) -> (res: Result<(), LibraryError>)
        ensures
            match old(self).with_return(now) {
                Some(next) => res is Ok && *final(self) == next,
                None => res == Err::<(), _>(LibraryError::ArithmeticError) && *final(self) == *old(
                    self,
                ),
            },
            old(self).consistent() ==> final(self).consistent(),
    {
        match now.checked_sub(LOAN_SECONDS) {
            Some(start) => {
                self.book_no = 0;
                self.borrowed_at = start;
                self.return_by = now;
                Ok(())
            },
            None => Err(LibraryError::ArithmeticError),
        }
    }
}

impl Configuration {
    /// The stored form: the three keys in order.
    pub open spec fn encoded(self) -> Seq<u8> {
        self.authority_account1@ + self.authority_account2@ + self.authority_account3@
    }

    /// The record that `bytes` store, if they are 96.
    pub open spec fn decoded(bytes: Seq<u8>) -> Option<Configuration> {
        if bytes.len() == CONFIGURATION_LEN {
            Some(
                Configuration {
                    authority_account1: key_of(bytes.subrange(0, 32)),
                    authority_account2: key_of(bytes.subrange(32, 64)),
                    authority_account3: key_of(bytes.subrange(64, 96)),
                },
            )
        } else {
            None
        }
    }

    /// Whether `key` is one of the three authorities.
    pub open spec fn permits(self, key: [u8; 32]) -> bool {
        self.authority_account1 == key || self.authority_account2 == key
            || self.authority_account3 == key
    }

    /// The configuration in which `authority` holds all three places.
    pub fn new(authority: [u8; 32]) -> (config: Configuration)
        ensures
            config == (Configuration {
                authority_account1: authority,
                authority_account2: authority,
                authority_account3: authority,
            }),
    {
        Configuration {
            authority_account1: authority,
            authority_account2: authority,
            authority_account3: authority,
        }
    }

    /// Reads a configuration from exactly 96 bytes; any other length gives `None`.
    pub fn try_from_slice(bytes: &[u8]) -> (r: Option<Configuration>)
        ensures
            r == Configuration::decoded(bytes@),
    {
        if bytes.len() != CONFIGURATION_LEN {
            return None;
        }
        let authority_account1 = field_key(bytes, 0)?;
        let authority_account2 = field_key(bytes, 32)?;
        let authority_account3 = field_key(bytes, 64)?;
        Some(Configuration { authority_account1, authority_account2, authority_account3 })
    }

    /// Writes the configuration in its fixed layout.
    pub fn to_bytes(&self) -> (out: Vec<u8>)
        ensures
            out@ == self.encoded(),
    {
        let mut out: Vec<u8> = Vec::new();
        write_key(&mut out, &self.authority_account1);
        write_key(&mut out, &self.authority_account2);
        write_key(&mut out, &self.authority_account3);
        assert(out@ =~= self.encoded());
        out
    }
}

impl Counter {
    /// Storing a counter and reading it again gives the counter back.
    pub proof fn lemma_encoded_then_decoded(self)
        ensures
            self.encoded().len() == COUNTER_LEN,
            Counter::decoded(self.encoded()) == Some(self),
    {
        lemma_u64_bytes_then_number(self.counter);
    }

    /// Eight bytes are the stored form of the counter read from them.
    pub proof fn lemma_decoded_then_encoded(bytes: Seq<u8>)
        requires
            bytes.len() == COUNTER_LEN,
        ensures
            Counter::decoded(bytes) is Some,
            Counter::decoded(bytes).unwrap().encoded() == bytes,
    {
        lemma_u64_number_then_bytes(bytes);
    }
}

impl BookNumber {
    /// Encoding a payload and decoding it again gives the payload back.
    pub proof fn lemma_encoded_then_decoded(self)
        ensures
            self.encoded().len() == BOOK_NUMBER_LEN,
            BookNumber::decoded(self.encoded()) == Some(self),
    {
        lemma_u64_bytes_then_number(self.book_number);
    }

    /// Eight bytes are the encoding of the payload decoded from them.
    pub proof fn lemma_decoded_then_encoded(bytes: Seq<u8>)
        requires
            bytes.len() == BOOK_NUMBER_LEN,
        ensures
            BookNumber::decoded(bytes) is Some,
            BookNumber::decoded(bytes).unwrap().encoded() == bytes,
    {
        lemma_u64_number_then_bytes(bytes);
    }
}

impl Book {
    /// Storing a book and reading it again gives the book back.
    pub proof fn lemma_encoded_then_decoded(self)
        ensures
            self.encoded().len() == BOOK_LEN,
            Book::decoded(self.encoded()) == Some(self),
    {
        let bytes = self.encoded();
        lemma_u64_bytes_then_number(self.book_no);
        lemma_u64_bytes_then_number(self.number_of_books);
        lemma_u64_bytes_then_number(self.in_circulation);
        lemma_u64_bytes_then_number(self.total_number_of_books);
        assert(bytes.subrange(0, 8) =~= u64_le_bytes(self.book_no));
        assert(bytes.subrange(8, 16) =~= u64_le_bytes(self.number_of_books));
        assert(bytes.subrange(16, 24) =~= u64_le_bytes(self.in_circulation));
        assert(bytes.subrange(24, 32) =~= u64_le_bytes(self.total_number_of_books));
    }

    /// 32 bytes are the stored form of the book read from them.
    pub proof fn lemma_decoded_then_encoded(bytes: Seq<u8>)
        requires
            bytes.len() == BOOK_LEN,
        ensures
            Book::decoded(bytes) is Some,
            Book::decoded(bytes).unwrap().encoded() == bytes,
    {
        lemma_u64_number_then_bytes(bytes.subrange(0, 8));
        lemma_u64_number_then_bytes(bytes.subrange(8, 16));
        lemma_u64_number_then_bytes(bytes.subrange(16, 24));
        lemma_u64_number_then_bytes(bytes.subrange(24, 32));
        assert(Book::decoded(bytes).unwrap().encoded() =~= bytes);
    }
}

impl User {
    /// Storing a user and reading it again gives the user back.
    pub proof fn lemma_encoded_then_decoded(self)
        ensures
            self.encoded().len() == USER_LEN,
            User::decoded(self.encoded()) == Some(self),
    {
        let bytes = self.encoded();
        lemma_u64_bytes_then_number(self.user_no);
        lemma_u64_bytes_then_number(self.book_no);
        lemma_u64_bytes_then_number(self.borrowed_at);
        lemma_u64_bytes_then_number(self.return_by);
        lemma_key_of_view(self.user_address);
        assert(bytes.subrange(0, 8) =~= u64_le_bytes(self.user_no));
        assert(bytes.subrange(8, 40) =~= self.user_address@);
        assert(bytes.subrange(40, 48) =~= u64_le_bytes(self.book_no));
        assert(bytes.subrange(48, 56) =~= u64_le_bytes(self.borrowed_at));
        assert(bytes.subrange(56, 64) =~= u64_le_bytes(self.return_by));
    }

    /// 64 bytes are the stored form of the user read from them.
    pub proof fn lemma_decoded_then_encoded(bytes: Seq<u8>)
        requires
            bytes.len() == USER_LEN,
        ensures
            User::decoded(bytes) is Some,
            User::decoded(bytes).unwrap().encoded() == bytes,
    {
        lemma_u64_number_then_bytes(bytes.subrange(0, 8));
        lemma_key_of(bytes.subrange(8, 40));
        lemma_u64_number_then_bytes(bytes.subrange(40, 48));
        lemma_u64_number_then_bytes(bytes.subrange(48, 56));
        lemma_u64_number_then_bytes(bytes.subrange(56, 64));
        assert(User::decoded(bytes).unwrap().encoded() =~= bytes);
    }
}

impl Configuration {
    /// Storing a configuration and reading it again gives the configuration back.
    pub proof fn lemma_encoded_then_decoded(self)
        ensures
            self.encoded().len() == CONFIGURATION_LEN,
            Configuration::decoded(self.encoded()) == Some(self),
    {
        let bytes = self.encoded();
        lemma_key_of_view(self.authority_account1);
        lemma_key_of_view(self.authority_account2);
        lemma_key_of_view(self.authority_account3);
        assert(bytes.subrange(0, 32) =~= self.authority_account1@);
        assert(bytes.subrange(32, 64) =~= self.authority_account2@);
        assert(bytes.subrange(64, 96) =~= self.authority_account3@);
    }

    /// 96 bytes are the stored form of the configuration read from them.
    pub proof fn lemma_decoded_then_encoded(bytes: Seq<u8>)
        requires
            bytes.len() == CONFIGURATION_LEN,
        ensures
            Configuration::decoded(bytes) is Some,
            Configuration::decoded(bytes).unwrap().encoded() == bytes,
    {
        lemma_key_of(bytes.subrange(0, 32));
        lemma_key_of(bytes.subrange(32, 64));
        lemma_key_of(bytes.subrange(64, 96));
        assert(Configuration::decoded(bytes).unwrap().encoded() =~= bytes);
    }
}

} // verus!
