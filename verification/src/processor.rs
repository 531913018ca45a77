//! The operations. Each takes its accounts by position from the list of the
//! call, checks them in a fixed order, and either changes the records in place or
//! says what the host has to create. An operation that fails changes nothing.

use vstd::prelude::*;
use crate::account::{store, stored, views, Account, AccountView};
use crate::address::{derived_address, NewAccount, SeedTag};
use crate::codec::same_key;
use crate::creation::Creation;
use crate::error::{LibraryError, ProcessError};
use crate::instruction::LibraryInstruction;
use crate::state::{
    Book, BookNumber, Configuration, Counter, User, BOOK_LEN, CONFIGURATION_LEN, COUNTER_LEN,
    USER_LEN,
};

verus! {

/// The operations of the registry.
pub struct Processor;

impl Processor {
    /// Adding copies. The list is the book, the payer, the configuration. The
    /// checks, in order: the list has three accounts (`InvalidInstruction`); the
    /// configuration reads as one (`BorshIoError`); the payer signed
    /// (`NotSignerPayer`); the program owns the book's account (`InvalidOwner`);
    /// the payer is an authority (`AuthorityError`); the book reads as one
    /// (`BorshIoError`); the sums fit (`ArithmeticError`). Who owns the
    /// configuration's account is not asked.
    pub open spec fn add_book_outcome(
        program_id: [u8; 32],
        accounts: Seq<AccountView>,
        data: BookNumber,
    ) -> Result<Seq<AccountView>, ProcessError> {
        if accounts.len() < 3 {
            Err(ProcessError::Custom(LibraryError::InvalidInstruction))
        } else {
            match Configuration::decoded(accounts[2].data) {
                None => Err(ProcessError::BorshIoError),
                Some(config) => {
                    if !accounts[1].is_signer {
                        Err(ProcessError::Custom(LibraryError::NotSignerPayer))
                    } else if accounts[0].owner != program_id {
                        Err(ProcessError::Custom(LibraryError::InvalidOwner))
                    } else if !config.permits(accounts[1].key) {
                        Err(ProcessError::Custom(LibraryError::AuthorityError))
                    } else {
                        match Book::decoded(accounts[0].data) {
                            None => Err(ProcessError::BorshIoError),
                            Some(book) => match book.with_added(data.book_number) {
                                None => Err(ProcessError::Custom(LibraryError::ArithmeticError)),
                                Some(next) => Ok(stored(accounts, 0, next.encoded())),
                            },
                        }
                    }
                },
            }
        }
    }

    /// Removing a copy. The list is the book, the payer. The checks, in order:
    /// the list has two accounts (`InvalidInstruction`); the payer signed
    /// (`NotSignerPayer`); the program owns the book's account (`InvalidOwner`);
    /// the book reads as one (`BorshIoError`); the shelf is not empty and the
    /// total fits (`ArithmeticError`). The total goes up by one as the shelf goes
    /// down by one.
    pub open spec fn remove_book_outcome(program_id: [u8; 32], accounts: Seq<AccountView>) -> Result<
        Seq<AccountView>,
        ProcessError,
    > {
        if accounts.len() < 2 {
            Err(ProcessError::Custom(LibraryError::InvalidInstruction))
        } else if !accounts[1].is_signer {
            Err(ProcessError::Custom(LibraryError::NotSignerPayer))
        } else if accounts[0].owner != program_id {
            Err(ProcessError::Custom(LibraryError::InvalidOwner))
        } else {
            match Book::decoded(accounts[0].data) {
                None => Err(ProcessError::BorshIoError),
                Some(book) => match book.with_removed() {
                    None => Err(ProcessError::Custom(LibraryError::ArithmeticError)),
                    Some(next) => Ok(stored(accounts, 0, next.encoded())),
                },
            }
        }
    }

    /// Borrowing. The list is the book, the user, the payer. The checks, in
    /// order: the list has three accounts (`InvalidInstruction`); the user reads
    /// as one, then the book (`BorshIoError`); the payer signed
    /// (`NotSignerPayer`); the program owns the book's account (`InvalidOwner`);
    /// the host has the time (`UnsupportedSysvar`); a copy is on the shelf and the
    /// count in circulation fits, then the due date fits (`ArithmeticError`). Who
    /// owns the user's account, and whether the payer is the user, is not asked.
    pub open spec fn borrow_book_outcome(
        program_id: [u8; 32],
        accounts: Seq<AccountView>,
        now: Option<u64>,
    ) -> Result<Seq<AccountView>, ProcessError> {
        if accounts.len() < 3 {
            Err(ProcessError::Custom(LibraryError::InvalidInstruction))
        } else {
            match (User::decoded(accounts[1].data), Book::decoded(accounts[0].data)) {
                (Some(user), Some(book)) => {
                    if !accounts[2].is_signer {
                        Err(ProcessError::Custom(LibraryError::NotSignerPayer))
                    } else if accounts[0].owner != program_id {
                        Err(ProcessError::Custom(LibraryError::InvalidOwner))
                    } else {
                        match now {
                            None => Err(ProcessError::UnsupportedSysvar),
                            Some(time) => match book.with_borrowed() {
                                None => Err(ProcessError::Custom(LibraryError::ArithmeticError)),
                                Some(lent) => match user.with_loan(book.book_no, time) {
                                    None => Err(
                                        ProcessError::Custom(LibraryError::ArithmeticError),
                                    ),
                                    Some(holder) => Ok(
                                        stored(
                                            stored(accounts, 0, lent.encoded()),
                                            1,
                                            holder.encoded(),
                                        ),
                                    ),
                                },
                            },
                        }
                    }
                },
                _ => Err(ProcessError::BorshIoError),
            }
        }
    }

    /// Returning. The list is the book, the user, the payer. The checks, in
    /// order: the list has three accounts (`InvalidInstruction`); the payer
    /// signed (`NotSignerPayer`); the program owns the book's account
    /// (`InvalidOwner`); the host has the time (`UnsupportedSysvar`); the book
    /// reads as one, then the user (`BorshIoError`); a copy is in circulation,
    /// then the time is at least fourteen days (`ArithmeticError`).
    pub open spec fn return_book_outcome(
        program_id: [u8; 32],
        accounts: Seq<AccountView>,
        now: Option<u64>,
    ) -> Result<Seq<AccountView>, ProcessError> {
        if accounts.len() < 3 {
            Err(ProcessError::Custom(LibraryError::InvalidInstruction))
        } else if !accounts[2].is_signer {
            Err(ProcessError::Custom(LibraryError::NotSignerPayer))
        } else if accounts[0].owner != program_id {
            Err(ProcessError::Custom(LibraryError::InvalidOwner))
        } else {
            match now {
                None => Err(ProcessError::UnsupportedSysvar),
                Some(time) => match (Book::decoded(accounts[0].data), User::decoded(
                    accounts[1].data,
                )) {
                    (Some(book), Some(user)) => match book.with_returned() {
                        None => Err(ProcessError::Custom(LibraryError::ArithmeticError)),
                        Some(back) => match user.with_return(time) {
                            None => Err(ProcessError::Custom(LibraryError::ArithmeticError)),
                            Some(free) => Ok(
                                stored(stored(accounts, 0, back.encoded()), 1, free.encoded()),
                            ),
                        },
                    },
                    _ => Err(ProcessError::BorshIoError),
                },
            }
        }
    }

    /// Founding a user. The list is the user's account, the payer, the counter of
    /// users. The checks, in order: the list has three accounts
    /// (`InvalidInstruction`); the counter reads as one (`BorshIoError`); it can
    /// go up by one (`ArithmeticError`); the payer signed (`NotSignerPayer`); the
    /// seeds `"UA"` and the new number yield an address (`InvalidSeeds`). The user
    /// gets the counter's new value as number and the payer as owner.
    pub open spec fn create_user_outcome(program_id: [u8; 32], accounts: Seq<AccountView>) -> Result<
        Creation,
        ProcessError,
    > {
        if accounts.len() < 3 {
            Err(ProcessError::Custom(LibraryError::InvalidInstruction))
        } else {
            match Counter::decoded(accounts[2].data) {
                None => Err(ProcessError::BorshIoError),
                Some(before) => match before.incremented() {
                    None => Err(ProcessError::Custom(LibraryError::ArithmeticError)),
                    Some(counter) => {
                        if !accounts[1].is_signer {
                            Err(ProcessError::Custom(LibraryError::NotSignerPayer))
                        } else {
                            match NewAccount::planned(
                                0,
                                1,
                                SeedTag::UserAccount,
                                Some(counter.counter),
                                USER_LEN,
                                derived_address(
                                    SeedTag::UserAccount,
                                    Some(counter.counter),
                                    program_id,
                                ),
                            ) {
                                Err(e) => Err(e),
                                Ok(account) => Ok(
                                    Creation::User {
                                        account,
                                        counter,
                                        user: User {
                                            user_no: counter.counter,
                                            user_address: accounts[1].key,
                                            book_no: 0,
                                            borrowed_at: 0,
                                            return_by: 0,
                                        },
                                    },
                                ),
                            }
                        }
                    },
                },
            }
        }
    }

    /// Founding a book. The list is the book's account, the payer, the counter
    /// of books, the configuration. The checks, in order: the list has four
    /// accounts (`InvalidInstruction`); the configuration reads as one, then the
    /// counter (`BorshIoError`); the counter can go down by one
    /// (`ArithmeticError`); the payer signed (`NotSignerPayer`); the payer is an
    /// authority (`AuthorityError`); the seeds `"BC"` and the new number yield an
    /// address (`InvalidSeeds`). The book gets the counter's new value as number
    /// and has no copies. Who owns the configuration's account is not asked.
    pub open spec fn create_book_outcome(program_id: [u8; 32], accounts: Seq<AccountView>) -> Result<
        Creation,
        ProcessError,
    > {
        if accounts.len() < 4 {
            Err(ProcessError::Custom(LibraryError::InvalidInstruction))
        } else {
            match (Configuration::decoded(accounts[3].data), Counter::decoded(accounts[2].data)) {
                (Some(config), Some(before)) => match before.decremented() {
                    None => Err(ProcessError::Custom(LibraryError::ArithmeticError)),
                    Some(counter) => {
                        if !accounts[1].is_signer {
                            Err(ProcessError::Custom(LibraryError::NotSignerPayer))
                        } else if !config.permits(accounts[1].key) {
                            Err(ProcessError::Custom(LibraryError::AuthorityError))
                        } else {
                            match NewAccount::planned(
                                0,
                                1,
                                SeedTag::BookCounter,
                                Some(counter.counter),
                                BOOK_LEN,
                                derived_address(
                                    SeedTag::BookCounter,
                                    Some(counter.counter),
                                    program_id,
                                ),
                            ) {
                                Err(e) => Err(e),
                                Ok(account) => Ok(
                                    Creation::Book {
                                        account,
                                        counter,
                                        book: Book {
                                            book_no: counter.counter,
                                            number_of_books: 0,
                                            in_circulation: 0,
                                            total_number_of_books: 0,
                                        },
                                    },
                                ),
                            }
                        }
                    },
                },
                _ => Err(ProcessError::BorshIoError),
            }
        }
    }

    /// Founding the configuration. The list is the configuration's account, the
    /// payer. The checks, in order: the list has two accounts
    /// (`InvalidInstruction`); the seed `"authority"` yields an address
    /// (`InvalidSeeds`). The payer's key takes all three places. Whether the
    /// payer signed is not asked.
    pub open spec fn config_outcome(program_id: [u8; 32], accounts: Seq<AccountView>) -> Result<
        Creation,
        ProcessError,
    > {
        if accounts.len() < 2 {
            Err(ProcessError::Custom(LibraryError::InvalidInstruction))
        } else {
            match NewAccount::planned(
                0,
                1,
                SeedTag::Authority,
                None,
                CONFIGURATION_LEN,
                derived_address(SeedTag::Authority, None, program_id),
            ) {
                Err(e) => Err(e),
                Ok(account) => Ok(
                    Creation::Config {
                        account,
                        config: Configuration {
                            authority_account1: accounts[1].key,
                            authority_account2: accounts[1].key,
                            authority_account3: accounts[1].key,
                        },
                    },
                ),
            }
        }
    }

    /// Founding the counters. The list is the counter of users, the counter of
    /// books, the payer. The checks, in order: the list has three accounts
    /// (`InvalidInstruction`); the seed `"UC"` yields an address, then the seed
    /// `"BC"` (`InvalidSeeds`).
    pub open spec fn counter_outcome(program_id: [u8; 32], accounts: Seq<AccountView>) -> Result<
        Creation,
        ProcessError,
    > {
        if accounts.len() < 3 {
            Err(ProcessError::Custom(LibraryError::InvalidInstruction))
        } else {
            match NewAccount::planned(
                0,
                2,
                SeedTag::UserCounter,
                None,
                COUNTER_LEN,
                derived_address(SeedTag::UserCounter, None, program_id),
            ) {
                Err(e) => Err(e),
                Ok(user_counter) => match NewAccount::planned(
                    1,
                    2,
                    SeedTag::BookCounter,
                    None,
                    COUNTER_LEN,
                    derived_address(SeedTag::BookCounter, None, program_id),
                ) {
                    Err(e) => Err(e),
                    Ok(book_counter) => Ok(Creation::Counters { user_counter, book_counter }),
                },
            }
        }
    }

    /// A whole call. The bytes select the operation (`InvalidInstruction` where
    /// they select none), and the operation decides. An operation that founds a
    /// record leaves the accounts as they are and hands its `Creation` back; the
    /// others change the accounts and hand nothing back.
    pub open spec fn process_outcome(
        program_id: [u8; 32],
        accounts: Seq<AccountView>,
        input: Seq<u8>,
        now: Option<u64>,
    ) -> Result<(Seq<AccountView>, Option<Creation>), ProcessError> {
        match LibraryInstruction::decoded(input) {
            None => Err(ProcessError::Custom(LibraryError::InvalidInstruction)),
            Some(LibraryInstruction::CreateUser) => founding(
                accounts,
                Processor::create_user_outcome(program_id, accounts),
            ),
            Some(LibraryInstruction::CreateBook) => founding(
                accounts,
                Processor::create_book_outcome(program_id, accounts),
            ),
            Some(LibraryInstruction::AddBook { data }) => changing(
                Processor::add_book_outcome(program_id, accounts, data),
            ),
            Some(LibraryInstruction::RemoveBook) => changing(
                Processor::remove_book_outcome(program_id, accounts),
            ),
            Some(LibraryInstruction::BorrowBook) => changing(
                Processor::borrow_book_outcome(program_id, accounts, now),
            ),
            Some(LibraryInstruction::ReturnBook) => changing(
                Processor::return_book_outcome(program_id, accounts, now),
            ),
            Some(LibraryInstruction::Config) => founding(
                accounts,
                Processor::config_outcome(program_id, accounts),
            ),
            Some(LibraryInstruction::InitCounter) => founding(
                accounts,
                Processor::counter_outcome(program_id, accounts),
            ),
        }
    }

    /// Whether `authority` may change the catalog: it must be one of the three
    /// keys of `config`.
    pub fn check_authority(authority: &[u8; 32], config: Configuration) -> (res: Result<
        (),
        LibraryError,
    >)
        ensures
            config.permits(*authority) ==> res is Ok,
            !config.permits(*authority) ==> res == Err::<(), _>(LibraryError::AuthorityError),
    {
        if !same_key(&config.authority_account1, authority) && !same_key(
            &config.authority_account2,
            authority,
        ) && !same_key(&config.authority_account3, authority) {
            return Err(LibraryError::AuthorityError);
        }
        Ok(())
    }

    /// Adds `data.book_number` copies to a book.
    pub fn process_add_book(program_id: &[u8; 32], accounts: &mut Vec<Account>, data: BookNumber) -> (res:
        Result<(), ProcessError>)
        ensures
            match Processor::add_book_outcome(*program_id, views(old(accounts)@), data) {
                Ok(after) => res is Ok && views(final(accounts)@) == after,
                Err(e) => res == Err::<(), _>(e) && final(accounts)@ == old(accounts)@,
            },
            final(accounts).len() == old(accounts).len(),
    {
        if accounts.len() < 3 {
            return Err(ProcessError::Custom(LibraryError::InvalidInstruction));
        }
        let config = match Configuration::try_from_slice(accounts[2].data.as_slice()) {
            Some(config) => config,
            None => return Err(ProcessError::BorshIoError),
        };
        if !accounts[1].is_signer {
            return Err(ProcessError::Custom(LibraryError::NotSignerPayer));
        }
        if !same_key(&accounts[0].owner, program_id) {
            return Err(ProcessError::Custom(LibraryError::InvalidOwner));
        }
        if let Err(e) = Processor::check_authority(&accounts[1].key, config) {
            return Err(ProcessError::Custom(e));
        }
        let mut book = match Book::try_from_slice(accounts[0].data.as_slice()) {
            Some(book) => book,
            None => return Err(ProcessError::BorshIoError),
        };
        if let Err(e) = book.add_copies(data.book_number) {
            return Err(ProcessError::Custom(e));
        }
        proof {
            book.lemma_encoded_then_decoded();
        }
        store(accounts, 0, &book.to_bytes());
        Ok(())
    }

    /// Takes one copy of a book off the shelf.
    pub fn process_remove_book(program_id: &[u8; 32], accounts: &mut Vec<Account>) -> (res: Result<
        (),
        ProcessError,
    >)
        ensures
            match Processor::remove_book_outcome(*program_id, views(old(accounts)@)) {
                Ok(after) => res is Ok && views(final(accounts)@) == after,
                Err(e) => res == Err::<(), _>(e) && final(accounts)@ == old(accounts)@,
            },
            final(accounts).len() == old(accounts).len(),
    {
        if accounts.len() < 2 {
            return Err(ProcessError::Custom(LibraryError::InvalidInstruction));
        }
        if !accounts[1].is_signer {
            return Err(ProcessError::Custom(LibraryError::NotSignerPayer));
        }
        if !same_key(&accounts[0].owner, program_id) {
            return Err(ProcessError::Custom(LibraryError::InvalidOwner));
        }
        let mut book = match Book::try_from_slice(accounts[0].data.as_slice()) {
            Some(book) => book,
            None => return Err(ProcessError::BorshIoError),
        };
        if let Err(e) = book.remove_copy() {
            return Err(ProcessError::Custom(e));
        }
        proof {
            book.lemma_encoded_then_decoded();
        }
        store(accounts, 0, &book.to_bytes());
        Ok(())
    }

    /// Lends one copy of a book to a user at the time `now`.
    pub fn process_borrow_book(
        program_id: &[u8; 32],
        accounts: &mut Vec<Account>,
        now: Option<u64>,
    ) -> (res: Result<(), ProcessError>)
        ensures
            match Processor::borrow_book_outcome(*program_id, views(old(accounts)@), now) {
                Ok(after) => res is Ok && views(final(accounts)@) == after,
                Err(e) => res == Err::<(), _>(e) && final(accounts)@ == old(accounts)@,
            },
            final(accounts).len() == old(accounts).len(),
    {
        if accounts.len() < 3 {
            return Err(ProcessError::Custom(LibraryError::InvalidInstruction));
        }
        let mut user = match User::try_from_slice(accounts[1].data.as_slice()) {
            Some(user) => user,
            None => return Err(ProcessError::BorshIoError),
        };
        let mut book = match Book::try_from_slice(accounts[0].data.as_slice()) {
            Some(book) => book,
            None => return Err(ProcessError::BorshIoError),
        };
        if !accounts[2].is_signer {
            return Err(ProcessError::Custom(LibraryError::NotSignerPayer));
        }
        if !same_key(&accounts[0].owner, program_id) {
            return Err(ProcessError::Custom(LibraryError::InvalidOwner));
        }
        let time = match now {
            Some(time) => time,
            None => return Err(ProcessError::UnsupportedSysvar),
        };
        if let Err(e) = book.borrow_copy() {
            return Err(ProcessError::Custom(e));
        }
        if let Err(e) = user.take_book(book.book_no, time) {
            return Err(ProcessError::Custom(e));
        }
        proof {
            book.lemma_encoded_then_decoded();
            user.lemma_encoded_then_decoded();
        }
        store(accounts, 0, &book.to_bytes());
        store(accounts, 1, &user.to_bytes());
        Ok(())
    }

    /// Takes a copy of a book back from a user at the time `now`.
    pub fn process_return_book(
        program_id: &[u8; 32],
        accounts: &mut Vec<Account>,
        now: Option<u64>,
    ) -> (res: Result<(), ProcessError>)
        ensures
            match Processor::return_book_outcome(*program_id, views(old(accounts)@), now) {
                Ok(after) => res is Ok && views(final(accounts)@) == after,
                Err(e) => res == Err::<(), _>(e) && final(accounts)@ == old(accounts)@,
            },
            final(accounts).len() == old(accounts).len(),
    {
        if accounts.len() < 3 {
            return Err(ProcessError::Custom(LibraryError::InvalidInstruction));
        }
        if !accounts[2].is_signer {
            return Err(ProcessError::Custom(LibraryError::NotSignerPayer));
        }
        if !same_key(&accounts[0].owner, program_id) {
            return Err(ProcessError::Custom(LibraryError::InvalidOwner));
        }
        let time = match now {
            Some(time) => time,
            None => return Err(ProcessError::UnsupportedSysvar),
        };
        let mut book = match Book::try_from_slice(accounts[0].data.as_slice()) {
            Some(book) => book,
            None => return Err(ProcessError::BorshIoError),
        };
        let mut user = match User::try_from_slice(accounts[1].data.as_slice()) {
            Some(user) => user,
            None => return Err(ProcessError::BorshIoError),
        };
        if let Err(e) = book.return_copy() {
            return Err(ProcessError::Custom(e));
        }
        if let Err(e) = user.hand_back(time) {
            return Err(ProcessError::Custom(e));
        }
        proof {
            book.lemma_encoded_then_decoded();
            user.lemma_encoded_then_decoded();
        }
        store(accounts, 0, &book.to_bytes());
        store(accounts, 1, &user.to_bytes());
        Ok(())
    }

    /// Founds a user.
    pub fn process_create_user(program_id: &[u8; 32], accounts: &Vec<Account>) -> (res: Result<
        Creation,
        ProcessError,
    >)
        ensures
            res == Processor::create_user_outcome(*program_id, views(accounts@)),
    {
        if accounts.len() < 3 {
            return Err(ProcessError::Custom(LibraryError::InvalidInstruction));
        }
        let mut counter = match Counter::try_from_slice(accounts[2].data.as_slice()) {
            Some(counter) => counter,
            None => return Err(ProcessError::BorshIoError),
        };
        if let Err(e) = counter.increment() {
            return Err(ProcessError::Custom(e));
        }
        if !accounts[1].is_signer {
            return Err(ProcessError::Custom(LibraryError::NotSignerPayer));
        }
        let user = User::new(counter.counter, accounts[1].key);
        let account = match NewAccount::derive(
            0,
            1,
            SeedTag::UserAccount,
            Some(counter.counter),
            USER_LEN,
            program_id,
        ) {
            Ok(account) => account,
            Err(e) => return Err(e),
        };
        Ok(Creation::User { account, counter, user })
    }

    /// Founds the two counters.
    pub fn initialize_counter(program_id: &[u8; 32], accounts: &Vec<Account>) -> (res: Result<
        Creation,
        ProcessError,
    >)
        ensures
            res == Processor::counter_outcome(*program_id, views(accounts@)),
    {
        if accounts.len() < 3 {
            return Err(ProcessError::Custom(LibraryError::InvalidInstruction));
        }
        let user_counter = match NewAccount::derive(
            0,
            2,
            SeedTag::UserCounter,
            None,
            COUNTER_LEN,
            program_id,
        ) {
            Ok(account) => account,
            Err(e) => return Err(e),
        };
        let book_counter = match NewAccount::derive(
            1,
            2,
            SeedTag::BookCounter,
            None,
            COUNTER_LEN,
            program_id,
        ) {
            Ok(account) => account,
            Err(e) => return Err(e),
        };
        Ok(Creation::Counters { user_counter, book_counter })
    }

    /// Founds a book.
    pub fn process_create_book(program_id: &[u8; 32], accounts: &Vec<Account>) -> (res: Result<
        Creation,
        ProcessError,
    >)
        ensures
            res == Processor::create_book_outcome(*program_id, views(accounts@)),
    {
        if accounts.len() < 4 {
            return Err(ProcessError::Custom(LibraryError::InvalidInstruction));
        }
        let config = match Configuration::try_from_slice(accounts[3].data.as_slice()) {
            Some(config) => config,
            None => return Err(ProcessError::BorshIoError),
        };
        let mut counter = match Counter::try_from_slice(accounts[2].data.as_slice()) {
            Some(counter) => counter,
            None => return Err(ProcessError::BorshIoError),
        };
        if let Err(e) = counter.decrement() {
            return Err(ProcessError::Custom(e));
        }
        if !accounts[1].is_signer {
            return Err(ProcessError::Custom(LibraryError::NotSignerPayer));
        }
        if let Err(e) = Processor::check_authority(&accounts[1].key, config) {
            return Err(ProcessError::Custom(e));
        }
        let book = Book::new(counter.counter);
        let account = match NewAccount::derive(
            0,
            1,
            SeedTag::BookCounter,
            Some(counter.counter),
            BOOK_LEN,
            program_id,
        ) {
            Ok(account) => account,
            Err(e) => return Err(e),
        };
        Ok(Creation::Book { account, counter, book })
    }

    /// Founds the configuration.
    pub fn process_config(program_id: &[u8; 32], accounts: &Vec<Account>) -> (res: Result<
        Creation,
        ProcessError,
    >)
        ensures
            res == Processor::config_outcome(*program_id, views(accounts@)),
    {
        if accounts.len() < 2 {
            return Err(ProcessError::Custom(LibraryError::InvalidInstruction));
        }
        let account = match NewAccount::derive(
            0,
            1,
            SeedTag::Authority,
            None,
            CONFIGURATION_LEN,
            program_id,
        ) {
            Ok(account) => account,
            Err(e) => return Err(e),
        };
        let config = Configuration::new(accounts[1].key);
        Ok(Creation::Config { account, config })
    }

    /// Carries out the call that `instruction_data` encodes. `now` is the time on
    /// the host's clock in seconds, if it has one.
    pub fn process(
        program_id: &[u8; 32],
        accounts: &mut Vec<Account>,
        instruction_data: &[u8],
        now: Option<u64>,
    ) -> (res: Result<Option<Creation>, ProcessError>)
        ensures
            match Processor::process_outcome(
                *program_id,
                views(old(accounts)@),
                instruction_data@,
                now,
            ) {
                Ok((after, pending)) => res == Ok::<_, ProcessError>(pending) && views(
                    final(accounts)@,
                ) == after,
                Err(e) => res == Err::<Option<Creation>, _>(e) && final(accounts)@ == old(
                    accounts,
                )@,
            },
            final(accounts).len() == old(accounts).len(),
    {
        let instruction = match LibraryInstruction::unpack(instruction_data) {
            Ok(instruction) => instruction,
            Err(e) => return Err(ProcessError::Custom(e)),
        };
        match instruction {
            LibraryInstruction::CreateUser => found(
                Processor::process_create_user(program_id, accounts),
            ),
            LibraryInstruction::CreateBook => found(
                Processor::process_create_book(program_id, accounts),
            ),
            LibraryInstruction::AddBook { data } => changed(
                Processor::process_add_book(program_id, accounts, data),
            ),
            LibraryInstruction::RemoveBook => changed(
                Processor::process_remove_book(program_id, accounts),
            ),
            LibraryInstruction::BorrowBook => changed(
                Processor::process_borrow_book(program_id, accounts, now),
            ),
            LibraryInstruction::ReturnBook => changed(
                Processor::process_return_book(program_id, accounts, now),
            ),
            LibraryInstruction::Config => found(Processor::process_config(program_id, accounts)),
            LibraryInstruction::InitCounter => found(
                Processor::initialize_counter(program_id, accounts),
            ),
        }
    }
}

/// The outcome of a call whose operation founds a record: the accounts as they
/// were, and the creation pending.
pub open spec fn founding(accounts: Seq<AccountView>, outcome: Result<Creation, ProcessError>) -> Result<
    (Seq<AccountView>, Option<Creation>),
    ProcessError,
> {
    match outcome {
        Ok(creation) => Ok((accounts, Some(creation))),
        Err(e) => Err(e),
    }
}

/// The outcome of a call whose operation changes records: the accounts as they
/// are now, and nothing pending.
pub open spec fn changing(outcome: Result<Seq<AccountView>, ProcessError>) -> Result<
    (Seq<AccountView>, Option<Creation>),
    ProcessError,
> {
    match outcome {
        Ok(after) => Ok((after, None)),
        Err(e) => Err(e),
    }
}

fn found(outcome: Result<Creation, ProcessError>) -> (res: Result<Option<Creation>, ProcessError>)
    ensures
        res == match outcome {
            Ok(creation) => Ok::<_, ProcessError>(Some(creation)),
            Err(e) => Err(e),
        },
{
    match outcome {
        Ok(creation) => Ok(Some(creation)),
        Err(e) => Err(e),
    }
}

fn changed(outcome: Result<(), ProcessError>) -> (res: Result<Option<Creation>, ProcessError>)
    ensures
        res == match outcome {
            Ok(_) => Ok::<Option<Creation>, ProcessError>(None),
            Err(e) => Err(e),
        },
{
    match outcome {
        Ok(()) => Ok(None),
        Err(e) => Err(e),
    }
}

} // verus!
