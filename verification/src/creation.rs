//! What an operation that founds a record leaves to the host: the accounts to
//! create, and the records to store in them once they exist.

use vstd::prelude::*;
use crate::account::{store, stored, views, Account, AccountView};
use crate::address::NewAccount;
use crate::error::{LibraryError, ProcessError};
use crate::state::{Book, Configuration, Counter, User};

verus! {

/// The outcome of an operation that founds a record. The host creates the
/// accounts named in it, in order, and then calls `store`.
#[derive(Debug, Clone, Copy, PartialEq, Eq)]
pub enum Creation {
    /// A new user: the user's account, the counter of users as it will be, and
    /// the user's record.
    User { account: NewAccount, counter: Counter, user: User },
    /// A new book: the book's account, the counter of books as it will be, and
    /// the book's record.
    Book { account: NewAccount, counter: Counter, book: Book },
    /// The configuration: its account and the record.
    Config { account: NewAccount, config: Configuration },
    /// The two counters. They start as the zeros that a new account holds, so
    /// nothing is stored.
    Counters { user_counter: NewAccount, book_counter: NewAccount },
}

impl Creation {
    /// The accounts to create, in the order in which to create them.
    pub open spec fn requests(self) -> Seq<NewAccount> {
        match self {
            Creation::User { account, .. } => seq![account],
            Creation::Book { account, .. } => seq![account],
            Creation::Config { account, .. } => seq![account],
            Creation::Counters { user_counter, book_counter } => seq![user_counter, book_counter],
        }
    }

    /// The account list after the records were stored, or why they cannot be.
    /// A user or a book goes to the first account and its counter to the third;
    /// the configuration goes to the first account. A list too short for that is
    /// `InvalidInstruction`, an account too short for its record is
    /// `BorshIoError`.
    pub open spec fn store_outcome(self, accounts: Seq<AccountView>) -> Result<
        Seq<AccountView>,
        ProcessError,
    > {
        match self {
            Creation::User { counter, user, .. } => pair_outcome(
                accounts,
                counter.encoded(),
                user.encoded(),
            ),
            Creation::Book { counter, book, .. } => pair_outcome(
                accounts,
                counter.encoded(),
                book.encoded(),
            ),
            Creation::Config { config, .. } => {
                if accounts.len() < 1 {
                    Err(ProcessError::Custom(LibraryError::InvalidInstruction))
                } else if !accounts[0].takes(config.encoded()) {
                    Err(ProcessError::BorshIoError)
                } else {
                    Ok(stored(accounts, 0, config.encoded()))
                }
            },
            Creation::Counters { .. } => Ok(accounts),
        }
    }

    /// Lists the accounts to create.
    pub fn new_accounts(&self) -> (out: Vec<NewAccount>)
        ensures
            out@ == self.requests(),
    {
        let mut out: Vec<NewAccount> = Vec::new();
        match self {
            Creation::User { account, .. } => {
                out.push(*account);
            },
            Creation::Book { account, .. } => {
                out.push(*account);
            },
            Creation::Config { account, .. } => {
                out.push(*account);
            },
            Creation::Counters { user_counter, book_counter } => {
                out.push(*user_counter);
                out.push(*book_counter);
            },
        }
        assert(out@ =~= self.requests());
        out
    }

    /// Stores the records in the accounts that the host has created. On an error
    /// no account has changed.
    pub fn store(&self, accounts: &mut Vec<Account>) -> (res: Result<(), ProcessError>)
        ensures
            match self.store_outcome(views(old(accounts)@)) {
                Ok(after) => res is Ok && views(final(accounts)@) == after,
                Err(e) => res == Err::<(), _>(e) && final(accounts)@ == old(accounts)@,
            },
            final(accounts).len() == old(accounts).len(),
    {
        match self {
            Creation::User { counter, user, .. } => {
                store_pair(accounts, &counter.to_bytes(), &user.to_bytes())
            },
            Creation::Book { counter, book, .. } => {
                store_pair(accounts, &counter.to_bytes(), &book.to_bytes())
            },
            Creation::Config { config, .. } => {
                let bytes = config.to_bytes();
                if accounts.len() < 1 {
                    return Err(ProcessError::Custom(LibraryError::InvalidInstruction));
                }
                if accounts[0].data.len() < bytes.len() {
                    return Err(ProcessError::BorshIoError);
                }
                store(accounts, 0, &bytes);
                Ok(())
            },
            Creation::Counters { .. } => Ok(()),
        }
    }
}

/// The account list after a counter was stored in the third account and a
/// record in the first, or why they cannot be.
pub open spec fn pair_outcome(accounts: Seq<AccountView>, counter: Seq<u8>, record: Seq<u8>) -> Result<
    Seq<AccountView>,
    ProcessError,
> {
    if accounts.len() < 3 {
        Err(ProcessError::Custom(LibraryError::InvalidInstruction))
    } else if !accounts[2].takes(counter) || !accounts[0].takes(record) {
        Err(ProcessError::BorshIoError)
    } else {
        Ok(stored(stored(accounts, 2, counter), 0, record))
    }
}

/// Stores a counter in the third account and a record in the first, or neither.
fn store_pair(accounts: &mut Vec<Account>, counter: &Vec<u8>, record: &Vec<u8>) -> (res: Result<
    (),
    ProcessError,
>)
    ensures
        match pair_outcome(views(old(accounts)@), counter@, record@) {
            Ok(after) => res is Ok && views(final(accounts)@) == after,
            Err(e) => res == Err::<(), _>(e) && final(accounts)@ == old(accounts)@,
        },
        final(accounts).len() == old(accounts).len(),
{
    if accounts.len() < 3 {
        return Err(ProcessError::Custom(LibraryError::InvalidInstruction));
    }
    if accounts[2].data.len() < counter.len() || accounts[0].data.len() < record.len() {
        return Err(ProcessError::BorshIoError);
    }
    store(accounts, 2, counter);
    store(accounts, 0, record);
    Ok(())
}

} // verus!
