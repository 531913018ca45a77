//! What holds of the registry whatever the call: of the form of instructions on the
//! wire, of the stock of a book under any run of operations, of a loan and its
//! return, and of the numbers and addresses that new records get.

use vstd::prelude::*;
use crate::account::{stored, AccountView};
use crate::address::{decimal, derived_address, rent_exempt_minimum, seeds, NewAccount, SeedTag};
use crate::creation::Creation;
use crate::error::{LibraryError, ProcessError};
use crate::instruction::LibraryInstruction;
use crate::processor::Processor;
use crate::state::{
    Book, BookNumber, Configuration, Counter, User, BOOK_LEN, LOAN_SECONDS, USER_LEN,
};

verus! {

/// An instruction put on the wire and read again is the same instruction.
pub proof fn lemma_instruction_encoded_then_decoded(instruction: LibraryInstruction)
    ensures
        LibraryInstruction::decoded(instruction.encoded()) == Some(instruction),
{
    let wire = instruction.encoded();
    assert(wire[0] == instruction.tag());
    match instruction {
        LibraryInstruction::AddBook { data } => {
            data.lemma_encoded_then_decoded();
            assert(wire.subrange(1, wire.len() as int) =~= data.encoded());
        },
        _ => {},
    }
}

/// Reading an instruction loses nothing of it: the bytes that were read are the
/// instruction's own form on the wire, tag and payload. For `AddBook` these are
/// all the bytes of the input; for the other operations they are the tag, and
/// what follows it was not read. An input without such bytes behind it is the
/// instruction's form on the wire.
pub proof fn lemma_instruction_decoded_then_encoded(input: Seq<u8>)
    requires
        LibraryInstruction::decoded(input) is Some,
    ensures
        ({
            let instruction = LibraryInstruction::decoded(input).unwrap();
            &&& instruction.encoded().len() <= input.len()
            &&& instruction.encoded() == input.subrange(0, instruction.encoded().len() as int)
            &&& instruction.payload() == input.subrange(1, instruction.encoded().len() as int)
            &&& instruction is AddBook ==> instruction.encoded() == input
            &&& instruction.encoded().len() == input.len() ==> instruction.encoded() == input
        }),
{
    let instruction = LibraryInstruction::decoded(input).unwrap();
    assert(input.subrange(0, input.len() as int) =~= input);
    if input[0] == 2 {
        let rest = input.subrange(1, input.len() as int);
        BookNumber::lemma_decoded_then_encoded(rest);
        assert(instruction.encoded() =~= input);
        assert(instruction.payload() =~= input.subrange(1, instruction.encoded().len() as int));
    } else {
        assert(instruction.payload() =~= Seq::<u8>::empty());
        assert(instruction.encoded() =~= input.subrange(0, 1));
        assert(instruction.payload() =~= input.subrange(1, 1));
    }
}

/// The inputs that are no instruction: the empty one, one whose tag is above 7,
/// and an `AddBook` whose payload is shorter or longer than eight bytes.
pub proof fn lemma_instruction_refused(input: Seq<u8>)
    ensures
        LibraryInstruction::decoded(input) is None <==> (input.len() == 0 || input[0] > 7 || (
        input[0] == 2 && input.len() != 9)),
{
}

/// One change to the stock of a book.
pub enum StockChange {
    Add(u64),
    Remove,
    Borrow,
    Return,
}

impl StockChange {
    /// The book after the change, if the change is possible.
    pub open spec fn apply(self, book: Book) -> Option<Book> {
        match self {
            StockChange::Add(n) => book.with_added(n),
            StockChange::Remove => book.with_removed(),
            StockChange::Borrow => book.with_borrowed(),
            StockChange::Return => book.with_returned(),
        }
    }

    /// By how much the change raises the surplus of the total over the copies
    /// on the shelf and in circulation.
    pub open spec fn drift(self) -> int {
        match self {
            StockChange::Add(_) => 0,
            StockChange::Borrow => 0,
            StockChange::Return => 1,
            StockChange::Remove => 2,
        }
    }
}

/// The book after the changes, made in order, if all are possible.
pub open spec fn after_changes(book: Book, changes: Seq<StockChange>) -> Option<Book>
    decreases changes.len(),
{
    if changes.len() == 0 {
        Some(book)
    } else {
        match after_changes(book, changes.drop_last()) {
            Some(before) => changes.last().apply(before),
            None => None,
        }
    }
}

/// The sum of the drifts of the changes.
pub open spec fn total_drift(changes: Seq<StockChange>) -> int
    decreases changes.len(),
{
    if changes.len() == 0 {
        0
    } else {
        total_drift(changes.drop_last()) + changes.last().drift()
    }
}

/// After any run of changes the surplus of a book has grown by the drifts of the
/// changes: by nothing for copies added and lent, by one for each copy returned,
/// by two for each copy removed.
pub proof fn lemma_surplus_after_changes(book: Book, changes: Seq<StockChange>)
    requires
        after_changes(book, changes) is Some,
    ensures
        after_changes(book, changes).unwrap().surplus() == book.surplus() + total_drift(changes),
        after_changes(book, changes).unwrap().book_no == book.book_no,
    decreases changes.len(),
{
    if changes.len() > 0 {
        lemma_surplus_after_changes(book, changes.drop_last());
    }
}

/// A balanced book stays balanced under any run of additions and loans.
pub proof fn lemma_balance_kept(book: Book, changes: Seq<StockChange>)
    requires
        book.balanced(),
        forall|i: int|
            0 <= i < changes.len() ==> (#[trigger] changes[i] is Add || changes[i] is Borrow),
        after_changes(book, changes) is Some,
    ensures
        after_changes(book, changes).unwrap().balanced(),
    decreases changes.len(),
{
    if changes.len() > 0 {
        let head = changes.drop_last();
        assert forall|i: int| 0 <= i < head.len() implies (#[trigger] head[i] is Add
            || head[i] is Borrow) by {
            assert(head[i] == changes[i]);
        }
        lemma_balance_kept(book, head);
        assert(changes.last() == changes[changes.len() - 1]);
    }
}

/// A loan takes exactly one copy from the shelf into circulation, and a return
/// takes exactly one copy out of circulation and touches nothing else.
pub proof fn lemma_loan_and_return_move_one(book: Book)
    ensures
        book.with_borrowed() is Some <==> book.number_of_books > 0 && book.in_circulation
            < u64::MAX,
        book.with_borrowed() matches Some(lent) ==> lent == (Book {
            number_of_books: (book.number_of_books - 1) as u64,
            in_circulation: (book.in_circulation + 1) as u64,
            ..book
        }),
        book.with_returned() is Some <==> book.in_circulation > 0,
        book.with_returned() matches Some(back) ==> back == (Book {
            in_circulation: (book.in_circulation - 1) as u64,
            ..book
        }),
{
}

/// A copy lent can always be returned, and the return brings the count in
/// circulation back to what it was. The shelf stays one copy short.
pub proof fn lemma_loan_then_return(book: Book)
    requires
        book.with_borrowed() is Some,
    ensures
        book.with_borrowed().unwrap().with_returned() is Some,
        book.with_borrowed().unwrap().with_returned().unwrap() == (Book {
            number_of_books: (book.number_of_books - 1) as u64,
            ..book
        }),
{
}

/// A change is refused exactly where a sum or a difference would leave `u64`.
pub proof fn lemma_refused_where_out_of_range(book: Book, n: u64, user: User, now: u64)
    ensures
        book.with_added(n) is None <==> book.total_number_of_books + n > u64::MAX
            || book.number_of_books + n > u64::MAX,
        book.with_removed() is None <==> book.total_number_of_books + 1 > u64::MAX
            || book.number_of_books - 1 < 0,
        book.with_borrowed() is None <==> book.in_circulation + 1 > u64::MAX
            || book.number_of_books - 1 < 0,
        book.with_returned() is None <==> book.in_circulation - 1 < 0,
        user.with_loan(book.book_no, now) is None <==> now + LOAN_SECONDS > u64::MAX,
        user.with_return(now) is None <==> now - LOAN_SECONDS < 0,
{
}

/// A user is consistent when new, after a loan and after a return.
pub proof fn lemma_user_consistent(user: User, book_no: u64, now: u64)
    ensures
        (User { book_no: 0, ..user }).consistent(),
        user.with_loan(book_no, now) matches Some(holder) ==> holder.consistent(),
        user.with_return(now) matches Some(free) ==> free.consistent(),
{
}

/// A record stored in an account of exactly its length fills the account, and
/// the other accounts, and who the account is, stay as they are.
pub proof fn lemma_stored(accounts: Seq<AccountView>, index: int, bytes: Seq<u8>)
    requires
        0 <= index < accounts.len(),
        accounts[index].takes(bytes),
    ensures
        stored(accounts, index, bytes).len() == accounts.len(),
        stored(accounts, index, bytes)[index].data.len() == accounts[index].data.len(),
        stored(accounts, index, bytes)[index].data.subrange(0, bytes.len() as int) == bytes,
        bytes.len() == accounts[index].data.len() ==> stored(accounts, index, bytes)[index].data
            == bytes,
        stored(accounts, index, bytes)[index].key == accounts[index].key,
        stored(accounts, index, bytes)[index].owner == accounts[index].owner,
        stored(accounts, index, bytes)[index].is_signer == accounts[index].is_signer,
        forall|i: int|
            0 <= i < accounts.len() && i != index ==> stored(accounts, index, bytes)[i]
                == accounts[i],
{
    let after = stored(accounts, index, bytes)[index].data;
    assert(after.subrange(0, bytes.len() as int) =~= bytes);
    if bytes.len() == accounts[index].data.len() {
        assert(after =~= bytes);
    }
}

/// Copies added to a book are found in its account afterwards: the book read
/// from the account after the call is the book read before it with the copies
/// added to the shelf and to the total.
pub proof fn lemma_add_book_persists(program_id: [u8; 32], accounts: Seq<AccountView>, data: BookNumber)
    requires
        Processor::add_book_outcome(program_id, accounts, data) is Ok,
    ensures
        ({
            let after = Processor::add_book_outcome(program_id, accounts, data).unwrap();
            let before = Book::decoded(accounts[0].data).unwrap();
            &&& Book::decoded(after[0].data) == before.with_added(data.book_number)
            &&& after.len() == accounts.len()
            &&& forall|i: int| 1 <= i < accounts.len() ==> after[i] == accounts[i]
        }),
{
    let before = Book::decoded(accounts[0].data).unwrap();
    let next = before.with_added(data.book_number).unwrap();
    next.lemma_encoded_then_decoded();
    lemma_stored(accounts, 0, next.encoded());
}

/// A copy removed from a book is found missing in its account afterwards: the
/// book read from the account after the call is the book read before it with
/// one copy fewer on the shelf and one more in the total.
pub proof fn lemma_remove_book_persists(program_id: [u8; 32], accounts: Seq<AccountView>)
    requires
        Processor::remove_book_outcome(program_id, accounts) is Ok,
    ensures
        ({
            let after = Processor::remove_book_outcome(program_id, accounts).unwrap();
            let before = Book::decoded(accounts[0].data).unwrap();
            &&& Book::decoded(after[0].data) == before.with_removed()
            &&& after.len() == accounts.len()
            &&& forall|i: int| 1 <= i < accounts.len() ==> after[i] == accounts[i]
        }),
{
    let before = Book::decoded(accounts[0].data).unwrap();
    let next = before.with_removed().unwrap();
    next.lemma_encoded_then_decoded();
    lemma_stored(accounts, 0, next.encoded());
}

/// A loan is found in both accounts afterwards: the book with one copy moved
/// into circulation, the user holding that book from `now` for fourteen days.
pub proof fn lemma_borrow_book_persists(program_id: [u8; 32], accounts: Seq<AccountView>, now: u64)
    requires
        Processor::borrow_book_outcome(program_id, accounts, Some(now)) is Ok,
    ensures
        ({
            let after = Processor::borrow_book_outcome(program_id, accounts, Some(now)).unwrap();
            let book = Book::decoded(accounts[0].data).unwrap();
            let user = User::decoded(accounts[1].data).unwrap();
            &&& Book::decoded(after[0].data) == book.with_borrowed()
            &&& User::decoded(after[1].data) == user.with_loan(book.book_no, now)
            &&& after.len() == accounts.len()
            &&& forall|i: int| 2 <= i < accounts.len() ==> after[i] == accounts[i]
        }),
{
    let book = Book::decoded(accounts[0].data).unwrap();
    let user = User::decoded(accounts[1].data).unwrap();
    let lent = book.with_borrowed().unwrap();
    let holder = user.with_loan(book.book_no, now).unwrap();
    lent.lemma_encoded_then_decoded();
    holder.lemma_encoded_then_decoded();
    let middle = stored(accounts, 0, lent.encoded());
    lemma_stored(accounts, 0, lent.encoded());
    lemma_stored(middle, 1, holder.encoded());
}

/// A return is found in both accounts afterwards: the book with one copy fewer
/// in circulation, the user holding nothing.
pub proof fn lemma_return_book_persists(program_id: [u8; 32], accounts: Seq<AccountView>, now: u64)
    requires
        Processor::return_book_outcome(program_id, accounts, Some(now)) is Ok,
    ensures
        ({
            let after = Processor::return_book_outcome(program_id, accounts, Some(now)).unwrap();
            let book = Book::decoded(accounts[0].data).unwrap();
            let user = User::decoded(accounts[1].data).unwrap();
            &&& Book::decoded(after[0].data) == book.with_returned()
            &&& User::decoded(after[1].data) == user.with_return(now)
            &&& after.len() == accounts.len()
            &&& forall|i: int| 2 <= i < accounts.len() ==> after[i] == accounts[i]
        }),
{
    let book = Book::decoded(accounts[0].data).unwrap();
    let user = User::decoded(accounts[1].data).unwrap();
    let back = book.with_returned().unwrap();
    let free = user.with_return(now).unwrap();
    back.lemma_encoded_then_decoded();
    free.lemma_encoded_then_decoded();
    let middle = stored(accounts, 0, back.encoded());
    lemma_stored(accounts, 0, back.encoded());
    lemma_stored(middle, 1, free.encoded());
}

/// A loan and then a return, both carried out on the accounts, bring the count
/// in circulation of the stored book back to what it was and leave its shelf one
/// copy short.
pub proof fn lemma_borrow_then_return_on_accounts(
    program_id: [u8; 32],
    accounts: Seq<AccountView>,
    lent_at: u64,
    back_at: u64,
)
    requires
        Processor::borrow_book_outcome(program_id, accounts, Some(lent_at)) is Ok,
        back_at >= LOAN_SECONDS,
    ensures
        ({
            let middle = Processor::borrow_book_outcome(
                program_id,
                accounts,
                Some(lent_at),
            ).unwrap();
            let book = Book::decoded(accounts[0].data).unwrap();
            &&& Processor::return_book_outcome(program_id, middle, Some(back_at)) is Ok
            &&& Book::decoded(
                Processor::return_book_outcome(program_id, middle, Some(back_at)).unwrap()[0].data,
            ) == Some(Book { number_of_books: (book.number_of_books - 1) as u64, ..book })
        }),
{
    let middle = Processor::borrow_book_outcome(program_id, accounts, Some(lent_at)).unwrap();
    let book = Book::decoded(accounts[0].data).unwrap();
    lemma_borrow_book_persists(program_id, accounts, lent_at);
    lemma_loan_then_return(book);
    let lent = book.with_borrowed().unwrap();
    let holder = User::decoded(accounts[1].data).unwrap().with_loan(book.book_no, lent_at).unwrap();
    lent.lemma_encoded_then_decoded();
    holder.lemma_encoded_then_decoded();
    lemma_stored(accounts, 0, lent.encoded());
    lemma_stored(stored(accounts, 0, lent.encoded()), 1, holder.encoded());
    assert(middle[2] == accounts[2]);
    assert(middle[0].owner == accounts[0].owner);
    lemma_return_book_persists(program_id, middle, back_at);
}

/// With the counter of users at `n`, a user is founded exactly where the counter
/// can go up, the payer signed and the seeds yield an address. The new user has
/// the number `n + 1`, the payer as owner and no book; the counter becomes
/// `n + 1`; and the user's account is the one derived from the seeds `"UA"` and
/// `n + 1` in decimal, with room for one `User`.
pub proof fn lemma_create_user_numbers(program_id: [u8; 32], accounts: Seq<AccountView>, n: u64)
    requires
        accounts.len() >= 3,
        Counter::decoded(accounts[2].data) == Some(Counter { counter: n }),
    ensures
        Processor::create_user_outcome(program_id, accounts) is Ok <==> n < u64::MAX
            && accounts[1].is_signer && derived_address(
            SeedTag::UserAccount,
            Some((n + 1) as u64),
            program_id,
        ) is Some,
        Processor::create_user_outcome(program_id, accounts) matches Ok(creation) ==> {
            let found = derived_address(
                SeedTag::UserAccount,
                Some((n + 1) as u64),
                program_id,
            ).unwrap();
            creation == (Creation::User {
                account: NewAccount {
                    slot: 0,
                    payer: 1,
                    tag: SeedTag::UserAccount,
                    id: Some((n + 1) as u64),
                    address: found.0,
                    bump: found.1,
                    space: USER_LEN,
                    lamports: rent_exempt_minimum(USER_LEN as nat) as u64,
                },
                counter: Counter { counter: (n + 1) as u64 },
                user: User {
                    user_no: (n + 1) as u64,
                    user_address: accounts[1].key,
                    book_no: 0,
                    borrowed_at: 0,
                    return_by: 0,
                },
            })
        },
        n < u64::MAX ==> seeds(SeedTag::UserAccount, Some((n + 1) as u64)) == seq![
            seq![85u8, 65u8],
            decimal((n + 1) as nat),
        ],
{
}

/// With the counter of books at `n`, a book is founded exactly where the
/// configuration reads as one, the counter can go down, the payer signed and is
/// an authority, and the seeds yield an address. The new book has the number
/// `n - 1` and no copies; the counter becomes `n - 1`; and the book's account is
/// the one derived from the seeds `"BC"` and `n - 1` in decimal, with room for
/// one `Book`. With the counter at 0 and a configuration that reads as one, the
/// call is refused with `ArithmeticError`.
pub proof fn lemma_create_book_numbers(program_id: [u8; 32], accounts: Seq<AccountView>, n: u64)
    requires
        accounts.len() >= 4,
        Counter::decoded(accounts[2].data) == Some(Counter { counter: n }),
    ensures
        Processor::create_book_outcome(program_id, accounts) is Ok <==> n > 0
            && accounts[1].is_signer && Configuration::decoded(accounts[3].data) is Some
            && Configuration::decoded(accounts[3].data).unwrap().permits(accounts[1].key)
            && derived_address(SeedTag::BookCounter, Some((n - 1) as u64), program_id) is Some,
        Processor::create_book_outcome(program_id, accounts) matches Ok(creation) ==> {
            let found = derived_address(
                SeedTag::BookCounter,
                Some((n - 1) as u64),
                program_id,
            ).unwrap();
            creation == (Creation::Book {
                account: NewAccount {
                    slot: 0,
                    payer: 1,
                    tag: SeedTag::BookCounter,
                    id: Some((n - 1) as u64),
                    address: found.0,
                    bump: found.1,
                    space: BOOK_LEN,
                    lamports: rent_exempt_minimum(BOOK_LEN as nat) as u64,
                },
                counter: Counter { counter: (n - 1) as u64 },
                book: Book {
                    book_no: (n - 1) as u64,
                    number_of_books: 0,
                    in_circulation: 0,
                    total_number_of_books: 0,
                },
            })
        },
        n > 0 ==> seeds(SeedTag::BookCounter, Some((n - 1) as u64)) == seq![
            seq![66u8, 67u8],
            decimal((n - 1) as nat),
        ],
        n == 0 && Configuration::decoded(accounts[3].data) is Some
            ==> Processor::create_book_outcome(program_id, accounts) == Err::<Creation, _>(
            ProcessError::Custom(LibraryError::ArithmeticError),
        ),
{
}

/// A new user or book, once stored, is found in its account, and the counter in
/// its own, whatever the accounts held before, if they have exactly the room.
pub proof fn lemma_creation_persists(creation: Creation, accounts: Seq<AccountView>)
    requires
        accounts.len() >= 3,
        accounts[2].data.len() == 8,
        creation matches Creation::User { .. } ==> accounts[0].data.len() == USER_LEN,
        creation matches Creation::Book { .. } ==> accounts[0].data.len() == BOOK_LEN,
        creation is User || creation is Book,
    ensures
        creation.store_outcome(accounts) is Ok,
        creation matches Creation::User { counter, user, .. } ==> {
            let after = creation.store_outcome(accounts).unwrap();
            User::decoded(after[0].data) == Some(user) && Counter::decoded(after[2].data) == Some(
                counter,
            )
        },
        creation matches Creation::Book { counter, book, .. } ==> {
            let after = creation.store_outcome(accounts).unwrap();
            Book::decoded(after[0].data) == Some(book) && Counter::decoded(after[2].data) == Some(
                counter,
            )
        },
{
    match creation {
        Creation::User { counter, user, .. } => {
            counter.lemma_encoded_then_decoded();
            user.lemma_encoded_then_decoded();
            lemma_stored(accounts, 2, counter.encoded());
            lemma_stored(stored(accounts, 2, counter.encoded()), 0, user.encoded());
        },
        Creation::Book { counter, book, .. } => {
            counter.lemma_encoded_then_decoded();
            book.lemma_encoded_then_decoded();
            lemma_stored(accounts, 2, counter.encoded());
            lemma_stored(stored(accounts, 2, counter.encoded()), 0, book.encoded());
        },
        _ => {},
    }
}

/// Two lists hold the same accounts with storage of the same sizes: only the
/// bytes stored may differ.
pub open spec fn same_slots(before: Seq<AccountView>, after: Seq<AccountView>) -> bool {
    &&& after.len() == before.len()
    &&& forall|i: int|
        0 <= i < before.len() ==> {
            &&& (#[trigger] after[i]).key == before[i].key
            &&& after[i].owner == before[i].owner
            &&& after[i].is_signer == before[i].is_signer
            &&& after[i].data.len() == before[i].data.len()
        }
}

/// No call and no storing of new records adds or drops an account, changes who
/// an account is or who owns it, or changes the size of its storage.
pub proof fn lemma_slots_kept(
    program_id: [u8; 32],
    accounts: Seq<AccountView>,
    input: Seq<u8>,
    now: Option<u64>,
    creation: Creation,
)
    ensures
        Processor::process_outcome(program_id, accounts, input, now) matches Ok(step)
            ==> same_slots(accounts, step.0),
        creation.store_outcome(accounts) matches Ok(after) ==> same_slots(accounts, after),
{
    if let Ok(step) = Processor::process_outcome(program_id, accounts, input, now) {
        match LibraryInstruction::decoded(input).unwrap() {
            LibraryInstruction::AddBook { data } => {
                let next = Book::decoded(accounts[0].data).unwrap().with_added(
                    data.book_number,
                ).unwrap();
                next.lemma_encoded_then_decoded();
                lemma_stored(accounts, 0, next.encoded());
            },
            LibraryInstruction::RemoveBook => {
                let next = Book::decoded(accounts[0].data).unwrap().with_removed().unwrap();
                next.lemma_encoded_then_decoded();
                lemma_stored(accounts, 0, next.encoded());
            },
            LibraryInstruction::BorrowBook => {
                let book = Book::decoded(accounts[0].data).unwrap();
                let lent = book.with_borrowed().unwrap();
                let holder = User::decoded(accounts[1].data).unwrap().with_loan(
                    book.book_no,
                    now.unwrap(),
                ).unwrap();
                lent.lemma_encoded_then_decoded();
                holder.lemma_encoded_then_decoded();
                lemma_stored(accounts, 0, lent.encoded());
                lemma_stored(stored(accounts, 0, lent.encoded()), 1, holder.encoded());
            },
            LibraryInstruction::ReturnBook => {
                let back = Book::decoded(accounts[0].data).unwrap().with_returned().unwrap();
                let free = User::decoded(accounts[1].data).unwrap().with_return(
                    now.unwrap(),
                ).unwrap();
                back.lemma_encoded_then_decoded();
                free.lemma_encoded_then_decoded();
                lemma_stored(accounts, 0, back.encoded());
                lemma_stored(stored(accounts, 0, back.encoded()), 1, free.encoded());
            },
            _ => {},
        }
    }
    if let Ok(after) = creation.store_outcome(accounts) {
        match creation {
            Creation::User { counter, user, .. } => {
                lemma_stored(accounts, 2, counter.encoded());
                lemma_stored(stored(accounts, 2, counter.encoded()), 0, user.encoded());
            },
            Creation::Book { counter, book, .. } => {
                lemma_stored(accounts, 2, counter.encoded());
                lemma_stored(stored(accounts, 2, counter.encoded()), 0, book.encoded());
            },
            Creation::Config { config, .. } => {
                lemma_stored(accounts, 0, config.encoded());
            },
            Creation::Counters { .. } => {},
        }
    }
}

} // verus!
