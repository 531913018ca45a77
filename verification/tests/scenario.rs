use book_lending::account::Account;
use book_lending::address::{derive_address, NewAccount, SeedTag};
use book_lending::creation::Creation;
use book_lending::error::{LibraryError, ProcessError};
use book_lending::processor::Processor;
use book_lending::state::{Book, Configuration, Counter, User};
use solana_program::pubkey::Pubkey;

const REGISTRY: [u8; 32] = [17; 32];
const K1: [u8; 32] = [21; 32];
const K2: [u8; 32] = [22; 32];

fn slot(key: u8, data: Vec<u8>) -> Account {
    Account { key: [key; 32], owner: REGISTRY, is_signer: false, data }
}

fn signer(key: [u8; 32]) -> Account {
    Account { key, owner: [0; 32], is_signer: true, data: vec![] }
}

fn request(slot: usize, payer: usize, tag: SeedTag, id: Option<u64>, space: usize) -> NewAccount {
    NewAccount::derive(slot, payer, tag, id, space, &REGISTRY).unwrap()
}

/// What the host does between an operation and `store`: the created accounts
/// get their storage, zeroed.
fn create(accounts: &mut Vec<Account>, creation: &Creation) {
    for request in creation.new_accounts() {
        assert_eq!(accounts[request.slot].data.len(), 0);
        accounts[request.slot].owner = REGISTRY;
        accounts[request.slot].data = vec![0; request.space];
    }
}

#[test]
fn create_user_numbers_the_user_and_derives_the_address() {
    let accounts =
        vec![slot(30, vec![]), signer(K1), slot(31, Counter { counter: 6 }.to_bytes())];
    let creation = Processor::process_create_user(&REGISTRY, &accounts).unwrap();
    let (address, bump) =
        Pubkey::find_program_address(&[b"UA", b"7"], &Pubkey::new_from_array(REGISTRY));
    assert_eq!(
        creation,
        Creation::User {
            account: NewAccount {
                slot: 0,
                payer: 1,
                tag: SeedTag::UserAccount,
                id: Some(7),
                address: address.to_bytes(),
                bump,
                space: 64,
                lamports: 1_336_320,
            },
            counter: Counter { counter: 7 },
            user: User { user_no: 7, user_address: K1, book_no: 0, borrowed_at: 0, return_by: 0 },
        }
    );
    assert_eq!(Processor::process_create_user(&REGISTRY, &accounts), Ok(creation));
}

#[test]
fn create_user_refusals() {
    let good = vec![slot(30, vec![]), signer(K1), slot(31, Counter { counter: 6 }.to_bytes())];
    let mut accounts = good.clone();
    accounts.pop();
    assert_eq!(
        Processor::process_create_user(&REGISTRY, &accounts),
        Err(ProcessError::Custom(LibraryError::InvalidInstruction))
    );
    let mut accounts = good.clone();
    accounts[2].data = vec![0; 9];
    assert_eq!(Processor::process_create_user(&REGISTRY, &accounts), Err(ProcessError::BorshIoError));
    let mut accounts = good.clone();
    accounts[2].data = vec![255; 8];
    accounts[1].is_signer = false;
    assert_eq!(
        Processor::process_create_user(&REGISTRY, &accounts),
        Err(ProcessError::Custom(LibraryError::ArithmeticError))
    );
    let mut accounts = good.clone();
    accounts[1].is_signer = false;
    assert_eq!(
        Processor::process_create_user(&REGISTRY, &accounts),
        Err(ProcessError::Custom(LibraryError::NotSignerPayer))
    );
}

#[test]
fn create_book_counts_down_and_derives_the_address() {
    let accounts = vec![
        slot(30, vec![]),
        signer(K1),
        slot(31, Counter { counter: 100 }.to_bytes()),
        slot(32, Configuration::new(K1).to_bytes()),
    ];
    let creation = Processor::process_create_book(&REGISTRY, &accounts).unwrap();
    let (address, bump) =
        Pubkey::find_program_address(&[b"BC", b"99"], &Pubkey::new_from_array(REGISTRY));
    assert_eq!(
        creation,
        Creation::Book {
            account: NewAccount {
                slot: 0,
                payer: 1,
                tag: SeedTag::BookCounter,
                id: Some(99),
                address: address.to_bytes(),
                bump,
                space: 32,
                lamports: 1_113_600,
            },
            counter: Counter { counter: 99 },
            book: Book {
                book_no: 99,
                number_of_books: 0,
                in_circulation: 0,
                total_number_of_books: 0,
            },
        }
    );
}

#[test]
fn create_book_refusals() {
    let good = vec![
        slot(30, vec![]),
        signer(K1),
        slot(31, Counter { counter: 100 }.to_bytes()),
        slot(32, Configuration::new(K1).to_bytes()),
    ];
    let mut accounts = good.clone();
    accounts.pop();
    assert_eq!(
        Processor::process_create_book(&REGISTRY, &accounts),
        Err(ProcessError::Custom(LibraryError::InvalidInstruction))
    );
    let mut accounts = good.clone();
    accounts[3].data.pop();
    assert_eq!(Processor::process_create_book(&REGISTRY, &accounts), Err(ProcessError::BorshIoError));
    let mut accounts = good.clone();
    accounts[2].data.pop();
    assert_eq!(Processor::process_create_book(&REGISTRY, &accounts), Err(ProcessError::BorshIoError));
    let mut accounts = good.clone();
    accounts[2].data = vec![0; 8];
    accounts[1].is_signer = false;
    assert_eq!(
        Processor::process_create_book(&REGISTRY, &accounts),
        Err(ProcessError::Custom(LibraryError::ArithmeticError))
    );
    let mut accounts = good.clone();
    accounts[1].is_signer = false;
    accounts[1].key = K2;
    assert_eq!(
        Processor::process_create_book(&REGISTRY, &accounts),
        Err(ProcessError::Custom(LibraryError::NotSignerPayer))
    );
    let mut accounts = good.clone();
    accounts[1].key = K2;
    assert_eq!(
        Processor::process_create_book(&REGISTRY, &accounts),
        Err(ProcessError::Custom(LibraryError::AuthorityError))
    );
    let mut accounts = good.clone();
    accounts[3].owner = [0; 32];
    assert!(Processor::process_create_book(&REGISTRY, &accounts).is_ok());
}

#[test]
fn config_gives_the_payer_all_three_places() {
    let accounts = vec![slot(30, vec![]), Account { is_signer: false, ..signer(K2) }];
    assert_eq!(
        Processor::process_config(&REGISTRY, &accounts),
        Ok(Creation::Config {
            account: request(0, 1, SeedTag::Authority, None, 96),
            config: Configuration {
                authority_account1: K2,
                authority_account2: K2,
                authority_account3: K2,
            },
        })
    );
    assert_eq!(request(0, 1, SeedTag::Authority, None, 96).lamports, 1_559_040);
    assert_eq!(
        Processor::process_config(&REGISTRY, &accounts[..1].to_vec()),
        Err(ProcessError::Custom(LibraryError::InvalidInstruction))
    );
}

#[test]
fn initialize_counter_asks_for_both_counters() {
    let accounts = vec![slot(30, vec![]), slot(31, vec![]), signer(K1)];
    let creation = Processor::initialize_counter(&REGISTRY, &accounts).unwrap();
    assert_eq!(
        creation,
        Creation::Counters {
            user_counter: request(0, 2, SeedTag::UserCounter, None, 8),
            book_counter: request(1, 2, SeedTag::BookCounter, None, 8),
        }
    );
    assert_eq!(
        creation.new_accounts(),
        vec![
            request(0, 2, SeedTag::UserCounter, None, 8),
            request(1, 2, SeedTag::BookCounter, None, 8)
        ]
    );
    assert_eq!(
        derive_address(SeedTag::UserCounter, None, &REGISTRY).map(|found| found.0),
        Some(creation.new_accounts()[0].address)
    );
    assert_eq!(
        Processor::initialize_counter(&REGISTRY, &accounts[..2].to_vec()),
        Err(ProcessError::Custom(LibraryError::InvalidInstruction))
    );
}

#[test]
fn store_writes_counter_and_record() {
    let creation = Creation::User {
        account: request(0, 1, SeedTag::UserAccount, Some(7), 64),
        counter: Counter { counter: 7 },
        user: User::new(7, K1),
    };
    let mut accounts =
        vec![slot(30, vec![9; 64]), signer(K1), slot(31, Counter { counter: 6 }.to_bytes())];
    assert_eq!(creation.store(&mut accounts), Ok(()));
    assert_eq!(User::try_from_slice(&accounts[0].data), Some(User::new(7, K1)));
    assert_eq!(Counter::try_from_slice(&accounts[2].data), Some(Counter { counter: 7 }));
    assert_eq!(accounts[1], signer(K1));
}

#[test]
fn store_keeps_what_lies_behind_the_record() {
    let creation = Creation::Config {
        account: request(0, 1, SeedTag::Authority, None, 96),
        config: Configuration::new(K2),
    };
    let mut accounts = vec![slot(30, vec![9; 100])];
    assert_eq!(creation.store(&mut accounts), Ok(()));
    assert_eq!(accounts[0].data[..96].to_vec(), Configuration::new(K2).to_bytes());
    assert_eq!(accounts[0].data[96..].to_vec(), vec![9; 4]);
}

#[test]
fn store_refuses_short_accounts_and_changes_nothing() {
    let creation = Creation::Book {
        account: request(0, 1, SeedTag::BookCounter, Some(3), 32),
        counter: Counter { counter: 3 },
        book: Book::new(3),
    };
    let mut accounts =
        vec![slot(30, vec![0; 31]), signer(K1), slot(31, Counter { counter: 4 }.to_bytes())];
    let before = accounts.clone();
    assert_eq!(creation.store(&mut accounts), Err(ProcessError::BorshIoError));
    assert_eq!(accounts, before);
    let mut accounts = vec![slot(30, vec![0; 32]), signer(K1), slot(31, vec![0; 7])];
    let before = accounts.clone();
    assert_eq!(creation.store(&mut accounts), Err(ProcessError::BorshIoError));
    assert_eq!(accounts, before);
    let mut accounts = vec![slot(30, vec![0; 32]), signer(K1)];
    assert_eq!(
        creation.store(&mut accounts),
        Err(ProcessError::Custom(LibraryError::InvalidInstruction))
    );
    let config = Creation::Config {
        account: request(0, 1, SeedTag::Authority, None, 96),
        config: Configuration::new(K2),
    };
    let mut accounts = vec![slot(30, vec![0; 95])];
    assert_eq!(config.store(&mut accounts), Err(ProcessError::BorshIoError));
    let mut accounts = vec![];
    assert_eq!(
        config.store(&mut accounts),
        Err(ProcessError::Custom(LibraryError::InvalidInstruction))
    );
}

#[test]
fn store_of_counters_writes_nothing() {
    let creation = Creation::Counters {
        user_counter: request(0, 2, SeedTag::UserCounter, None, 8),
        book_counter: request(1, 2, SeedTag::BookCounter, None, 8),
    };
    let mut accounts = vec![slot(30, vec![0; 8])];
    let before = accounts.clone();
    assert_eq!(creation.store(&mut accounts), Ok(()));
    assert_eq!(accounts, before);
}

#[test]
fn process_routes_by_tag() {
    let book = Book { book_no: 5, number_of_books: 0, in_circulation: 0, total_number_of_books: 0 };
    let mut accounts = vec![
        slot(30, book.to_bytes()),
        signer(K1),
        slot(32, Configuration::new(K1).to_bytes()),
    ];
    assert_eq!(
        Processor::process(&REGISTRY, &mut accounts, &[2, 5, 0, 0, 0, 0, 0, 0, 0], None),
        Ok(None)
    );
    assert_eq!(
        Book::try_from_slice(&accounts[0].data),
        Some(Book { book_no: 5, number_of_books: 5, in_circulation: 0, total_number_of_books: 5 })
    );
    let mut accounts = vec![slot(30, accounts[0].data.clone()), signer(K2)];
    assert_eq!(Processor::process(&REGISTRY, &mut accounts, &[3], None), Ok(None));
    assert_eq!(
        Book::try_from_slice(&accounts[0].data),
        Some(Book { book_no: 5, number_of_books: 4, in_circulation: 0, total_number_of_books: 6 })
    );
    let mut accounts =
        vec![slot(30, accounts[0].data.clone()), slot(33, User::new(1, K2).to_bytes()), signer(K2)];
    assert_eq!(
        Processor::process(&REGISTRY, &mut accounts, &[4], None),
        Err(ProcessError::UnsupportedSysvar)
    );
    assert_eq!(Processor::process(&REGISTRY, &mut accounts, &[4], Some(2_000_000)), Ok(None));
    assert_eq!(
        User::try_from_slice(&accounts[1].data),
        Some(User {
            user_no: 1,
            user_address: K2,
            book_no: 5,
            borrowed_at: 2_000_000,
            return_by: 3_209_600,
        })
    );
    assert_eq!(Processor::process(&REGISTRY, &mut accounts, &[5], Some(2_500_000)), Ok(None));
    assert_eq!(
        Book::try_from_slice(&accounts[0].data),
        Some(Book { book_no: 5, number_of_books: 3, in_circulation: 0, total_number_of_books: 6 })
    );
}

#[test]
fn process_refuses_bad_instructions_and_changes_nothing() {
    let mut accounts = vec![slot(30, Book::new(1).to_bytes()), signer(K1)];
    let before = accounts.clone();
    for input in [vec![], vec![8u8], vec![2u8], vec![2u8, 1, 2, 3], vec![200u8, 0]] {
        assert_eq!(
            Processor::process(&REGISTRY, &mut accounts, &input, Some(1)),
            Err(ProcessError::Custom(LibraryError::InvalidInstruction))
        );
        assert_eq!(accounts, before);
    }
}

#[test]
fn process_hands_creations_back() {
    let mut accounts =
        vec![slot(30, vec![]), signer(K1), slot(31, Counter { counter: 0 }.to_bytes())];
    let before = accounts.clone();
    let pending = Processor::process(&REGISTRY, &mut accounts, &[0], None);
    assert_eq!(pending, Processor::process_create_user(&REGISTRY, &before).map(Some));
    assert_eq!(accounts, before);
    let pending = Processor::process(&REGISTRY, &mut accounts, &[7], None);
    assert_eq!(pending, Processor::initialize_counter(&REGISTRY, &before).map(Some));
    let pending = Processor::process(&REGISTRY, &mut accounts, &[6], None);
    assert_eq!(pending, Processor::process_config(&REGISTRY, &before).map(Some));
    let pending = Processor::process(&REGISTRY, &mut accounts, &[1], None);
    assert_eq!(pending, Err(ProcessError::Custom(LibraryError::InvalidInstruction)));
    assert_eq!(accounts, before);
}

#[test]
fn end_to_end_from_counters_to_the_first_book() {
    // The counters are founded and start at 0.
    let mut counters = vec![slot(40, vec![]), slot(41, vec![]), signer(K1)];
    let pending = Processor::process(&REGISTRY, &mut counters, &[7], None).unwrap().unwrap();
    create(&mut counters, &pending);
    assert_eq!(pending.store(&mut counters), Ok(()));
    let user_counter = counters[0].clone();
    let book_counter = counters[1].clone();
    assert_eq!(Counter::try_from_slice(&user_counter.data), Some(Counter { counter: 0 }));
    assert_eq!(Counter::try_from_slice(&book_counter.data), Some(Counter { counter: 0 }));

    // K1 becomes user 1.
    let mut accounts = vec![slot(42, vec![]), signer(K1), user_counter];
    let pending = Processor::process(&REGISTRY, &mut accounts, &[0], None).unwrap().unwrap();
    assert_eq!(
        pending.new_accounts()[0].address,
        derive_address(SeedTag::UserAccount, Some(1), &REGISTRY).unwrap().0
    );
    create(&mut accounts, &pending);
    assert_eq!(pending.store(&mut accounts), Ok(()));
    assert_eq!(
        User::try_from_slice(&accounts[0].data),
        Some(User { user_no: 1, user_address: K1, book_no: 0, borrowed_at: 0, return_by: 0 })
    );
    assert_eq!(Counter::try_from_slice(&accounts[2].data), Some(Counter { counter: 1 }));

    // K1 founds the configuration and is its only authority.
    let mut accounts = vec![slot(43, vec![]), signer(K1)];
    let pending = Processor::process(&REGISTRY, &mut accounts, &[6], None).unwrap().unwrap();
    create(&mut accounts, &pending);
    assert_eq!(pending.store(&mut accounts), Ok(()));
    let config = accounts[0].clone();
    assert_eq!(Configuration::try_from_slice(&config.data), Some(Configuration::new(K1)));

    // The counter of books is at 0 and cannot go down: no book can be founded.
    let mut accounts = vec![slot(44, vec![]), signer(K1), book_counter, config.clone()];
    let before = accounts.clone();
    assert_eq!(
        Processor::process(&REGISTRY, &mut accounts, &[1], None),
        Err(ProcessError::Custom(LibraryError::ArithmeticError))
    );
    assert_eq!(accounts, before);
    assert_eq!(Counter::try_from_slice(&accounts[2].data), Some(Counter { counter: 0 }));

    // With the counter at 1 the first book gets the number 0.
    accounts[2].data = Counter { counter: 1 }.to_bytes();
    let pending = Processor::process(&REGISTRY, &mut accounts, &[1], None).unwrap().unwrap();
    create(&mut accounts, &pending);
    assert_eq!(pending.store(&mut accounts), Ok(()));
    assert_eq!(Book::try_from_slice(&accounts[0].data), Some(Book::new(0)));
    assert_eq!(Counter::try_from_slice(&accounts[2].data), Some(Counter { counter: 0 }));
    assert_eq!(
        pending.new_accounts()[0].address,
        derive_address(SeedTag::BookCounter, Some(0), &REGISTRY).unwrap().0
    );
}
