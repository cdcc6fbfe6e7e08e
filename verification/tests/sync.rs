use iota_wallet::account::sync::discovery::{AddressOutput, MAX_ROUNDS};
use iota_wallet::account::sync::{
    sync_transactions, AccountSynchronizer, AddressDiscovery, Batch, Discovered, DiscoveryStep,
    DEFAULT_GAP_LIMIT,
};
use iota_wallet::account::Account;
use iota_wallet::address::{generate_checksum, Address, IotaAddress};
use iota_wallet::error::WalletError;
use iota_wallet::message::{IotaMessage, Message, MessageId, Payload};

/// The address value whose first trits spell `n` in binary.
fn address_value(n: usize) -> IotaAddress {
    let mut trits = vec![0i8; 243];
    for bit in 0..32 {
        trits[bit] = ((n >> bit) & 1) as i8;
    }
    IotaAddress::try_from_trits(&trits).unwrap()
}

/// The addresses of the round that starts at `first`: public and internal.
fn derive(first: usize, count: usize) -> Vec<IotaAddress> {
    let mut addresses = vec![];
    for index in first..first + count {
        addresses.push(address_value(2 * index));
        addresses.push(address_value(2 * index + 1));
    }
    addresses
}

fn id(n: u8) -> MessageId {
    MessageId::new([n; 32])
}

fn ledger_message(n: u8, value: i64) -> IotaMessage {
    IotaMessage { id: id(n), payload: Payload { address: address_value(n as usize), value } }
}

fn quiet_batch(first: usize, count: usize) -> Batch {
    Batch { addresses: derive(first, count), messages: vec![], outputs: vec![] }
}

fn continued(step: DiscoveryStep) -> AddressDiscovery {
    match step {
        DiscoveryStep::Continue(scan) => scan,
        DiscoveryStep::Done(_) => panic!("the scan is over"),
    }
}

fn done(step: DiscoveryStep) -> Discovered {
    match step {
        DiscoveryStep::Done(found) => found,
        DiscoveryStep::Continue(_) => panic!("the scan goes on"),
    }
}

/// Runs a scan against a ledger that knows a balance for the public
/// address of every index below `used`.
fn scan(start: usize, gap_limit: usize, used: usize) -> Discovered {
    let mut scan = AddressDiscovery::new(start, gap_limit).unwrap();
    loop {
        let (first, count) = scan.window();
        let addresses = derive(first, count);
        let mut outputs = vec![];
        for (k, address) in addresses.iter().enumerate() {
            if k % 2 == 0 && first + k / 2 < used {
                outputs.push(AddressOutput { address: *address, amount: 10 });
            }
        }
        match scan.absorb(Batch { addresses, messages: vec![], outputs }).unwrap() {
            DiscoveryStep::Continue(next) => scan = next,
            DiscoveryStep::Done(found) => return found,
        }
    }
}

#[test]
fn account_sync() {
    let mut account = Account::new([1u8; 32], String::from("alias"));
    let synchronizer = AccountSynchronizer::new(&account);
    assert_eq!(synchronizer.address_index(), 0);
    assert!(synchronizer.persists());

    let scan = synchronizer.discover().unwrap();
    assert_eq!(scan.window(), (0, DEFAULT_GAP_LIMIT));
    let found = done(scan.absorb(quiet_batch(0, DEFAULT_GAP_LIMIT)).unwrap());
    let query = synchronizer.confirmation_query(&account, &found);
    assert!(query.is_empty());

    let synced = synchronizer.execute(&mut account, found, &vec![]).unwrap();
    assert_eq!(*synced.account_id(), [1u8; 32]);
    assert_eq!(account.addresses().len(), 40);
    assert_eq!(synced.deposit_address(), account.latest_address().unwrap());
    assert_eq!(*synced.deposit_address().address(), address_value(39));
    assert!(account.messages().is_empty());
}

#[test]
fn a_quiet_first_round_ends_the_scan() {
    let found = done(AddressDiscovery::new(0, 3).unwrap().absorb(quiet_batch(0, 3)).unwrap());
    assert_eq!(found.start_index(), 0);
    assert_eq!(found.gap_limit(), 3);
    assert_eq!(found.rounds(), 1);
    assert_eq!(found.addresses().len(), 6);
    assert!(found.messages().is_empty());
    for (k, address) in found.addresses().iter().enumerate() {
        assert_eq!(*address.key_index(), k / 2);
        assert_eq!(*address.balance(), 0);
        assert_eq!(*address.address(), address_value(k));
        assert_eq!(*address.checksum(), generate_checksum(&address_value(k)));
    }
}

#[test]
fn the_scan_goes_on_until_a_round_is_quiet() {
    for gap_limit in 1..6 {
        for used in 0..8 {
            let found = scan(0, gap_limit, used);
            let rounds = (used + gap_limit - 1) / gap_limit + 1;
            assert_eq!(found.rounds(), rounds);
            assert_eq!(found.addresses().len(), 2 * gap_limit * rounds);
            for (k, address) in found.addresses().iter().enumerate() {
                assert_eq!(*address.key_index(), k / 2);
                let expected = if k % 2 == 0 && k / 2 < used { 10 } else { 0 };
                assert_eq!(*address.balance(), expected);
            }
            let tail = &found.addresses()[found.addresses().len() - 2 * gap_limit..];
            assert!(tail.iter().all(|address| *address.balance() == 0));
        }
    }
}

#[test]
fn a_scan_can_start_anywhere() {
    let found = scan(5, 2, 6);
    assert_eq!(found.start_index(), 5);
    assert_eq!(found.rounds(), 2);
    assert_eq!(found.addresses().len(), 8);
    let indices: Vec<usize> = found.addresses().iter().map(|a| *a.key_index()).collect();
    assert_eq!(indices, vec![5, 5, 6, 6, 7, 7, 8, 8]);
    let balances: Vec<u64> = found.addresses().iter().map(|a| *a.balance()).collect();
    assert_eq!(balances, vec![10, 0, 0, 0, 0, 0, 0, 0]);
}

#[test]
fn messages_keep_the_scan_going_and_are_collected() {
    let scan = AddressDiscovery::new(0, 1).unwrap();
    let first = Batch {
        addresses: derive(0, 1),
        messages: vec![ledger_message(1, 5), ledger_message(2, -5)],
        outputs: vec![],
    };
    let scan = continued(scan.absorb(first).unwrap());
    assert_eq!(scan.window(), (1, 1));
    let second =
        Batch { addresses: derive(1, 1), messages: vec![ledger_message(3, 1)], outputs: vec![] };
    let scan = continued(scan.absorb(second).unwrap());
    assert_eq!(scan.window(), (2, 1));
    let found = done(scan.absorb(quiet_batch(2, 1)).unwrap());
    assert_eq!(found.rounds(), 3);
    assert_eq!(
        *found.messages(),
        vec![ledger_message(1, 5), ledger_message(2, -5), ledger_message(3, 1)]
    );
    assert!(found.addresses().iter().all(|address| *address.balance() == 0));
}

#[test]
fn a_balance_is_the_sum_of_the_outputs_of_the_address() {
    let addresses = derive(0, 1);
    let outputs = vec![
        AddressOutput { address: addresses[1], amount: 7 },
        AddressOutput { address: addresses[0], amount: 30 },
        AddressOutput { address: address_value(77), amount: 1000 },
        AddressOutput { address: addresses[1], amount: 5 },
    ];
    let scan = AddressDiscovery::new(0, 1).unwrap();
    let scan = continued(scan.absorb(Batch { addresses, messages: vec![], outputs }).unwrap());
    let found = done(scan.absorb(quiet_batch(1, 1)).unwrap());
    let balances: Vec<u64> = found.addresses().iter().map(|a| *a.balance()).collect();
    assert_eq!(balances, vec![30, 12, 0, 0]);
}

#[test]
fn outputs_of_other_addresses_do_not_keep_the_scan_going() {
    let outputs = vec![AddressOutput { address: address_value(77), amount: 1000 }];
    let batch = Batch { addresses: derive(0, 1), messages: vec![], outputs };
    let found = done(AddressDiscovery::new(0, 1).unwrap().absorb(batch).unwrap());
    assert_eq!(found.rounds(), 1);
}

#[test]
fn outputs_without_value_do_not_keep_the_scan_going() {
    let addresses = derive(0, 1);
    let outputs = vec![AddressOutput { address: addresses[0], amount: 0 }];
    let batch = Batch { addresses, messages: vec![], outputs };
    let found = done(AddressDiscovery::new(0, 1).unwrap().absorb(batch).unwrap());
    assert_eq!(found.rounds(), 1);
}

#[test]
fn a_gap_limit_of_zero_is_refused() {
    assert_eq!(AddressDiscovery::new(0, 0).unwrap_err(), WalletError::InvalidGapLimit);
    let account = Account::new([1u8; 32], String::from("alias"));
    let synchronizer = AccountSynchronizer::new(&account).gap_limit(0);
    assert_eq!(synchronizer.discover().unwrap_err(), WalletError::InvalidGapLimit);
}

#[test]
fn a_round_beyond_the_last_index_is_refused() {
    assert_eq!(AddressDiscovery::new(usize::MAX, 1).unwrap_err(), WalletError::AddressSpaceExhausted);
    assert_eq!(AddressDiscovery::new(1, usize::MAX).unwrap_err(), WalletError::AddressSpaceExhausted);
    assert!(AddressDiscovery::new(usize::MAX - 1, 1).is_ok());

    let scan = AddressDiscovery::new(usize::MAX - 1, 1).unwrap();
    let addresses = vec![address_value(0), address_value(1)];
    let outputs = vec![AddressOutput { address: addresses[0], amount: 1 }];
    let step = scan.absorb(Batch { addresses, messages: vec![], outputs });
    assert_eq!(step.unwrap_err(), WalletError::AddressSpaceExhausted);
}

#[test]
fn a_batch_of_the_wrong_size_is_refused() {
    let scan = AddressDiscovery::new(0, 2).unwrap();
    assert_eq!(scan.absorb(quiet_batch(0, 1)).unwrap_err(), WalletError::UnexpectedBatch);
    let scan = AddressDiscovery::new(0, 2).unwrap();
    assert_eq!(scan.absorb(quiet_batch(0, 3)).unwrap_err(), WalletError::UnexpectedBatch);
    let scan = AddressDiscovery::new(0, 2).unwrap();
    let mut odd = quiet_batch(0, 2);
    odd.addresses.pop();
    assert_eq!(scan.absorb(odd).unwrap_err(), WalletError::UnexpectedBatch);
}

#[test]
fn a_balance_beyond_64_bits_is_refused() {
    let addresses = derive(0, 1);
    let outputs = vec![
        AddressOutput { address: addresses[1], amount: u64::MAX },
        AddressOutput { address: addresses[1], amount: 1 },
    ];
    let scan = AddressDiscovery::new(0, 1).unwrap();
    let step = scan.absorb(Batch { addresses, messages: vec![], outputs });
    assert_eq!(step.unwrap_err(), WalletError::AmountOverflow);

    let addresses = derive(0, 1);
    let outputs = vec![
        AddressOutput { address: addresses[1], amount: u64::MAX - 1 },
        AddressOutput { address: addresses[1], amount: 1 },
    ];
    let scan = AddressDiscovery::new(0, 1).unwrap();
    let scan = continued(scan.absorb(Batch { addresses, messages: vec![], outputs }).unwrap());
    let found = done(scan.absorb(quiet_batch(1, 1)).unwrap());
    assert_eq!(*found.addresses()[1].balance(), u64::MAX);
}

#[test]
fn a_scan_without_end_is_given_up() {
    let mut scan = AddressDiscovery::new(0, 1).unwrap();
    let mut rounds = 0;
    let failure = loop {
        let (first, count) = scan.window();
        assert_eq!((first, count), (rounds, 1));
        let addresses = derive(first, count);
        let outputs = vec![AddressOutput { address: addresses[0], amount: 1 }];
        rounds += 1;
        match scan.absorb(Batch { addresses, messages: vec![], outputs }) {
            Ok(DiscoveryStep::Continue(next)) => scan = next,
            Ok(DiscoveryStep::Done(_)) => panic!("the ledger never was quiet"),
            Err(e) => break e,
        }
    };
    assert_eq!(failure, WalletError::AddressSpaceExhausted);
    assert_eq!(rounds, MAX_ROUNDS);
}

fn local(n: u8, broadcasted: bool, confirmed: bool) -> Message {
    let mut message =
        Message::new(id(n), Payload { address: address_value(n as usize), value: n as i64 });
    message.set_broadcasted(broadcasted);
    message.set_confirmed(confirmed);
    message
}

fn account_with(messages: Vec<Message>) -> Account {
    Account::from_parts([1u8; 32], String::from("alias"), vec![], messages).unwrap()
}

#[test]
fn sync_marks_discovered_messages_as_broadcasted() {
    let account = account_with(vec![local(1, false, false), local(2, false, false)]);
    let synced = sync_transactions(&account, &vec![id(2), id(9)], &vec![], &vec![]);
    assert_eq!(synced, vec![local(1, false, false), local(2, true, false)]);
}

#[test]
fn sync_marks_reported_messages_as_confirmed() {
    let account =
        account_with(vec![local(1, true, false), local(2, true, false), local(3, false, false)]);
    let states = vec![(id(1), true), (id(2), false), (id(8), true)];
    let synced = sync_transactions(&account, &vec![], &states, &vec![]);
    assert_eq!(synced, vec![local(1, true, true), local(2, true, false), local(3, false, false)]);
}

#[test]
fn sync_appends_the_discovered_messages_once() {
    let account = account_with(vec![local(1, false, false)]);
    let found = vec![
        ledger_message(4, 40),
        ledger_message(1, 10),
        ledger_message(5, 50),
        ledger_message(4, 40),
        ledger_message(6, 60),
    ];
    let ids = vec![id(4), id(1), id(5)];
    let states = vec![(id(5), true)];
    let synced = sync_transactions(&account, &ids, &states, &found);
    let mut fourth = Message::from_iota_message(&ledger_message(4, 40));
    fourth.set_confirmed(false);
    let mut fifth = Message::from_iota_message(&ledger_message(5, 50));
    fifth.set_confirmed(true);
    assert_eq!(synced, vec![local(1, true, false), fourth, fifth]);
    assert!(synced[1].broadcasted() && !synced[1].confirmed());
    assert!(synced[2].broadcasted() && synced[2].confirmed());
}

#[test]
fn sync_is_idempotent() {
    let account = account_with(vec![
        local(1, false, false),
        local(2, true, false),
        local(3, true, true),
    ]);
    let found = vec![ledger_message(4, 40), ledger_message(2, 20), ledger_message(5, 50)];
    let ids = vec![id(4), id(2), id(5)];
    let states = vec![(id(1), true), (id(5), true), (id(2), false)];
    let once = sync_transactions(&account, &ids, &states, &found);
    let again = sync_transactions(&account_with(once.clone()), &ids, &states, &found);
    assert_eq!(again, once);
    assert_eq!(once.len(), 5);
}

#[test]
fn sync_never_takes_a_flag_back() {
    let before = vec![local(1, true, true), local(2, true, false), local(3, false, true)];
    let account = account_with(before.clone());
    let states = vec![(id(1), false), (id(2), false), (id(3), false)];
    let after = sync_transactions(&account, &vec![], &states, &vec![]);
    assert_eq!(after, before);
    for (old, new) in before.iter().zip(after.iter()) {
        assert_eq!(old.message_id(), new.message_id());
        assert!(!old.broadcasted() || new.broadcasted());
        assert!(!old.confirmed() || new.confirmed());
    }
}

#[test]
fn flags_only_rise() {
    let mut message = local(1, false, false);
    message.set_broadcasted(true);
    message.set_broadcasted(false);
    assert!(message.broadcasted());
    message.set_confirmed(true);
    message.set_confirmed(false);
    assert!(message.confirmed());
}

#[test]
fn the_query_asks_for_unconfirmed_and_new_messages() {
    let account =
        account_with(vec![local(1, true, true), local(2, true, false), local(3, false, false)]);
    let scan = AddressDiscovery::new(0, 1).unwrap();
    let first = Batch {
        addresses: derive(0, 1),
        messages: vec![ledger_message(3, 3), ledger_message(7, 7), ledger_message(1, 1)],
        outputs: vec![],
    };
    let scan = continued(scan.absorb(first).unwrap());
    let found = done(scan.absorb(quiet_batch(1, 1)).unwrap());
    let synchronizer = AccountSynchronizer::new(&account);
    assert_eq!(synchronizer.confirmation_query(&account, &found), vec![id(2), id(3), id(7)]);
}

#[test]
fn execute_brings_the_account_up_to_date() {
    let mut account = account_with(vec![local(1, false, false), local(2, true, false)]);
    let synchronizer = AccountSynchronizer::new(&account).gap_limit(1);
    let scan = synchronizer.discover().unwrap();
    let addresses = derive(0, 1);
    let first = Batch {
        outputs: vec![AddressOutput { address: addresses[0], amount: 25 }],
        addresses,
        messages: vec![ledger_message(1, 1), ledger_message(9, 25)],
    };
    let scan = continued(scan.absorb(first).unwrap());
    let found = done(scan.absorb(quiet_batch(1, 1)).unwrap());
    let states = vec![(id(2), true), (id(9), true)];
    let synced = synchronizer.execute(&mut account, found, &states).unwrap();

    let mut ninth = Message::from_iota_message(&ledger_message(9, 25));
    ninth.set_confirmed(true);
    assert_eq!(*account.messages(), vec![local(1, true, false), local(2, true, true), ninth]);
    let balances: Vec<u64> = account.addresses().iter().map(|a| *a.balance()).collect();
    assert_eq!(balances, vec![25, 0, 0, 0]);
    assert_eq!(*synced.deposit_address().key_index(), 1);
    assert_eq!(*synced.deposit_address().address(), address_value(3));
    assert_eq!(*account.id(), [1u8; 32]);
    assert_eq!(account.alias(), "alias");
}

#[test]
fn a_second_sync_starts_from_the_latest_index() {
    let mut account = Account::new([1u8; 32], String::from("alias"));
    let synchronizer = AccountSynchronizer::new(&account).gap_limit(2);
    let found = scan(0, 2, 1);
    synchronizer.execute(&mut account, found, &vec![]).unwrap();
    assert_eq!(account.addresses().len(), 8);

    let synchronizer = AccountSynchronizer::new(&account).gap_limit(1).skip_persistance();
    assert_eq!(synchronizer.address_index(), 3);
    assert!(!synchronizer.persists());
    let found = scan(3, 1, 5);
    assert_eq!(found.rounds(), 3);
    synchronizer.execute(&mut account, found, &vec![]).unwrap();
    let indices: Vec<usize> = account.addresses().iter().map(|a| *a.key_index()).collect();
    assert_eq!(indices, vec![0, 0, 1, 1, 2, 2, 3, 3, 4, 4, 5, 5]);
    let balances: Vec<u64> = account.addresses().iter().map(|a| *a.balance()).collect();
    assert_eq!(balances, vec![10, 0, 0, 0, 0, 0, 10, 0, 10, 0, 0, 0]);

    // nothing has changed on the ledger: the next sync changes nothing
    let before: Vec<Address> = account.addresses().clone();
    let synchronizer = AccountSynchronizer::new(&account).gap_limit(1);
    assert_eq!(synchronizer.address_index(), 5);
    let found = scan(5, 1, 5);
    synchronizer.execute(&mut account, found, &vec![]).unwrap();
    assert_eq!(account.addresses().len(), before.len());
    for (old, new) in before.iter().zip(account.addresses().iter()) {
        assert_eq!(old.address(), new.address());
        assert_eq!(old.balance(), new.balance());
        assert_eq!(old.key_index(), new.key_index());
    }
}

#[test]
fn a_scan_for_another_state_of_the_account_is_refused() {
    let mut account = Account::new([1u8; 32], String::from("alias"));
    let synchronizer = AccountSynchronizer::new(&account);
    let found = scan(4, 1, 0);
    let refused = synchronizer.execute(&mut account, found, &vec![]);
    assert_eq!(refused.unwrap_err(), WalletError::StaleDiscovery);
    assert!(account.addresses().is_empty());

    let mut grown = Account::new([1u8; 32], String::from("alias"));
    AccountSynchronizer::new(&grown).execute(&mut grown, scan(0, 3, 0), &vec![]).unwrap();
    let late = AccountSynchronizer::new(&grown);
    assert_eq!(late.address_index(), 2);
    let found = scan(2, 1, 0);
    let refused = late.execute(&mut account, found, &vec![]);
    assert_eq!(refused.unwrap_err(), WalletError::StaleDiscovery);
}

#[test]
fn accounts_are_checked_when_they_are_put_together() {
    let zero = Address::new(address_value(0), 1, 0, false);
    let one = Address::new(address_value(1), 2, 0, true);
    let two = Address::new(address_value(2), 3, 1, false);
    let three = Address::new(address_value(3), 4, 1, true);
    let name = || String::from("alias");
    assert!(Account::from_parts([0u8; 32], name(), vec![zero, one, two, three], vec![]).is_ok());
    assert!(Account::from_parts([0u8; 32], name(), vec![zero], vec![]).is_ok());
    assert!(Account::from_parts([0u8; 32], name(), vec![three, zero, one], vec![]).is_ok());
    assert!(Account::from_parts([0u8; 32], name(), vec![one, three], vec![]).is_ok());
    let again = Address::new(address_value(9), 0, 1, false);
    assert_eq!(
        Account::from_parts([0u8; 32], name(), vec![zero, two, again], vec![]).unwrap_err(),
        WalletError::InvalidAccount
    );
    let copy = Address::new(address_value(0), 1, 0, false);
    assert_eq!(
        Account::from_parts([0u8; 32], name(), vec![zero, copy], vec![]).unwrap_err(),
        WalletError::InvalidAccount
    );
    let twice = vec![local(1, false, false), local(2, false, false), local(1, true, true)];
    assert_eq!(
        Account::from_parts([0u8; 32], name(), vec![], twice).unwrap_err(),
        WalletError::InvalidAccount
    );
}

#[test]
fn a_sync_keeps_the_addresses_below_its_first_index() {
    let above = Address::new(address_value(90), 7, 2, true);
    let below = Address::new(address_value(91), 8, 0, false);
    let latest = Address::new(address_value(92), 9, 2, false);
    let mut account =
        Account::from_parts([1u8; 32], String::from("alias"), vec![above, below, latest], vec![])
            .unwrap();
    let synchronizer = AccountSynchronizer::new(&account).gap_limit(1);
    assert_eq!(synchronizer.address_index(), 2);
    let found = scan(2, 1, 0);
    let synced = synchronizer.execute(&mut account, found, &vec![]).unwrap();
    let slots: Vec<(usize, bool)> =
        account.addresses().iter().map(|a| (*a.key_index(), *a.internal())).collect();
    assert_eq!(slots, vec![(0, false), (2, false), (2, true)]);
    assert_eq!(*account.addresses()[0].balance(), 8);
    assert_eq!(*account.addresses()[1].address(), address_value(4));
    assert_eq!(*synced.deposit_address().address(), address_value(5));
}

#[test]
fn a_scan_finds_a_public_and_an_internal_address_for_each_index() {
    let found = scan(3, 2, 4);
    let slots: Vec<(usize, bool)> =
        found.addresses().iter().map(|a| (*a.key_index(), *a.internal())).collect();
    assert_eq!(
        slots,
        vec![
            (3, false),
            (3, true),
            (4, false),
            (4, true),
            (5, false),
            (5, true),
            (6, false),
            (6, true)
        ]
    );
}
