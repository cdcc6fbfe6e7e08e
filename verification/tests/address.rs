use iota::crypto::{Kerl, Sponge};
use iota::ternary::{T1B1Buf, TryteBuf};
use iota_wallet::account::Account;
use iota_wallet::address::{
    checksum_from_hash, generate_checksum, is_unspent, Address, AddressBuilder, IotaAddress,
};
use iota_wallet::error::{ErrorKind, WalletError};
use iota_wallet::message::{Message, MessageId, Payload};

const ADDRESS_TRYTES: &str =
    "XUERGHWTYRTFUYKFKXURKHMFEVLOIFTTCNTXOGLDPCZ9CJLKHROOPGNAQYFJEPGK9OKUQROUECBAVNXRY";

fn create_account() -> Account {
    Account::new([7u8; 32], String::from("alias"))
}

fn create_address() -> IotaAddress {
    IotaAddress::try_from_trytes(ADDRESS_TRYTES).unwrap()
}

fn generate_transaction(value: i64, address: IotaAddress) -> Message {
    let mut message = Message::new(MessageId::new([0u8; 32]), Payload { address, value });
    message.set_broadcasted(true);
    message.set_confirmed(true);
    message
}

#[test]
fn is_unspent_false() {
    let account = create_account();
    let address = create_address();

    let response = is_unspent(&account, &address);
    assert_eq!(response, false);
}

#[test]
fn is_unspent_true() {
    let address = Address::new(create_address(), 0, 0, false);
    let spent_tx = generate_transaction(-50, *address.address());
    let account =
        Account::from_parts([7u8; 32], String::from("alias"), vec![], vec![spent_tx]).unwrap();

    let response = is_unspent(&account, address.address());
    assert_eq!(response, true);
}

#[test]
fn is_unspent_ignores_received_value_and_other_addresses() {
    let address = create_address();
    let received = generate_transaction(50, address);
    let account =
        Account::from_parts([7u8; 32], String::from("alias"), vec![], vec![received]).unwrap();
    assert!(!is_unspent(&account, &address));

    let mut spent_elsewhere = Message::new(
        MessageId::new([1u8; 32]),
        Payload { address: IotaAddress::zeros(), value: -1 },
    );
    spent_elsewhere.set_broadcasted(true);
    let account = Account::from_parts(
        [7u8; 32],
        String::from("alias"),
        vec![],
        vec![received, spent_elsewhere],
    )
    .unwrap();
    assert!(!is_unspent(&account, &address));
    assert!(is_unspent(&account, &IotaAddress::zeros()));
}

#[test]
fn builder_reports_the_first_missing_field() {
    let address = create_address();
    assert_eq!(AddressBuilder::new().build().unwrap_err(), WalletError::AddressRequired);
    assert_eq!(
        AddressBuilder::new().balance(1).key_index(0).build().unwrap_err(),
        WalletError::AddressRequired
    );
    assert_eq!(
        AddressBuilder::new().address(address).key_index(0).build().unwrap_err(),
        WalletError::BalanceRequired
    );
    assert_eq!(
        AddressBuilder::new().address(address).balance(3).build().unwrap_err(),
        WalletError::KeyIndexRequired
    );
    assert_eq!(AddressBuilder::new().address(address).build().unwrap_err(), WalletError::BalanceRequired);
}

#[test]
fn builder_builds_what_was_set() {
    let address = create_address();
    let built = AddressBuilder::new().address(address).balance(42).key_index(7).build().unwrap();
    assert_eq!(*built.address(), address);
    assert_eq!(*built.balance(), 42);
    assert_eq!(*built.key_index(), 7);
    assert_eq!(*built.checksum(), generate_checksum(&address));
    let again = AddressBuilder::new().key_index(7).balance(42).address(address).build().unwrap();
    assert_eq!(*again.balance(), 42);
    assert_eq!(*again.key_index(), 7);
    assert!(!*again.internal());
    let change =
        AddressBuilder::new().internal(true).key_index(7).balance(42).address(address).build();
    assert!(*change.unwrap().internal());
    assert!(*Address::new(address, 1, 2, true).internal());
    assert!(!*Address::new(address, 1, 2, false).internal());
}

#[test]
fn the_last_setting_of_a_builder_counts() {
    let built = AddressBuilder::new()
        .address(IotaAddress::zeros())
        .address(create_address())
        .balance(1)
        .balance(2)
        .key_index(3)
        .key_index(4)
        .build()
        .unwrap();
    assert_eq!(*built.address(), create_address());
    assert_eq!(*built.balance(), 2);
    assert_eq!(*built.key_index(), 4);
}

#[test]
fn addresses_are_equal_by_their_value_alone() {
    let one = Address::new(create_address(), 1, 0, false);
    let other = Address::new(create_address(), 99, 12, false);
    assert_eq!(one, other);
    let zeros = Address::new(IotaAddress::zeros(), 1, 0, false);
    assert_ne!(one, zeros);
}

#[test]
fn zeros_has_all_trits_zero() {
    let zeros = IotaAddress::zeros();
    assert_eq!(zeros.to_inner(), vec![0i8; 243]);
    assert_eq!(IotaAddress::try_from_trytes(&"9".repeat(81)).unwrap(), zeros);
}

#[test]
fn trytes_spell_three_trits_each_least_significant_first() {
    let mut trytes = String::from("AMNZ9BY");
    trytes.push_str(&"9".repeat(74));
    let address = IotaAddress::try_from_trytes(&trytes).unwrap();
    let trits = address.to_inner();
    assert_eq!(trits.len(), 243);
    // A = 1, M = 13, N = -13, Z = -1, 9 = 0, B = 2, Y = -2
    assert_eq!(
        &trits[..21],
        &[1, 0, 0, 1, 1, 1, -1, -1, -1, -1, 0, 0, 0, 0, 0, -1, 1, 0, 1, -1, 0]
    );
    assert!(trits[21..].iter().all(|t| *t == 0));
}

#[test]
fn trytes_agree_with_the_ternary_crate() {
    let address = create_address();
    let expected = TryteBuf::try_from_str(ADDRESS_TRYTES)
        .unwrap()
        .as_trits()
        .encode::<T1B1Buf>()
        .as_i8_slice()
        .to_vec();
    assert_eq!(address.to_inner(), expected);
}

#[test]
fn trytes_of_the_wrong_length_or_alphabet_are_refused() {
    assert!(IotaAddress::try_from_trytes("").is_none());
    assert!(IotaAddress::try_from_trytes(&"9".repeat(80)).is_none());
    assert!(IotaAddress::try_from_trytes(&"9".repeat(82)).is_none());
    assert!(IotaAddress::try_from_trytes(&"a".repeat(81)).is_none());
    assert!(IotaAddress::try_from_trytes(&"8".repeat(81)).is_none());
    let mut almost = "A".repeat(80);
    almost.push('-');
    assert!(IotaAddress::try_from_trytes(&almost).is_none());
}

#[test]
fn trits_are_checked() {
    assert!(IotaAddress::try_from_trits(&vec![0i8; 242]).is_none());
    assert!(IotaAddress::try_from_trits(&vec![0i8; 244]).is_none());
    let mut trits = vec![1i8; 243];
    assert_eq!(IotaAddress::try_from_trits(&trits).unwrap().to_inner(), trits);
    trits[242] = 2;
    assert!(IotaAddress::try_from_trits(&trits).is_none());
    trits[242] = -2;
    assert!(IotaAddress::try_from_trits(&trits).is_none());
    trits[242] = -1;
    assert_eq!(IotaAddress::try_from_trits(&trits).unwrap().to_inner(), trits);
}

#[test]
fn checksum_is_the_end_of_the_hash_backwards() {
    let mut hash = vec![0i8; 243];
    for (i, trit) in hash.iter_mut().enumerate() {
        *trit = (i % 3) as i8 - 1;
    }
    // positions 242, 241, .., 234 hold 1, 0, -1, 1, 0, -1, 1, 0, -1
    assert_eq!(checksum_from_hash(&hash), Some([1, 0, -1, 1, 0, -1, 1, 0, -1]));
    assert_eq!(
        checksum_from_hash(&vec![1, 0, 0, 0, 0, 0, 0, 0, -1]),
        Some([-1, 0, 0, 0, 0, 0, 0, 0, 1])
    );
    assert_eq!(checksum_from_hash(&vec![1, 0, 0, 0, 0, 0, 0, 0]), None);
    assert_eq!(checksum_from_hash(&vec![]), None);
}

#[test]
fn checksum_of_a_known_address() {
    // The Kerl hash of this input ends in the trytes A, Q and X.
    let address = IotaAddress::try_from_trytes(
        "EMIDYNHBWMBCXVDEFOFWINXTERALUKYYPPHKP9JJFGJEIUY9MUDVNFZHMMWZUYUSWAIOWEVTHNWMHANBH",
    )
    .unwrap();
    assert_eq!(generate_checksum(&address), [0, -1, 0, -1, 0, -1, 0, 0, 1]);
}

#[test]
fn checksum_agrees_with_the_hash_of_the_crate() {
    let address = create_address();
    let input = TryteBuf::try_from_str(ADDRESS_TRYTES).unwrap().as_trits().encode::<T1B1Buf>();
    let hash = Kerl::new().digest(&input).ok().unwrap().as_i8_slice().to_vec();
    assert_eq!(hash.len(), 243);
    let mut expected = [0i8; 9];
    for i in 0..9 {
        expected[i] = hash[242 - i];
    }
    assert_eq!(generate_checksum(&address), expected);
    assert_ne!(hash, address.to_inner());
}

#[test]
fn checksum_depends_on_the_address_value() {
    let one = Address::new(create_address(), 5, 1, false);
    let other = Address::new(create_address(), 6, 2, false);
    assert_eq!(one.checksum(), other.checksum());
    let zeros = Address::new(IotaAddress::zeros(), 5, 1, false);
    assert_ne!(one.checksum(), zeros.checksum());
}

#[test]
fn errors_have_their_kind() {
    assert_eq!(WalletError::AddressRequired.kind(), ErrorKind::Validation);
    assert_eq!(WalletError::BalanceRequired.kind(), ErrorKind::Validation);
    assert_eq!(WalletError::KeyIndexRequired.kind(), ErrorKind::Validation);
    assert_eq!(WalletError::AmountMustBePositive.kind(), ErrorKind::Validation);
    assert_eq!(WalletError::InvalidGapLimit.kind(), ErrorKind::Validation);
    assert_eq!(WalletError::InvalidAccount.kind(), ErrorKind::Validation);
    assert_eq!(WalletError::StaleDiscovery.kind(), ErrorKind::Validation);
    assert_eq!(WalletError::AccountMismatch.kind(), ErrorKind::Validation);
    assert_eq!(WalletError::InsufficientFunds.kind(), ErrorKind::InsufficientFunds);
    assert_eq!(WalletError::MessageNotFound.kind(), ErrorKind::NotFound);
    assert_eq!(WalletError::InvalidAmount.kind(), ErrorKind::Network);
    assert_eq!(WalletError::AmountOverflow.kind(), ErrorKind::Network);
    assert_eq!(WalletError::RemainderAddressUndefined.kind(), ErrorKind::Network);
    assert_eq!(WalletError::UnexpectedBatch.kind(), ErrorKind::Network);
    assert_eq!(WalletError::AddressSpaceExhausted.kind(), ErrorKind::Network);
}
