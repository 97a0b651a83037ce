use hello_world_string::{
    decode_or_default, init_greeting_account, Account, GreetingAccount, Pubkey, RecordError,
    WriteError,
};

fn greeting(text: &str) -> GreetingAccount {
    GreetingAccount { name: String::from(text) }
}

#[test]
fn placeholder_is_forty_five_zero_digits() {
    let record = init_greeting_account();
    assert_eq!(record.name, "000000000000000000000000000000000000000000000");
    assert_eq!(record.name.len(), 45);
    assert!(record.name.chars().all(|c| c == '0'));
}

#[test]
fn encoding_is_prefix_then_text() {
    assert_eq!(greeting("abc").try_to_vec().unwrap(), vec![3, 0, 0, 0, b'a', b'b', b'c']);
    assert_eq!(greeting("").try_to_vec().unwrap(), vec![0, 0, 0, 0]);
}

#[test]
fn prefix_counts_bytes_not_characters() {
    assert_eq!(greeting("é").try_to_vec().unwrap(), vec![2, 0, 0, 0, 0xc3, 0xa9]);
}

#[test]
fn prefix_is_little_endian() {
    let text = "x".repeat(300);
    let bytes = greeting(&text).try_to_vec().unwrap();
    assert_eq!(bytes.len(), 304);
    assert_eq!(&bytes[..4], &[44, 1, 0, 0]);
    let long = "y".repeat(70000);
    let bytes = greeting(&long).try_to_vec().unwrap();
    assert_eq!(&bytes[..4], &[0x70, 0x11, 0x01, 0x00]);
}

#[test]
fn placeholder_encodes_to_forty_nine_bytes() {
    let bytes = init_greeting_account().try_to_vec().unwrap();
    assert_eq!(bytes.len(), 49);
    assert_eq!(&bytes[..4], &[45, 0, 0, 0]);
    assert!(bytes[4..].iter().all(|b| *b == b'0'));
}

#[test]
fn decode_after_encode_gives_the_record_back() {
    for text in ["", "a", "hello world", "é€😀", "000000000000000000000000000000000000000000000"] {
        let record = greeting(text);
        let bytes = record.try_to_vec().unwrap();
        assert_eq!(GreetingAccount::try_from_slice(&bytes).unwrap(), record);
    }
}

#[test]
fn encode_after_decode_gives_the_bytes_back() {
    let bytes = vec![4, 0, 0, 0, b'r', b'u', b's', b't'];
    let record = GreetingAccount::try_from_slice(&bytes).unwrap();
    assert_eq!(record.name, "rust");
    assert_eq!(record.try_to_vec().unwrap(), bytes);
}

#[test]
fn decode_refuses_malformed_bytes() {
    let malformed = Err(RecordError::Malformed);
    assert_eq!(GreetingAccount::try_from_slice(&[]), malformed);
    assert_eq!(GreetingAccount::try_from_slice(&[1, 0, 0]), malformed);
    assert_eq!(GreetingAccount::try_from_slice(&[2, 0, 0, 0, b'a']), malformed);
    assert_eq!(GreetingAccount::try_from_slice(&[1, 0, 0, 0, b'a', b'b']), malformed);
    assert_eq!(GreetingAccount::try_from_slice(&[1, 0, 0, 0, 0x80]), malformed);
    assert_eq!(GreetingAccount::try_from_slice(&[3, 0, 0, 0, 0xed, 0xa0, 0x80]), malformed);
    assert_eq!(GreetingAccount::try_from_slice(&[2, 0, 0, 0, 0xc0, 0x80]), malformed);
    assert_eq!(GreetingAccount::try_from_slice(&[0xff, 0xff, 0xff, 0xff]), malformed);
}

#[test]
fn decode_or_default_reads_what_is_readable() {
    assert_eq!(decode_or_default(&[2, 0, 0, 0, b'o', b'k']).name, "ok");
}

#[test]
fn decode_or_default_falls_back_to_the_placeholder() {
    let placeholder = init_greeting_account();
    assert_eq!(decode_or_default(&[]), placeholder);
    assert_eq!(decode_or_default(&[7, 7]), placeholder);
    assert_eq!(decode_or_default(&[9, 0, 0, 0, b'x']), placeholder);
    assert_eq!(decode_or_default(&[1, 0, 0, 0, 0xff]), placeholder);
}

#[test]
fn default_identity_is_all_zero() {
    assert_eq!(Pubkey::default().bytes, [0u8; 32]);
    assert_eq!(Pubkey::default(), Pubkey { bytes: [0u8; 32] });
}

#[test]
fn identities_compare_byte_by_byte() {
    let a = Pubkey { bytes: [5u8; 32] };
    let mut bytes = [5u8; 32];
    assert_eq!(a, Pubkey { bytes });
    bytes[0] = 6;
    assert_ne!(a, Pubkey { bytes });
    bytes[0] = 5;
    bytes[17] = 0;
    assert_ne!(a, Pubkey { bytes });
}

#[test]
fn write_bytes_lays_bytes_over_the_storage() {
    let mut account =
        Account { owner: Pubkey::default(), data: vec![1, 2, 3, 4, 5], is_writable: true };
    assert_eq!(account.write_bytes(1, &[9, 8]), Ok(()));
    assert_eq!(account.data, vec![1, 9, 8, 4, 5]);
    assert_eq!(account.write_bytes(3, &[7, 6]), Ok(()));
    assert_eq!(account.data, vec![1, 9, 8, 7, 6]);
    assert_eq!(account.write_bytes(5, &[]), Ok(()));
    assert_eq!(account.data, vec![1, 9, 8, 7, 6]);
}

#[test]
fn write_bytes_refuses_what_does_not_fit() {
    let before = Account { owner: Pubkey::default(), data: vec![1, 2, 3], is_writable: false };
    let mut account = before.clone();
    assert_eq!(account.write_bytes(2, &[9, 9]), Err(WriteError::OutOfCapacity));
    assert_eq!(account, before);
    assert_eq!(account.write_bytes(4, &[]), Err(WriteError::OutOfCapacity));
    assert_eq!(account, before);
    assert_eq!(account.write_bytes(usize::MAX, &[1, 2]), Err(WriteError::OutOfCapacity));
    assert_eq!(account, before);
}
