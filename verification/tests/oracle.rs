use oracle::address::AddressError;
use oracle::address::EthereumAddress;
use oracle::crypto::EcdsaSignature;
use oracle::pallet::Error;
use oracle::pallet::Event;
use oracle::pallet::Origin;
use oracle::pallet::Pallet;
use oracle::pallet::ValidityError;
use oracle::registry::Message;
use oracle::registry::MessageRegistry;

/// A fixed 256-byte message used across the signing tests.
fn sample_message() -> Message {
    let mut bytes = [0u8; 256];
    for (i, b) in bytes.iter_mut().enumerate() {
        *b = (i % 251) as u8;
    }
    Message::new(bytes)
}

/// Signs the `personal_sign` preimage of `(account, message)` with the given
/// 32-byte secret key, returning the signature and the signer's address.
fn sign_message(
    secret: [u8; 32],
    account: &[u8],
    message: &Message,
) -> (EcdsaSignature, EthereumAddress) {
    let sk = libsecp256k1::SecretKey::parse(&secret).unwrap();
    let preimage = Pallet::ethereum_signable_message(account, message.bytes());
    let digest = sp_io::hashing::keccak_256(&preimage);
    let (sig, rid) = libsecp256k1::sign(&libsecp256k1::Message::parse(&digest), &sk);
    let mut sig65 = [0u8; 65];
    sig65[..64].copy_from_slice(&sig.serialize());
    sig65[64] = rid.serialize();

    let pk = libsecp256k1::PublicKey::from_secret_key(&sk);
    let pk_bytes = pk.serialize();
    let h = sp_io::hashing::keccak_256(&pk_bytes[1..]);
    let mut addr = [0u8; 20];
    addr.copy_from_slice(&h[12..]);
    (EcdsaSignature(sig65), EthereumAddress::new(addr))
}

#[test]
fn address_format_exact() {
    let mut bytes = [0u8; 20];
    for (i, b) in bytes.iter_mut().enumerate() {
        *b = i as u8;
    }
    let addr = EthereumAddress::new(bytes);
    assert_eq!(addr.format(), "0x000102030405060708090a0b0c0d0e0f10111213");
}

#[test]
fn address_default_is_zero() {
    let addr = EthereumAddress::default();
    assert_eq!(addr, EthereumAddress::new([0u8; 20]));
    assert_eq!(addr.format(), format!("0x{}", "00".repeat(20)));
}

#[test]
fn address_roundtrip() {
    let mut bytes = [0u8; 20];
    for (i, b) in bytes.iter_mut().enumerate() {
        *b = (31 * i + 7) as u8;
    }
    let addr = EthereumAddress::new(bytes);
    let text = addr.format();
    assert_eq!(EthereumAddress::parse(&text), Ok(addr));
}

#[test]
fn address_parse_accepts_either_case_and_bare_hex() {
    let lower = EthereumAddress::parse("0xdeadbeef00000000000000000000000000000000").unwrap();
    let upper = EthereumAddress::parse("0xDEADBEEF00000000000000000000000000000000").unwrap();
    assert_eq!(lower, upper);
    let bare = EthereumAddress::parse("deadbeef00000000000000000000000000000000").unwrap();
    assert_eq!(lower, bare);
}

#[test]
fn address_parse_length_boundary() {
    let short = format!("0x{}", "ab".repeat(19));
    assert_eq!(
        EthereumAddress::parse(&short),
        Err(AddressError::InvalidAddressLength)
    );
    let long = format!("0x{}", "ab".repeat(21));
    assert_eq!(
        EthereumAddress::parse(&long),
        Err(AddressError::InvalidAddressLength)
    );
}

#[test]
fn address_parse_bad_digit() {
    let text = format!("0xgg{}", "00".repeat(19));
    assert_eq!(
        EthereumAddress::parse(&text),
        Err(AddressError::InvalidHexDigit)
    );
}

#[test]
fn preimage_exact() {
    let preimage = Pallet::ethereum_signable_message(b"hello", b"world");
    assert_eq!(
        preimage,
        b"\x19Ethereum Signed Message:\n10helloworld".to_vec()
    );
}

#[test]
fn preimage_empty_payload_renders_zero() {
    let preimage = Pallet::ethereum_signable_message(b"", b"");
    assert_eq!(preimage, b"\x19Ethereum Signed Message:\n0".to_vec());
}

#[test]
fn recover_known_key() {
    let account = vec![42u8; 32];
    let message = sample_message();
    let (signature, expected) = sign_message([0x11; 32], &account, &message);
    let recovered = Pallet::eth_recover(&signature, &account, message.bytes());
    assert_eq!(recovered, Some(expected));
}

#[test]
fn recover_is_deterministic() {
    let account = vec![42u8; 32];
    let message = sample_message();
    let (signature, _) = sign_message([0x11; 32], &account, &message);
    let first = Pallet::eth_recover(&signature, &account, message.bytes());
    let second = Pallet::eth_recover(&signature, &account, message.bytes());
    assert_eq!(first, second);
}

#[test]
fn recover_rejects_bad_recovery_id() {
    let account = vec![42u8; 32];
    let message = sample_message();
    let (mut signature, _) = sign_message([0x11; 32], &account, &message);
    signature.0[64] = 5;
    assert_eq!(
        Pallet::eth_recover(&signature, &account, message.bytes()),
        None
    );
}

#[test]
fn recover_rejects_garbage_scalars() {
    let account = vec![42u8; 32];
    let message = sample_message();
    let mut bytes = [0xff; 65];
    bytes[64] = 0;
    let signature = EcdsaSignature(bytes);
    assert_eq!(
        Pallet::eth_recover(&signature, &account, message.bytes()),
        None
    );
}

#[test]
fn verify_message_succeeds_then_rejects_replay() {
    let account = vec![7u8; 32];
    let message = sample_message();
    let (signature, _) = sign_message([0x23; 32], &account, &message);
    let mut pallet = Pallet::new();

    assert_eq!(pallet.message_state(&message), None);
    let r = pallet.verify_message(Origin::Unsigned, account.clone(), message, signature.clone());
    assert_eq!(r, Ok(()));
    assert_eq!(pallet.message_state(&message), Some(true));
    let log = pallet.event_log();
    assert_eq!(log.len(), 1);
    let Event::MessageVerified(ev_account, ev_message, ev_flag) = &log[0];
    assert_eq!(ev_account, &account);
    assert_eq!(ev_message, &message);
    assert!(ev_flag);

    // The same message is terminal, whatever account or signature comes with it.
    let r2 = pallet.verify_message(Origin::Unsigned, account.clone(), message, signature);
    assert_eq!(r2, Err(Error::MessageAlreadyVerified));
    let other_account = vec![9u8; 32];
    let (other_signature, _) = sign_message([0x37; 32], &other_account, &message);
    let r3 = pallet.verify_message(Origin::Unsigned, other_account, message, other_signature);
    assert_eq!(r3, Err(Error::MessageAlreadyVerified));
    assert_eq!(pallet.event_log().len(), 1);
}

#[test]
fn verify_message_requires_unsigned_origin() {
    let account = vec![7u8; 32];
    let message = sample_message();
    let (signature, _) = sign_message([0x23; 32], &account, &message);
    let mut pallet = Pallet::new();

    let r = pallet.verify_message(Origin::Root, account.clone(), message, signature.clone());
    assert_eq!(r, Err(Error::Unauthorized));
    let r2 = pallet.verify_message(
        Origin::Signed(account.clone()),
        account,
        message,
        signature,
    );
    assert_eq!(r2, Err(Error::Unauthorized));
    assert_eq!(pallet.message_state(&message), None);
    assert!(pallet.event_log().is_empty());
}

#[test]
fn verify_message_rejects_bad_signature_without_state_change() {
    let account = vec![7u8; 32];
    let message = sample_message();
    let mut pallet = Pallet::new();

    let r = pallet.verify_message(
        Origin::Unsigned,
        account.clone(),
        message,
        EcdsaSignature([0xff; 65]),
    );
    assert_eq!(r, Err(Error::InvalidSignature));
    assert_eq!(pallet.message_state(&message), None);
    assert!(pallet.event_log().is_empty());

    // A failed attempt may be retried with a corrected signature.
    let (signature, _) = sign_message([0x23; 32], &account, &message);
    let r2 = pallet.verify_message(Origin::Unsigned, account, message, signature);
    assert_eq!(r2, Ok(()));
}

#[test]
fn validate_unsigned_yields_ticket_and_mutates_nothing() {
    let account = vec![5u8; 32];
    let message = sample_message();
    let (signature, signer) = sign_message([0x29; 32], &account, &message);
    let pallet = Pallet::new();

    let ticket = pallet
        .validate_unsigned(&account, &message, &signature)
        .unwrap();
    assert_eq!(ticket.priority, 100);
    assert!(ticket.requires_tags.is_empty());
    let expected_tag = parity_scale_codec::Encode::encode(&("claims", *signer.bytes()));
    assert_eq!(ticket.provides, vec![expected_tag]);
    assert_eq!(ticket.longevity, u64::MAX);
    assert!(ticket.propagate);

    // Admission is repeatable: same snapshot, same decision, no mutation.
    let again = pallet
        .validate_unsigned(&account, &message, &signature)
        .unwrap();
    assert_eq!(again.priority, ticket.priority);
    assert_eq!(again.requires_tags, ticket.requires_tags);
    assert_eq!(again.provides, ticket.provides);
    assert_eq!(again.longevity, ticket.longevity);
    assert_eq!(again.propagate, ticket.propagate);
    assert_eq!(pallet.message_state(&message), None);
    assert!(pallet.event_log().is_empty());
}

#[test]
fn validate_unsigned_rejects_bad_signature() {
    let account = vec![5u8; 32];
    let message = sample_message();
    let pallet = Pallet::new();
    let r = pallet.validate_unsigned(&account, &message, &EcdsaSignature([0xff; 65]));
    assert_eq!(r.err(), Some(ValidityError::InvalidSignature));
}

#[test]
fn validate_unsigned_rejects_verified_message() {
    let account = vec![5u8; 32];
    let message = sample_message();
    let (signature, _) = sign_message([0x29; 32], &account, &message);
    let mut pallet = Pallet::new();
    pallet
        .verify_message(Origin::Unsigned, account.clone(), message, signature.clone())
        .unwrap();
    let r = pallet.validate_unsigned(&account, &message, &signature);
    assert_eq!(r.err(), Some(ValidityError::MessageAlreadyValidated));
}

#[test]
fn validity_error_codes() {
    assert_eq!(u8::from(ValidityError::InvalidSignature), 0);
    assert_eq!(u8::from(ValidityError::InvalidSigner), 1);
    assert_eq!(u8::from(ValidityError::MessageAlreadyValidated), 2);
}

#[test]
fn registry_tracks_exact_messages() {
    let mut registry = MessageRegistry::new();
    let message = sample_message();
    let mut other_bytes = [0u8; 256];
    other_bytes[255] = 1;
    let other = Message::new(other_bytes);

    assert!(!registry.is_verified(&message));
    registry.mark_verified(message);
    assert!(registry.is_verified(&message));
    assert!(!registry.is_verified(&other));
}

#[test]
fn message_equality_is_byte_wise() {
    let a = sample_message();
    let b = sample_message();
    assert_eq!(a, b);
    let mut bytes = [0u8; 256];
    bytes[0] = 1;
    assert_ne!(a, Message::new(bytes));
}

#[test]
fn signature_equality_is_byte_wise() {
    let a = EcdsaSignature([3u8; 65]);
    let b = EcdsaSignature([3u8; 65]);
    assert_eq!(a, b);
    let mut bytes = [3u8; 65];
    bytes[64] = 4;
    assert_ne!(a, EcdsaSignature(bytes));
}
