use voting_wallet::wallet::{message_digest, Wallet};

fn key_one() -> Vec<u8> {
    let mut secret = vec![0u8; 32];
    secret[31] = 1;
    secret
}

// The uncompressed encoding of the generator point, the public key of the
// secret key 1.
const GENERATOR_HEX: &str = "0479be667ef9dcbbac55a06295ce870b07029bfcdb2dce28d959f2815b16f81798483ada7726a3c4655da4fbfc0e1108a8fd17b448a68554199c47d08ffb10d4b8";

#[test]
fn secret_key_validity() {
    assert!(Wallet::from_secret_bytes(vec![0u8; 32]).is_none());
    assert!(Wallet::from_secret_bytes(vec![1u8; 31]).is_none());
    assert!(Wallet::from_secret_bytes(vec![1u8; 33]).is_none());
    assert!(Wallet::from_secret_bytes(key_one()).is_some());
    let order = hex::decode("fffffffffffffffffffffffffffffffebaaedce6af48a03bbfd25e8cd0364141").unwrap();
    assert!(Wallet::from_secret_bytes(order.clone()).is_none());
    let mut below_order = order;
    below_order[31] = 0x40;
    assert!(Wallet::from_secret_bytes(below_order).is_some());
}

#[test]
fn public_key_of_secret_one_is_the_generator() {
    let wallet = Wallet::from_secret_bytes(key_one()).unwrap();
    assert_eq!(wallet.public_key(), GENERATOR_HEX);
}

#[test]
fn random_wallet_has_uncompressed_public_key() {
    let wallet = Wallet::new().expect("Invalid private key");
    let public = wallet.public_key();
    assert_eq!(public.len(), 130);
    assert!(public.starts_with("04"));
    let signature = wallet.sign_message("hello");
    assert!(wallet.verify_message("hello", &signature));
}

#[test]
fn signed_message_verifies() {
    let wallet = Wallet::from_secret_bytes(vec![0x42u8; 32]).unwrap();
    let signature = wallet.sign_message("Hello world");
    assert!(wallet.verify_message("Hello world", &signature));
    assert!(!wallet.verify_message("Hello world!", &signature));
    assert!(signature.chars().all(|c| c.is_ascii_hexdigit() && !c.is_ascii_uppercase()));
    assert!(signature.starts_with("30"));
}

#[test]
fn signing_is_deterministic() {
    let wallet = Wallet::from_secret_bytes(key_one()).unwrap();
    assert_eq!(wallet.sign_message("abc"), wallet.sign_message("abc"));
    assert_ne!(wallet.sign_message("abc"), wallet.sign_message("abd"));
}

#[test]
fn signature_of_another_wallet_is_rejected() {
    let alice = Wallet::from_secret_bytes(vec![0x11u8; 32]).unwrap();
    let bob = Wallet::from_secret_bytes(vec![0x22u8; 32]).unwrap();
    let signature = alice.sign_message("pay 5");
    assert!(alice.verify_message("pay 5", &signature));
    assert!(!bob.verify_message("pay 5", &signature));
}

#[test]
fn malformed_signatures_are_rejected() {
    let wallet = Wallet::from_secret_bytes(key_one()).unwrap();
    let signature = wallet.sign_message("msg");
    // Odd length.
    assert!(!wallet.verify_message("msg", &signature[1..]));
    // Not hex.
    assert!(!wallet.verify_message("msg", "zz"));
    assert!(!wallet.verify_message("msg", ""));
    // Hex, but not DER.
    assert!(!wallet.verify_message("msg", "00ff"));
    assert!(!wallet.verify_message("msg", "00"));
    // Uppercase hex of the same signature is accepted.
    assert!(wallet.verify_message("msg", &signature.to_uppercase()));
}

#[test]
fn only_the_first_32_bytes_are_signed() {
    let wallet = Wallet::from_secret_bytes(key_one()).unwrap();
    let base = "0123456789abcdef0123456789abcdef";
    let signature = wallet.sign_message(&format!("{}tail one", base));
    assert!(wallet.verify_message(&format!("{}tail two", base), &signature));
    assert!(wallet.verify_message(base, &signature));
}

#[test]
fn digest_pads_and_truncates() {
    let mut expected = vec![0u8; 32];
    expected[..3].copy_from_slice(b"abc");
    assert_eq!(message_digest("abc"), expected);
    let long = "x".repeat(40);
    assert_eq!(message_digest(&long), vec![b'x'; 32]);
    assert_eq!(message_digest(""), vec![0u8; 32]);
    // Multi-byte characters count by their UTF-8 bytes.
    let mut expected = vec![0u8; 32];
    expected[..2].copy_from_slice("é".as_bytes());
    assert_eq!(message_digest("é"), expected);
}

#[test]
fn signature_text_shape() {
    for secret in [vec![0x42u8; 32], key_one(), vec![0x7fu8; 32]] {
        let wallet = Wallet::from_secret_bytes(secret).unwrap();
        for message in ["", "a", "a much longer message than thirty-two bytes in total"] {
            let signature = wallet.sign_message(message);
            assert!(signature.len() >= 16 && signature.len() <= 144);
            assert_eq!(signature.len() % 2, 0);
            assert!(signature.starts_with("30"));
            assert!(wallet.verify_message(message, &signature));
        }
    }
}
