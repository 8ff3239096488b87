//! A key wallet: one secp256k1 key pair that signs messages and checks
//! signatures, both given as lowercase hex of DER encodings.

use vstd::prelude::*;
use vstd::utf8::*;
use vstd::string::StringSliceAdditionalSpecFns;
use rand::RngCore;
use crate::hex_codec::{hex_decode, hex_encode, is_lower_hex, lemma_hex_encode_shape, lemma_hex_round_trip, spec_hex_decode, spec_hex_encode};

verus! {

/// The order of the secp256k1 group.
pub open spec fn curve_order() -> nat {
    0xFFFFFFFFFFFFFFFFFFFFFFFFFFFFFFFEBAAEDCE6AF48A03BBFD25E8CD0364141nat
}

/// The number that bytes stand for, most significant byte first.
pub open spec fn big_endian_value(bytes: Seq<u8>) -> nat
    decreases bytes.len(),
{
    if bytes.len() == 0 {
        0
    } else {
        big_endian_value(bytes.drop_last()) * 256 + bytes.last() as nat
    }
}

/// A secret key is 32 bytes whose value is neither zero nor at least the
/// group order.
pub open spec fn valid_secret_key(bytes: Seq<u8>) -> bool {
    &&& bytes.len() == 32
    &&& 0 < big_endian_value(bytes) < curve_order()
}

/// The 32 bytes that are signed for a message: its first 32 bytes, padded
/// with zeros when it is shorter.
pub open spec fn spec_message_digest(message: Seq<u8>) -> Seq<u8> {
    Seq::new(32, |i: int| if i < message.len() { message[i] } else { 0u8 })
}

/// The uncompressed serialization of the public key of a secret key.
pub uninterp spec fn spec_public_key(secret: Seq<u8>) -> Seq<u8>;

/// The DER encoding of the ECDSA signature (RFC 6979 nonce) of a digest
/// under a secret key.
pub uninterp spec fn spec_sign_der(secret: Seq<u8>, digest: Seq<u8>) -> Seq<u8>;

/// Whether bytes parse as a DER-encoded ECDSA signature.
pub uninterp spec fn spec_der_signature(bytes: Seq<u8>) -> bool;

/// Whether a DER-encoded signature is a valid ECDSA signature of a digest
/// for a serialized public key.
pub uninterp spec fn spec_ecdsa_verify(digest: Seq<u8>, signature_der: Seq<u8>, public: Seq<u8>) -> bool;

/// Calls `rand::thread_rng().fill_bytes` on 32 bytes. Claimed of it: only
/// the length of the result; the bytes are random.
#[verifier::external_body]
fn random_secret_bytes() -> (bytes: Vec<u8>)
    ensures
        bytes@.len() == 32,
{
    let mut bytes = [0u8; 32];
    rand::thread_rng().fill_bytes(&mut bytes);
    bytes.to_vec()
}

/// Calls `secp256k1::SecretKey::from_slice` and tells whether it succeeds.
/// Claimed of it: it succeeds exactly on 32 bytes whose value is not zero
/// and below the group order, as `secp256k1_ec_seckey_verify` documents.
#[verifier::external_body]
fn secret_key_is_valid(bytes: &[u8]) -> (valid: bool)
    ensures
        valid == valid_secret_key(bytes@),
{
    secp256k1::SecretKey::from_slice(bytes).is_ok()
}

/// Calls `secp256k1::PublicKey::from_secret_key` on the key that the bytes
/// hold and serializes the result with `serialize_uncompressed`. Claimed of
/// it: the result is a function of the secret (named `spec_public_key`), is
/// 65 bytes long and starts with the SEC1 uncompressed tag `0x04`, which
/// `secp256k1_eckey_pubkey_serialize` writes first.
#[verifier::external_body]
fn derive_public_key(secret: &[u8]) -> (public: Vec<u8>)
    requires
        valid_secret_key(secret@),
    ensures
        public@ == spec_public_key(secret@),
        public@.len() == 65,
        public@[0] == 4,
{
    let secp = secp256k1::Secp256k1::new();
    let secret_key = secp256k1::SecretKey::from_slice(secret).unwrap();
    secp256k1::PublicKey::from_secret_key(&secp, &secret_key).serialize_uncompressed().to_vec()
}

/// Calls `secp256k1::Secp256k1::sign_ecdsa` on the 32-byte digest and the
/// secret key, and serializes the signature with `serialize_der`. Claimed of
/// it: the result is a function of secret and digest (named
/// `spec_sign_der`, the nonce being RFC 6979), it parses back as a DER
/// signature, and it verifies for the digest under the secret's public key,
/// as the crate documents for `verify_ecdsa` of a `sign_ecdsa` result. It is
/// a DER sequence (first byte `0x30`) of `6 + lenR + lenS` bytes with both
/// integer lengths between 1 and 33, as `secp256k1_ecdsa_sig_serialize`
/// writes it, so 8 to 72 bytes.
#[verifier::external_body]
fn ecdsa_sign_der(secret: &[u8], digest: &[u8]) -> (signature: Vec<u8>)
    requires
        valid_secret_key(secret@),
        digest@.len() == 32,
    ensures
        signature@ == spec_sign_der(secret@, digest@),
        8 <= signature@.len() <= 72,
        signature@[0] == 0x30,
        spec_der_signature(signature@),
        spec_ecdsa_verify(digest@, signature@, spec_public_key(secret@)),
{
    let secp = secp256k1::Secp256k1::new();
    let secret_key = secp256k1::SecretKey::from_slice(secret).unwrap();
    let message = secp256k1::Message::from_slice(digest).unwrap();
    secp.sign_ecdsa(&message, &secret_key).serialize_der().to_vec()
}

/// Calls `secp256k1::ecdsa::Signature::from_der` and tells whether it
/// succeeds. Claimed of it: a function of the bytes, named
/// `spec_der_signature`, that fails on empty input and on input whose first
/// byte is not the DER sequence tag `0x30` (`from_der` and
/// `secp256k1_ecdsa_sig_parse` check both first).
#[verifier::external_body]
fn der_signature_is_valid(bytes: &[u8]) -> (valid: bool)
    ensures
        valid == spec_der_signature(bytes@),
        valid ==> bytes@.len() > 0 && bytes@[0] == 0x30,
{
    secp256k1::ecdsa::Signature::from_der(bytes).is_ok()
}

/// Calls `secp256k1::Secp256k1::verify_ecdsa` on the digest, the parsed
/// DER signature and the parsed public key, and tells whether it succeeds.
/// Claimed of it: a function of the three byte strings, named
/// `spec_ecdsa_verify`. The signature must parse and the key must be a
/// derived public key, so that the conversions succeed.
#[verifier::external_body]
fn ecdsa_verify(digest: &[u8], signature_der: &[u8], public: &[u8]) -> (valid: bool)
    requires
        digest@.len() == 32,
        spec_der_signature(signature_der@),
        exists|secret: Seq<u8>| valid_secret_key(secret) && public@ == spec_public_key(secret),
    ensures
        valid == spec_ecdsa_verify(digest@, signature_der@, public@),
{
    let secp = secp256k1::Secp256k1::new();
    let message = secp256k1::Message::from_slice(digest).unwrap();
    let signature = secp256k1::ecdsa::Signature::from_der(signature_der).unwrap();
    let public_key = secp256k1::PublicKey::from_slice(public).unwrap();
    secp.verify_ecdsa(&message, &signature, &public_key).is_ok()
}

/// The 32 bytes signed for `message`: its first 32 bytes, zero-padded.
pub fn message_digest(message: &str) -> (digest: Vec<u8>)
    ensures
        digest@ == spec_message_digest(message.spec_bytes()),
{
    let input = message.as_bytes();
    let mut digest: Vec<u8> = Vec::new();
    let mut i: usize = 0;
    while i < 32
        invariant
            i <= 32,
            input@ == message.spec_bytes(),
            digest@.len() == i,
            forall|j: int| 0 <= j < i ==> #[trigger] digest@[j] == spec_message_digest(input@)[j],
        decreases 32 - i,
    {
        if i < input.len() {
            digest.push(input[i]);
        } else {
            digest.push(0u8);
        }
        i = i + 1;
    }
    assert(digest@ =~= spec_message_digest(input@));
    digest
}

/// A key pair: a secret key and its serialized public key.
pub struct Wallet {
    secret_key: Vec<u8>,
    public_key: Vec<u8>,
}

impl Wallet {
    /// The wallet's secret key.
    pub closed spec fn secret(&self) -> Seq<u8> {
        self.secret_key@
    }

    /// The wallet's public key, uncompressed.
    pub closed spec fn public(&self) -> Seq<u8> {
        self.public_key@
    }

    /// The secret key is valid and the public key is derived from it; the
    /// public key is 65 bytes and starts with the uncompressed tag `0x04`.
    pub open spec fn inv(&self) -> bool {
        &&& valid_secret_key(self.secret())
        &&& self.public() == spec_public_key(self.secret())
        &&& self.public().len() == 65
        &&& self.public()[0] == 4
    }

    /// Whether `signature_hex` is, as hex of a DER signature, a valid
    /// signature of the digest of `message` under this wallet's public key.
    pub open spec fn verify_result(&self, message: Seq<u8>, signature_hex: Seq<u8>) -> bool {
        match spec_hex_decode(signature_hex) {
            Some(signature) => signature.len() > 0 && signature[0] == 0x30 && spec_der_signature(
                signature,
            ) && spec_ecdsa_verify(
                spec_message_digest(message),
                signature,
                self.public(),
            ),
            None => false,
        }
    }

    /// The wallet of a secret key, if the bytes are a valid secret key.
    pub fn from_secret_bytes(secret: Vec<u8>) -> (wallet: Option<Wallet>)
        ensures
            wallet is Some <==> valid_secret_key(secret@),
            wallet matches Some(w) ==> w.inv() && w.secret() == secret@,
    {
        if !secret_key_is_valid(secret.as_slice()) {
            return None;
        }
        let public_key = derive_public_key(secret.as_slice());
        Some(Wallet { secret_key: secret, public_key })
    }

    /// A wallet with a fresh random secret key; `None` in the rare case that
    /// the random bytes are not a valid secret key.
    pub fn new() -> (wallet: Option<Wallet>)
        ensures
            wallet matches Some(w) ==> w.inv(),
    {
        let secret = random_secret_bytes();
        Wallet::from_secret_bytes(secret)
    }

    /// The public key as lowercase hex of its uncompressed serialization:
    /// 130 characters starting with `04`.
    pub fn public_key(&self) -> (text: String)
        requires
            self.inv(),
        ensures
            text@ == spec_hex_encode(self.public()),
            text@.len() == 130,
            text@[0] == '0' && text@[1] == '4',
            is_lower_hex(text@),
    {
        let text = hex_encode(self.public_key.as_slice());
        proof {
            lemma_hex_encode_shape(self.public());
        }
        text
    }

    /// Signs `message` (its first 32 bytes, zero-padded) and returns the
    /// signature as lowercase hex of its DER encoding. The signature
    /// verifies with this wallet.
    pub fn sign_message(&self, message: &str) -> (signature_hex: String)
        requires
            self.inv(),
        ensures
            signature_hex@ == spec_hex_encode(
                spec_sign_der(self.secret(), spec_message_digest(message.spec_bytes())),
            ),
            self.verify_result(message.spec_bytes(), encode_utf8(signature_hex@)),
            16 <= signature_hex@.len() <= 144,
            signature_hex@.len() % 2 == 0,
            signature_hex@[0] == '3' && signature_hex@[1] == '0',
            is_lower_hex(signature_hex@),
    {
        let digest = message_digest(message);
        let signature = ecdsa_sign_der(self.secret_key.as_slice(), digest.as_slice());
        let text = hex_encode(signature.as_slice());
        proof {
            lemma_hex_round_trip(signature@);
            lemma_hex_encode_shape(signature@);
        }
        text
    }

    /// Whether `signature_hex` is lowercase or uppercase hex of a DER
    /// signature of `message` (its first 32 bytes, zero-padded) under this
    /// wallet's public key; malformed hex or DER gives `false`.
    pub fn verify_message(&self, message: &str, signature_hex: &str) -> (valid: bool)
        requires
            self.inv(),
        ensures
            valid == self.verify_result(message.spec_bytes(), signature_hex.spec_bytes()),
    {
        let signature = match hex_decode(signature_hex.as_bytes()) {
            Some(bytes) => bytes,
            None => return false,
        };
        if !der_signature_is_valid(signature.as_slice()) {
            return false;
        }
        let digest = message_digest(message);
        proof {
            assert(valid_secret_key(self.secret()) && self.public() == spec_public_key(self.secret()));
        }
        ecdsa_verify(digest.as_slice(), signature.as_slice(), self.public_key.as_slice())
    }
}

/// The digest signed for a message is the message's first 32 bytes, in
/// order, followed by zeros when the message is shorter.
pub proof fn digest_is_message_prefix(message: Seq<u8>)
    ensures
        spec_message_digest(message).len() == 32,
        forall|i: int|
            0 <= i < 32 && i < message.len() ==> #[trigger] spec_message_digest(message)[i] == message[i],
        forall|i: int| message.len() <= i < 32 ==> #[trigger] spec_message_digest(message)[i] == 0,
        message.len() >= 32 ==> spec_message_digest(message) == message.subrange(0, 32),
{
    if message.len() >= 32 {
        assert(spec_message_digest(message) =~= message.subrange(0, 32));
    }
}

/// Messages of at least 32 bytes that agree on their first 32 bytes are
/// signed as the same digest.
pub proof fn same_prefix_same_digest(m1: Seq<u8>, m2: Seq<u8>)
    requires
        m1.len() >= 32 && m2.len() >= 32 && m1.subrange(0, 32) == m2.subrange(0, 32),
    ensures
        spec_message_digest(m1) == spec_message_digest(m2),
{
    assert forall|i: int| 0 <= i < 32 implies spec_message_digest(m1)[i] == spec_message_digest(m2)[i] by {
        assert(m1.subrange(0, 32)[i] == m2.subrange(0, 32)[i]);
        assert(m1.subrange(0, 32)[i] == m1[i]);
        assert(m2.subrange(0, 32)[i] == m2[i]);
        digest_is_message_prefix(m1);
        digest_is_message_prefix(m2);
        assert(spec_message_digest(m1)[i] == m1[i]);
    }
    assert(spec_message_digest(m1) =~= spec_message_digest(m2));
}

/// A wallet accepts a signature for a message exactly when the text is hex
/// of a DER signature (sequence tag first) that is a valid ECDSA signature
/// of the digest of that very message under the wallet's public key.
pub proof fn verify_accepts_exactly_valid_signatures(w: Wallet, message: Seq<u8>, signature_hex: Seq<u8>)
    ensures
        w.verify_result(message, signature_hex) ==> spec_hex_decode(signature_hex) is Some
            && spec_der_signature(spec_hex_decode(signature_hex)->Some_0) && spec_ecdsa_verify(
            spec_message_digest(message),
            spec_hex_decode(signature_hex)->Some_0,
            w.public(),
        ),
        (spec_hex_decode(signature_hex) matches Some(signature) && signature.len() > 0 && signature[0]
            == 0x30 && spec_der_signature(signature) && spec_ecdsa_verify(
            spec_message_digest(message),
            signature,
            w.public(),
        )) ==> w.verify_result(message, signature_hex),
        spec_hex_decode(signature_hex) is None ==> !w.verify_result(message, signature_hex),
{
}

} // verus!
