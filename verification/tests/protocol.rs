//! End-to-end protocol behaviour: signing, verification, recovery,
//! normalization, parsing and the error paths.

use recoverable_ecdsa::curve::AffinePoint;
use recoverable_ecdsa::hash::keccak256;
use recoverable_ecdsa::recoverable;
use recoverable_ecdsa::scalar::{NonZeroScalar, Scalar};
use recoverable_ecdsa::signature::Signature;
use recoverable_ecdsa::signer::Signer;
use recoverable_ecdsa::verify::Verifier;
use recoverable_ecdsa::Error;
use sha2::{Digest, Sha256};

fn hx(s: &str) -> Vec<u8> {
    let clean: String = s.chars().filter(|c| !c.is_whitespace()).collect();
    (0..clean.len() / 2)
        .map(|i| u8::from_str_radix(&clean[2 * i..2 * i + 2], 16).unwrap())
        .collect()
}

fn test_signer() -> Signer {
    let mut key = [0u8; 32];
    key[31] = 0x2a;
    key[0] = 0x1f;
    Signer::new(&key).unwrap()
}

fn test_digest(label: &str) -> [u8; 32] {
    Sha256::digest(label.as_bytes()).into()
}

#[test]
fn sign_then_verify_succeeds() {
    let signer = test_signer();
    let digest = test_digest("a message digest");
    let sig = signer.sign(&digest).unwrap();
    let verifier = Verifier::new(&signer.verify_key().unwrap());
    assert_eq!(verifier.verify_digest(&digest, &sig), Ok(()));
}

#[test]
fn sign_recoverable_then_recover_returns_public_key() {
    let signer = test_signer();
    let digest = test_digest("another digest");
    let rsig = signer.sign_recoverable(&digest).unwrap();
    let recovered = rsig.recover_verify_key_from_digest(&digest).unwrap();
    let expected = signer.verify_key().unwrap();
    assert_eq!(recovered.to_compressed(), expected.to_compressed());
    let verifier = Verifier::new(&expected);
    assert_eq!(verifier.verify_digest_recoverable(&digest, &rsig), Ok(()));
}

#[test]
fn sign_message_then_recover_and_verify() {
    let signer = test_signer();
    let msg = b"ECDSA proves knowledge of a secret number";
    let rsig = signer.sign_message(msg).unwrap();
    let recovered = rsig.recover_verify_key(msg).unwrap();
    let expected = signer.verify_key().unwrap();
    assert_eq!(recovered.to_compressed(), expected.to_compressed());
    let verifier = Verifier::new(&expected);
    assert_eq!(verifier.verify_message(msg, &rsig), Ok(()));
}

#[test]
fn normalize_low_s_is_identity_and_idempotent() {
    let signer = test_signer();
    let digest = test_digest("normalize me");
    let sig = signer.sign(&digest).unwrap();
    let mut once = sig;
    assert!(!once.normalize_s());
    assert_eq!(once, sig);
    let high = high_s_counterpart(&sig);
    let mut normalized = high;
    assert!(normalized.normalize_s());
    assert_eq!(normalized, sig);
    let mut twice = normalized;
    assert!(!twice.normalize_s());
    assert_eq!(twice, normalized);
}

fn high_s_counterpart(sig: &Signature) -> Signature {
    let s_high = sig.s().to_scalar().negate();
    let s_high = NonZeroScalar::from_bytes(&s_high.to_bytes()).unwrap();
    let r = sig.r();
    Signature::from_scalars(&r, &s_high)
}

#[test]
fn high_s_is_rejected_as_malleable_and_low_s_verifies() {
    let signer = test_signer();
    let digest = test_digest("malleability");
    let sig = signer.sign(&digest).unwrap();
    let verifier = Verifier::new(&signer.verify_key().unwrap());
    let high = high_s_counterpart(&sig);
    assert_eq!(
        verifier.verify_digest(&digest, &high),
        Err(Error::SignatureMalleable)
    );
    assert_eq!(verifier.verify_digest(&digest, &sig), Ok(()));
}

#[test]
fn verify_rejects_wrong_digest() {
    let signer = test_signer();
    let sig = signer.sign(&test_digest("signed digest")).unwrap();
    let verifier = Verifier::new(&signer.verify_key().unwrap());
    assert_eq!(
        verifier.verify_digest(&test_digest("some other digest"), &sig),
        Err(Error::InvalidSignature)
    );
}

#[test]
fn signature_bytes_round_trip() {
    let signer = test_signer();
    let digest = test_digest("round trip");
    let sig = signer.sign(&digest).unwrap();
    let bytes = sig.to_bytes();
    let reparsed = Signature::parse(&bytes[..]).unwrap();
    assert_eq!(reparsed, sig);
    assert_eq!(reparsed.to_bytes(), bytes);
    let rsig = signer.sign_recoverable(&digest).unwrap();
    let rbytes = rsig.to_bytes();
    let reparsed = recoverable::Signature::parse(&rbytes[..]).unwrap();
    assert_eq!(reparsed, rsig);
    assert_eq!(reparsed.to_bytes(), rbytes);
}

#[test]
fn parse_rejects_wrong_lengths() {
    assert_eq!(Signature::parse(&[1u8; 63]), Err(Error::InvalidEncoding));
    assert_eq!(Signature::parse(&[1u8; 66]), Err(Error::InvalidEncoding));
    assert_eq!(
        recoverable::Signature::parse(&[1u8; 63]),
        Err(Error::InvalidEncoding)
    );
    assert_eq!(
        recoverable::Signature::parse(&[1u8; 66]),
        Err(Error::InvalidEncoding)
    );
}

#[test]
fn parse_rejects_out_of_range_scalars() {
    let signer = test_signer();
    let good = signer.sign(&test_digest("scalars")).unwrap().to_bytes();
    let mut zero_r = good;
    for b in zero_r[..32].iter_mut() {
        *b = 0;
    }
    assert_eq!(Signature::parse(&zero_r[..]), Err(Error::InvalidEncoding));
    let order = hx("FFFFFFFFFFFFFFFFFFFFFFFFFFFFFFFEBAAEDCE6AF48A03BBFD25E8CD0364141");
    let mut s_is_order = good;
    s_is_order[32..].copy_from_slice(&order);
    assert_eq!(Signature::parse(&s_is_order[..]), Err(Error::InvalidEncoding));
}

#[test]
fn parse_rejects_recovery_id_two_and_three() {
    let signer = test_signer();
    let rsig = signer.sign_recoverable(&test_digest("tags")).unwrap();
    for tag in [2u8, 3u8] {
        let mut bytes = rsig.to_bytes();
        bytes[64] = tag;
        assert_eq!(
            recoverable::Signature::parse(&bytes[..]),
            Err(Error::InvalidRecoveryId)
        );
        assert_eq!(recoverable::Id::new(tag), Err(Error::InvalidRecoveryId));
    }
}

#[test]
fn signing_is_deterministic_and_entropy_changes_the_nonce() {
    let signer = test_signer();
    let digest = test_digest("determinism");
    let a = signer.sign_recoverable(&digest).unwrap();
    let b = signer.sign_recoverable(&digest).unwrap();
    assert_eq!(a.to_bytes(), b.to_bytes());
    let e1 = [0x11u8; 32];
    let e2 = [0x22u8; 32];
    let c = signer.sign_recoverable_with_entropy(&digest, &e1).unwrap();
    let d = signer.sign_recoverable_with_entropy(&digest, &e2).unwrap();
    assert_ne!(c.to_bytes(), d.to_bytes());
    assert_ne!(a.to_bytes(), c.to_bytes());
    let pk = signer.verify_key().unwrap();
    assert_eq!(c.recover_verify_key_from_digest(&digest).unwrap().to_compressed(), pk.to_compressed());
    assert_eq!(d.recover_verify_key_from_digest(&digest).unwrap().to_compressed(), pk.to_compressed());
}

#[test]
fn trial_recovery_finds_the_recorded_id() {
    let signer = test_signer();
    let pk = signer.verify_key().unwrap().to_compressed();
    let mut seen = [false, false];
    for i in 0..32u32 {
        let msg = format!("trial message {}", i);
        let rsig = signer.sign_message(msg.as_bytes()).unwrap();
        let id = rsig.recovery_id().to_byte();
        seen[id as usize] = true;
        let found =
            recoverable::Signature::from_trial_recovery(&pk, msg.as_bytes(), &rsig.to_signature())
                .unwrap();
        assert_eq!(found.recovery_id().to_byte(), id);
        assert_eq!(found.to_bytes(), rsig.to_bytes());
        if seen[0] && seen[1] {
            break;
        }
    }
    assert!(seen[0] && seen[1]);
}

#[test]
fn trial_recovery_fails_for_an_unrelated_key() {
    let signer = test_signer();
    let other = Signer::new(&[0x55u8; 32]).unwrap();
    let other_pk = other.verify_key().unwrap().to_compressed();
    let msg = b"signed by somebody else";
    let rsig = signer.sign_message(msg).unwrap();
    assert_eq!(
        recoverable::Signature::from_trial_recovery(&other_pk, msg, &rsig.to_signature()),
        Err(Error::RecoveryFailed)
    );
}

#[test]
fn signer_rejects_invalid_private_keys() {
    assert_eq!(Signer::new(&[0u8; 32]).err(), Some(Error::InvalidPrivateKey));
    let order = hx("FFFFFFFFFFFFFFFFFFFFFFFFFFFFFFFEBAAEDCE6AF48A03BBFD25E8CD0364141");
    let mut order_key = [0u8; 32];
    order_key.copy_from_slice(&order);
    assert_eq!(Signer::new(&order_key).err(), Some(Error::InvalidPrivateKey));
}

#[test]
fn zero_nonce_fails_signing() {
    let signer = test_signer();
    let k = Scalar::from_bytes_reduced(&[0u8; 32]);
    let z = Scalar::from_bytes_reduced(&test_digest("zero nonce"));
    assert_eq!(
        signer.secret_scalar.try_sign_recoverable_prehashed(&k, &z),
        Err(Error::SigningFailed)
    );
}

#[test]
fn verifier_parses_compressed_keys() {
    let signer = test_signer();
    let pk = signer.verify_key().unwrap();
    let compressed = pk.to_compressed();
    let verifier = Verifier::from_compressed(&compressed[..]).unwrap();
    assert_eq!(verifier.public_key.to_compressed(), compressed);
    let mut bad_tag = compressed;
    bad_tag[0] = 4;
    assert!(matches!(
        Verifier::from_compressed(&bad_tag[..]),
        Err(Error::InvalidEncoding)
    ));
    assert!(matches!(
        Verifier::from_compressed(&compressed[..32]),
        Err(Error::InvalidEncoding)
    ));
}

#[test]
fn keccak256_matches_known_vector() {
    let digest = keccak256(b"");
    assert_eq!(
        digest.to_vec(),
        hx("c5d2460186f7233c927e7db2dcc703c0e500b653ca82273b7bfad8045d85a470")
    );
}

#[test]
fn is_high_boundary_at_half_order() {
    // (n - 1) / 2 is the largest low s: it must not be normalized.
    let half = hx("7FFFFFFFFFFFFFFFFFFFFFFFFFFFFFFF5D576E7357A4501DDFE92F46681B20A0");
    let mut half_bytes = [0u8; 32];
    half_bytes.copy_from_slice(&half);
    let s_half = NonZeroScalar::from_bytes(&half_bytes).unwrap();
    let signer = test_signer();
    let r = signer.sign(&test_digest("boundary")).unwrap().r();
    let mut sig = Signature::from_scalars(&r, &s_half);
    assert!(!sig.normalize_s());
    assert_eq!(sig.s().to_bytes(), half_bytes);
    // (n + 1) / 2 is the smallest high s: normalizing maps it to (n - 1) / 2.
    let mut above = half_bytes;
    above[31] = 0xA1;
    let s_above = NonZeroScalar::from_bytes(&above).unwrap();
    let mut sig = Signature::from_scalars(&r, &s_above);
    assert!(sig.normalize_s());
    assert_eq!(sig.s().to_bytes(), half_bytes);
}

#[test]
fn verify_with_non_canonical_point_fails_cleanly() {
    let signer = test_signer();
    let digest = test_digest("bad point");
    let sig = signer.sign(&digest).unwrap();
    // Coordinate bytes above the field prime are no curve point: the
    // verifier must reject, not panic.
    let bogus = AffinePoint { x: [0xFF; 32], y: [0xFF; 32] };
    let verifier = Verifier::new(&bogus);
    assert_eq!(
        verifier.verify_digest(&digest, &sig),
        Err(Error::InvalidSignature)
    );
}
