//! Public-key recovery against fixed curve test vectors.

use recoverable_ecdsa::recoverable;
use sha2::{Digest, Sha256};

fn hx(s: &str) -> Vec<u8> {
    let clean: String = s.chars().filter(|c| !c.is_whitespace()).collect();
    assert!(clean.len() % 2 == 0);
    (0..clean.len() / 2)
        .map(|i| u8::from_str_radix(&clean[2 * i..2 * i + 2], 16).unwrap())
        .collect()
}

struct TestVector {
    pk: Vec<u8>,
    sig: Vec<u8>,
    msg: &'static [u8],
}

fn vectors() -> Vec<TestVector> {
    vec![
        // Recovery ID 0
        TestVector {
            pk: hx("021a7a569e91dbf60581509c7fc946d1003b60c7dee85299538db6353538d59574"),
            sig: hx(
                "ce53abb3721bafc561408ce8ff99c909f7f0b18a2f788649d6470162ab1aa03239\
                 71edc523a6d6453f3fb6128d318d9db1a5ff3386feb1047d9816e780039d5200",
            ),
            msg: b"example message",
        },
        // Recovery ID 1
        TestVector {
            pk: hx("036d6caac248af96f6afa7f904f550253a0f3ef3f5aa2fe6838a95b216691468e2"),
            sig: hx(
                "46c05b6368a44b8810d79859441d819b8e7cdc8bfd371e35c53196f4bcacdb5135\
                 c7facce2a97b95eacba8a586d87b7958aaf8368ab29cee481f76e871dbd9cb01",
            ),
            msg: b"example message",
        },
    ]
}

#[test]
fn public_key_recovery() {
    for vector in vectors() {
        let sig = recoverable::Signature::parse(&vector.sig[..]).unwrap();
        let prehash: [u8; 32] = Sha256::digest(vector.msg).into();
        let pk = sig.recover_verify_key_from_digest(&prehash).unwrap();
        assert_eq!(&vector.pk[..], &pk.to_compressed()[..]);
    }
}

#[test]
fn recovery_id_round_trips_through_parse() {
    for (i, vector) in vectors().iter().enumerate() {
        let sig = recoverable::Signature::parse(&vector.sig[..]).unwrap();
        assert_eq!(sig.recovery_id().to_byte(), i as u8);
        assert_eq!(&sig.to_bytes()[..], &vector.sig[..]);
    }
}
