use blstrs::{G1Affine, G1Projective, Scalar};
use ff::Field;
use group::prime::PrimeCurveAffine;
use group::Curve;
use nizk_dleq::nizk_dleq::{check_challenge, response};
use nizk_dleq::transcript::{append_bytes, challenge_from_transcript, challenge_transcript};
use nizk_dleq::{dleq_proof_challenge, Fr, GroupElement, ZkProofDLEqError};
use rand::rngs::StdRng;
use rand::SeedableRng;
use tiny_keccak::{Hasher, Sha3};

const MODULUS_LE: [u8; 32] = [
    0x01, 0x00, 0x00, 0x00, 0xff, 0xff, 0xff, 0xff, 0xfe, 0x5b, 0xfe, 0xff, 0x02, 0xa4, 0xbd, 0x53,
    0x05, 0xd8, 0xa1, 0x09, 0x08, 0xd8, 0x39, 0x33, 0x48, 0x7d, 0x9d, 0x29, 0x53, 0xa7, 0xed, 0x73,
];

fn small(v: u64) -> Fr {
    let mut bytes = [0u8; 32];
    bytes[..8].copy_from_slice(&v.to_le_bytes());
    Fr { bytes }
}

fn point(k: u64) -> GroupElement {
    let p = G1Projective::from(G1Affine::generator()) * Scalar::from(k);
    GroupElement { bytes: p.to_affine().to_compressed() }
}

fn expected_transcript(e: &[GroupElement; 6]) -> Vec<u8> {
    let labels = ["g-value", "g_x", "h-value", "h_x", "g_k", "h_k"];
    let mut buf = Vec::new();
    for i in 0..6 {
        buf.extend_from_slice(labels[i].as_bytes());
        buf.extend_from_slice(&e[i].bytes);
    }
    buf.extend_from_slice("blsttc-zk-proof-of-dleq-challenge".as_bytes());
    buf
}

#[test]
fn domain_tag_is_the_named_constant() {
    assert_eq!(
        nizk_dleq::transcript::DOMAIN_PROOF_OF_DLEQ_CHALLENGE,
        "blsttc-zk-proof-of-dleq-challenge"
    );
}

#[test]
fn product_of_small_scalars() {
    assert_eq!(small(3).product(&small(5)).bytes, small(15).bytes);
    assert_eq!(small(0).product(&small(5)).bytes, small(0).bytes);
}

#[test]
fn product_wraps_at_the_modulus() {
    let mut minus_one = MODULUS_LE;
    minus_one[0] = 0x00;
    let m1 = Fr { bytes: minus_one };
    // (-1) * (-1) = 1
    assert_eq!(m1.product(&m1).bytes, small(1).bytes);
}

#[test]
fn difference_of_small_scalars() {
    assert_eq!(small(7).difference(&small(5)).bytes, small(2).bytes);
    let mut minus_two = MODULUS_LE;
    minus_two[0] = 0xff;
    minus_two[1] = 0xff;
    minus_two[2] = 0xff;
    minus_two[3] = 0xff;
    minus_two[4] = 0xfe;
    // 5 - 7 = modulus - 2
    assert_eq!(small(5).difference(&small(7)).bytes, minus_two);
}

#[test]
fn response_is_k_minus_c_times_x() {
    // 13 - 2 * 3 = 7
    assert_eq!(response(&small(13), &small(2), &small(3)).bytes, small(7).bytes);
    // 1 - 1 * 1 = 0
    assert_eq!(response(&small(1), &small(1), &small(1)).bytes, [0u8; 32]);
}

#[test]
fn zero_is_all_zero_bytes() {
    assert_eq!(Fr::zero().bytes, [0u8; 32]);
    assert!(Fr::zero().is_canonical());
}

#[test]
fn canonical_scalars_are_below_the_modulus() {
    assert!(Fr::from_bytes(MODULUS_LE).is_none());
    let mut below = MODULUS_LE;
    below[0] = 0x00;
    assert_eq!(Fr::from_bytes(below).unwrap().bytes, below);
    let mut above = MODULUS_LE;
    above[0] = 0x02;
    assert!(Fr::from_bytes(above).is_none());
    assert!(Fr::from_bytes([0xff; 32]).is_none());
    assert!(Fr::from_bytes([0; 32]).is_some());
    assert!(small(5).is_canonical());
    assert!(!Fr { bytes: MODULUS_LE }.is_canonical());
}

#[test]
fn same_as_compares_encodings() {
    assert!(small(5).same_as(&small(5)));
    assert!(!small(5).same_as(&small(6)));
    let mut last = small(5);
    last.bytes[31] = 1;
    assert!(!small(5).same_as(&last));
}

#[test]
fn group_elements_decode_or_not() {
    let g = point(1);
    assert_eq!(GroupElement::from_bytes(g.bytes).unwrap().bytes, g.bytes);
    assert!(GroupElement::from_bytes([0xff; 48]).is_none());
    assert!(GroupElement::from_bytes([0x00; 48]).is_none());
    assert!(g.is_valid());
    assert!(!GroupElement { bytes: [0xff; 48] }.is_valid());
    // the point at infinity
    let mut infinity = [0u8; 48];
    infinity[0] = 0xc0;
    assert!(GroupElement::from_bytes(infinity).is_some());
}

#[test]
fn scale_and_plus_follow_the_group_laws() {
    let g = point(1);
    assert_eq!(g.scale(&small(5)).bytes, point(5).bytes);
    assert_eq!(point(3).scale(&small(4)).bytes, point(12).bytes);
    assert_eq!(point(3).plus(&point(4)).bytes, point(7).bytes);
    assert_eq!(g.plus(&g).bytes, g.scale(&small(2)).bytes);
    assert_ne!(g.scale(&small(2)).bytes, g.bytes);
    assert_ne!(g.plus(&point(2)).bytes, g.bytes);
}

#[test]
fn append_bytes_appends() {
    let mut buf = vec![1u8, 2];
    append_bytes(&mut buf, &[3, 4, 5]);
    assert_eq!(buf, vec![1u8, 2, 3, 4, 5]);
    append_bytes(&mut buf, &[]);
    assert_eq!(buf, vec![1u8, 2, 3, 4, 5]);
}

#[test]
fn transcript_is_labels_encodings_and_tag() {
    let e = [point(1), point(2), point(3), point(4), point(5), point(6)];
    let buf = challenge_transcript(&e[0], &e[1], &e[2], &e[3], &e[4], &e[5]);
    assert_eq!(buf.len(), 7 + 3 + 7 + 3 + 3 + 3 + 6 * 48 + 33);
    assert_eq!(buf, expected_transcript(&e));
}

#[test]
fn challenge_is_the_scalar_drawn_from_the_hashed_transcript() {
    let e = [point(1), point(2), point(3), point(4), point(5), point(6)];
    let c = dleq_proof_challenge(&e[0], &e[1], &e[2], &e[3], &e[4], &e[5]);
    let mut hasher = Sha3::v256();
    hasher.update(&expected_transcript(&e));
    let mut seed = [0u8; 32];
    hasher.finalize(&mut seed);
    let mut rng = StdRng::from_seed(seed);
    let expected = Scalar::random(&mut rng);
    assert_eq!(c.bytes, expected.to_bytes_le());
    assert!(c.is_canonical());
    assert_ne!(c.bytes, seed);
}

#[test]
fn challenge_of_the_empty_transcript() {
    // SHA3-256 of the empty input
    let digest: [u8; 32] = [
        0xa7, 0xff, 0xc6, 0xf8, 0xbf, 0x1e, 0xd7, 0x66, 0x51, 0xc1, 0x47, 0x56, 0xa0, 0x61, 0xd6,
        0x62, 0xf5, 0x80, 0xff, 0x4d, 0xe4, 0x3b, 0x49, 0xfa, 0x82, 0xd8, 0x0a, 0x4b, 0x80, 0xf8,
        0x43, 0x4a,
    ];
    let mut rng = StdRng::from_seed(digest);
    let expected = Scalar::random(&mut rng);
    assert_eq!(challenge_from_transcript(&[]).bytes, expected.to_bytes_le());
}

#[test]
fn challenge_is_deterministic() {
    let e = [point(1), point(2), point(3), point(4), point(5), point(6)];
    let a = dleq_proof_challenge(&e[0], &e[1], &e[2], &e[3], &e[4], &e[5]);
    let b = dleq_proof_challenge(&e[0], &e[1], &e[2], &e[3], &e[4], &e[5]);
    assert_eq!(a.bytes, b.bytes);
    let t = challenge_transcript(&e[0], &e[1], &e[2], &e[3], &e[4], &e[5]);
    assert_eq!(challenge_from_transcript(&t).bytes, a.bytes);
}

#[test]
fn challenge_depends_on_every_element_and_on_their_order() {
    let e = [point(1), point(2), point(3), point(4), point(5), point(6)];
    let c = dleq_proof_challenge(&e[0], &e[1], &e[2], &e[3], &e[4], &e[5]);
    for i in 0..6 {
        let mut f = e;
        f[i] = point(9);
        let d = dleq_proof_challenge(&f[0], &f[1], &f[2], &f[3], &f[4], &f[5]);
        assert_ne!(c.bytes, d.bytes);
    }
    let d = dleq_proof_challenge(&e[1], &e[0], &e[2], &e[3], &e[4], &e[5]);
    assert_ne!(c.bytes, d.bytes);
}

#[test]
fn check_challenge_accepts_equal_encodings_only() {
    assert_eq!(check_challenge(&small(5), &small(5)), Ok(()));
    assert_eq!(check_challenge(&small(5), &small(6)), Err(ZkProofDLEqError::InvalidProof));
}

#[test]
fn error_kinds_are_distinct() {
    assert_ne!(ZkProofDLEqError::InvalidProof, ZkProofDLEqError::InvalidInstance);
    assert_eq!(ZkProofDLEqError::InvalidInstance.clone(), ZkProofDLEqError::InvalidInstance);
}
