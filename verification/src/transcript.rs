//! The Fiat-Shamir challenge: a scalar derived from the transcript of the
//! protocol.

use crate::field::Fr;
use crate::group::GroupElement;
use vstd::prelude::*;
use vstd::string::{is_ascii, StringSliceAdditionalSpecFns};

verus! {

/// The domain separation tag, which ends every transcript.
pub const DOMAIN_PROOF_OF_DLEQ_CHALLENGE: &'static str = "blsttc-zk-proof-of-dleq-challenge";

/// The label `g-value`.
pub open spec fn label_g() -> Seq<u8> {
    seq![0x67u8, 0x2du8, 0x76u8, 0x61u8, 0x6cu8, 0x75u8, 0x65u8]
}

/// The label `g_x`.
pub open spec fn label_g_x() -> Seq<u8> {
    seq![0x67u8, 0x5fu8, 0x78u8]
}

/// The label `h-value`.
pub open spec fn label_h() -> Seq<u8> {
    seq![0x68u8, 0x2du8, 0x76u8, 0x61u8, 0x6cu8, 0x75u8, 0x65u8]
}

/// The label `h_x`.
pub open spec fn label_h_x() -> Seq<u8> {
    seq![0x68u8, 0x5fu8, 0x78u8]
}

/// The label `g_k`.
pub open spec fn label_g_k() -> Seq<u8> {
    seq![0x67u8, 0x5fu8, 0x6bu8]
}

/// The label `h_k`.
pub open spec fn label_h_k() -> Seq<u8> {
    seq![0x68u8, 0x5fu8, 0x6bu8]
}

/// The domain separation tag `blsttc-zk-proof-of-dleq-challenge`.
pub open spec fn domain_tag() -> Seq<u8> {
    seq![
        0x62u8, 0x6cu8, 0x73u8, 0x74u8, 0x74u8, 0x63u8, 0x2du8, 0x7au8, 0x6bu8, 0x2du8, 0x70u8,
        0x72u8, 0x6fu8, 0x6fu8, 0x66u8, 0x2du8, 0x6fu8, 0x66u8, 0x2du8, 0x64u8, 0x6cu8, 0x65u8,
        0x71u8, 0x2du8, 0x63u8, 0x68u8, 0x61u8, 0x6cu8, 0x6cu8, 0x65u8, 0x6eu8, 0x67u8, 0x65u8,
    ]
}

/// The transcript: each of the six encodings behind its label, in the order
/// g, g_x, h, h_x, g_k, h_k, and the domain separation tag at the end.
pub open spec fn transcript(
    g: Seq<u8>,
    g_x: Seq<u8>,
    h: Seq<u8>,
    h_x: Seq<u8>,
    g_k: Seq<u8>,
    h_k: Seq<u8>,
) -> Seq<u8> {
    label_g() + g + label_g_x() + g_x + label_h() + h + label_h_x() + h_x + label_g_k() + g_k
        + label_h_k() + h_k + domain_tag()
}

/// The SHA3-256 digest of `data`: 32 bytes.
pub uninterp spec fn sha3_256_digest(data: Seq<u8>) -> Seq<u8>;

/// The encoding of the scalar that is drawn first from the generator seeded
/// with `seed`.
pub uninterp spec fn scalar_drawn_from(seed: Seq<u8>) -> Seq<u8>;

/// The challenge that belongs to a transcript: the digest of the transcript
/// seeds a generator, and the challenge is the first scalar drawn from it.
pub open spec fn challenge_of_transcript(transcript: Seq<u8>) -> Seq<u8> {
    scalar_drawn_from(sha3_256_digest(transcript))
}

/// The challenge for six encoded group elements.
pub open spec fn challenge_of(
    g: Seq<u8>,
    g_x: Seq<u8>,
    h: Seq<u8>,
    h_x: Seq<u8>,
    g_k: Seq<u8>,
    h_k: Seq<u8>,
) -> Seq<u8> {
    challenge_of_transcript(transcript(g, g_x, h, h_x, g_k, h_k))
}

/// Appends `src` to `buf`.
pub fn append_bytes(buf: &mut Vec<u8>, src: &[u8])
    ensures
        final(buf)@ == old(buf)@ + src@,
{
    let mut i: usize = 0;
    while i < src.len()
        invariant
            i <= src@.len(),
            buf@ == old(buf)@ + src@.take(i as int),
        decreases src@.len() - i,
    {
        buf.push(src[i]);
        i += 1;
        assert(src@.take(i as int) =~= src@.take(i - 1).push(src@[i - 1]));
        assert(buf@ =~= old(buf)@ + src@.take(i as int));
    }
    assert(src@.take(i as int) =~= src@);
}

/// Appends an ASCII label to `buf`.
fn append_label(buf: &mut Vec<u8>, label: &str)
    ensures
        final(buf)@ == old(buf)@ + label.spec_bytes(),
{
    append_bytes(buf, label.as_bytes());
}

/// Builds the transcript of six group elements.
pub fn challenge_transcript(
    g: &GroupElement,
    g_x: &GroupElement,
    h: &GroupElement,
    h_x: &GroupElement,
    g_k: &GroupElement,
    h_k: &GroupElement,
) -> (buf: Vec<u8>)
    ensures
        buf@ == transcript(g.bytes@, g_x.bytes@, h.bytes@, h_x.bytes@, g_k.bytes@, h_k.bytes@),
{
    proof {
        lemma_labels();
    }
    let mut buf: Vec<u8> = Vec::new();
    append_label(&mut buf, "g-value");
    append_bytes(&mut buf, g.bytes.as_slice());
    append_label(&mut buf, "g_x");
    append_bytes(&mut buf, g_x.bytes.as_slice());
    append_label(&mut buf, "h-value");
    append_bytes(&mut buf, h.bytes.as_slice());
    append_label(&mut buf, "h_x");
    append_bytes(&mut buf, h_x.bytes.as_slice());
    append_label(&mut buf, "g_k");
    append_bytes(&mut buf, g_k.bytes.as_slice());
    append_label(&mut buf, "h_k");
    append_bytes(&mut buf, h_k.bytes.as_slice());
    append_label(&mut buf, DOMAIN_PROOF_OF_DLEQ_CHALLENGE);
    assert(buf@ =~= transcript(
        g.bytes@,
        g_x.bytes@,
        h.bytes@,
        h_x.bytes@,
        g_k.bytes@,
        h_k.bytes@,
    ));
    buf
}

/// The byte sequences of the labels and of the tag are the ASCII strings that
/// they are named after.
pub proof fn lemma_labels()
    ensures
        "g-value".spec_bytes() == label_g(),
        "g_x".spec_bytes() == label_g_x(),
        "h-value".spec_bytes() == label_h(),
        "h_x".spec_bytes() == label_h_x(),
        "g_k".spec_bytes() == label_g_k(),
        "h_k".spec_bytes() == label_h_k(),
        DOMAIN_PROOF_OF_DLEQ_CHALLENGE.spec_bytes() == domain_tag(),
{
    broadcast use vstd::string::is_ascii_spec_bytes;

    reveal_strlit("g-value");
    reveal_strlit("g_x");
    reveal_strlit("h-value");
    reveal_strlit("h_x");
    reveal_strlit("g_k");
    reveal_strlit("h_k");
    reveal_strlit("blsttc-zk-proof-of-dleq-challenge");
    assert(is_ascii("g-value"));
    assert(is_ascii("g_x"));
    assert(is_ascii("h-value"));
    assert(is_ascii("h_x"));
    assert(is_ascii("g_k"));
    assert(is_ascii("h_k"));
    assert(is_ascii(DOMAIN_PROOF_OF_DLEQ_CHALLENGE));
    assert("g-value".spec_bytes() =~= label_g());
    assert("g_x".spec_bytes() =~= label_g_x());
    assert("h-value".spec_bytes() =~= label_h());
    assert("h_x".spec_bytes() =~= label_h_x());
    assert("g_k".spec_bytes() =~= label_g_k());
    assert("h_k".spec_bytes() =~= label_h_k());
    assert(DOMAIN_PROOF_OF_DLEQ_CHALLENGE.spec_bytes() =~= domain_tag());
}

/// The challenge of a transcript that was built already.
pub fn challenge_from_transcript(data: &[u8]) -> (c: Fr)
    ensures
        c.wf(),
        c.bytes@ == challenge_of_transcript(data@),
{
    let seed = sha3_256(data);
    fr_from_seed(seed)
}

/// The Fiat-Shamir challenge for the six group elements of one run of the
/// protocol. The same six elements always give the same challenge.
pub fn dleq_proof_challenge(
    g: &GroupElement,
    g_x: &GroupElement,
    h: &GroupElement,
    h_x: &GroupElement,
    g_k: &GroupElement,
    h_k: &GroupElement,
) -> (c: Fr)
    ensures
        c.wf(),
        c.bytes@ == challenge_of(g.bytes@, g_x.bytes@, h.bytes@, h_x.bytes@, g_k.bytes@, h_k.bytes@),
{
    let buf = challenge_transcript(g, g_x, h, h_x, g_k, h_k);
    challenge_from_transcript(buf.as_slice())
}

/// The challenge is a function of the transcript: two runs with the same
/// transcript bytes have the same challenge.
pub proof fn lemma_challenge_deterministic(
    a: (Seq<u8>, Seq<u8>, Seq<u8>, Seq<u8>, Seq<u8>, Seq<u8>),
    b: (Seq<u8>, Seq<u8>, Seq<u8>, Seq<u8>, Seq<u8>, Seq<u8>),
)
    requires
        transcript(a.0, a.1, a.2, a.3, a.4, a.5) == transcript(b.0, b.1, b.2, b.3, b.4, b.5),
    ensures
        challenge_of(a.0, a.1, a.2, a.3, a.4, a.5) == challenge_of(b.0, b.1, b.2, b.3, b.4, b.5),
{
}

/// The transcript binds its six elements: where two transcripts of 48-byte
/// encodings are the same bytes, the elements are the same, each in its place.
pub proof fn lemma_transcript_injective(
    a: (Seq<u8>, Seq<u8>, Seq<u8>, Seq<u8>, Seq<u8>, Seq<u8>),
    b: (Seq<u8>, Seq<u8>, Seq<u8>, Seq<u8>, Seq<u8>, Seq<u8>),
)
    requires
        a.0.len() == 48 && a.1.len() == 48 && a.2.len() == 48,
        a.3.len() == 48 && a.4.len() == 48 && a.5.len() == 48,
        b.0.len() == 48 && b.1.len() == 48 && b.2.len() == 48,
        b.3.len() == 48 && b.4.len() == 48 && b.5.len() == 48,
        transcript(a.0, a.1, a.2, a.3, a.4, a.5) == transcript(b.0, b.1, b.2, b.3, b.4, b.5),
    ensures
        a == b,
{
    let ta = transcript(a.0, a.1, a.2, a.3, a.4, a.5);
    let tb = transcript(b.0, b.1, b.2, b.3, b.4, b.5);
    assert(a.0 =~= ta.subrange(7, 55));
    assert(b.0 =~= tb.subrange(7, 55));
    assert(a.1 =~= ta.subrange(58, 106));
    assert(b.1 =~= tb.subrange(58, 106));
    assert(a.2 =~= ta.subrange(113, 161));
    assert(b.2 =~= tb.subrange(113, 161));
    assert(a.3 =~= ta.subrange(164, 212));
    assert(b.3 =~= tb.subrange(164, 212));
    assert(a.4 =~= ta.subrange(215, 263));
    assert(b.4 =~= tb.subrange(215, 263));
    assert(a.5 =~= ta.subrange(266, 314));
    assert(b.5 =~= tb.subrange(266, 314));
}

/// SHA3-256 of `tiny_keccak` (`Sha3::v256`, `update`, `finalize`): the 32-byte
/// digest of the data, a function of the data alone.
#[verifier::external_body]
fn sha3_256(data: &[u8]) -> (digest: [u8; 32])
    ensures
        digest@ == sha3_256_digest(data@),
{
    let mut hasher = tiny_keccak::Sha3::v256();
    tiny_keccak::Hasher::update(&mut hasher, data);
    let mut digest = [0u8; 32];
    tiny_keccak::Hasher::finalize(hasher, &mut digest);
    digest
}

/// `rand::rngs::StdRng::from_seed` and then `ff::Field::random` of
/// `blstrs::Scalar` on that generator: the generator's output is fixed by the
/// seed, and the sampler keeps drawing until a number below the modulus comes,
/// so the result is a canonical scalar that depends on the seed alone.
#[verifier::external_body]
fn fr_from_seed(seed: [u8; 32]) -> (r: Fr)
    ensures
        r.bytes@ == scalar_drawn_from(seed@),
        r.wf(),
{
    let mut rng = <rand::rngs::StdRng as rand::SeedableRng>::from_seed(seed);
    Fr { bytes: <blstrs::Scalar as ff::Field>::random(&mut rng).to_bytes_le() }
}

} // verus!
