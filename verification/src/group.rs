//! Elements of the group G1, held by their 48-byte compressed encoding.
//!
//! The curve arithmetic is not written here: it is called. What a call
//! returns is named by a function without a body, and the contracts of the
//! calls say of those names only the group laws that the protocol rests on.
//! Those contracts are assumed, not proved.

use crate::field::{add_mod, modulus, mul_mod, Fr};
use vstd::prelude::*;

verus! {

/// Whether 48 bytes are the compressed encoding of an element of G1: what
/// `blstrs::G1Affine::from_compressed` accepts.
pub uninterp spec fn g1_decodes(bytes: Seq<u8>) -> bool;

/// The encoding of `scalar` times the element that `point` encodes.
pub uninterp spec fn g1_scalar_mul(point: Seq<u8>, scalar: nat) -> Seq<u8>;

/// The encoding of the sum of the elements that `p` and `q` encode.
pub uninterp spec fn g1_sum(p: Seq<u8>, q: Seq<u8>) -> Seq<u8>;

/// An element of G1, by its compressed encoding.
#[derive(Clone, Copy, Debug)]
pub struct GroupElement {
    pub bytes: [u8; 48],
}

impl GroupElement {
    /// The bytes are the encoding of an element of the group.
    pub open spec fn wf(&self) -> bool {
        g1_decodes(self.bytes@)
    }

    /// Takes 48 bytes as a group element if they encode one.
    pub fn from_bytes(bytes: [u8; 48]) -> (r: Option<GroupElement>)
        ensures
            r is Some <==> g1_decodes(bytes@),
            r is Some ==> r->Some_0.bytes@ == bytes@,
    {
        if g1_is_encoding(&bytes) {
            Some(GroupElement { bytes })
        } else {
            None
        }
    }

    /// Whether the bytes encode an element of the group.
    pub fn is_valid(&self) -> (ok: bool)
        ensures
            ok == self.wf(),
    {
        g1_is_encoding(&self.bytes)
    }

    /// `scalar` times this element.
    pub fn scale(&self, scalar: &Fr) -> (r: GroupElement)
        requires
            self.wf(),
            scalar.wf(),
        ensures
            r.wf(),
            r.bytes@ == g1_scalar_mul(self.bytes@, scalar.value()),
            scaled_again(self.bytes@, scalar.value(), r.bytes@),
    {
        g1_mul(self, scalar)
    }

    /// The sum of this element and `other`.
    pub fn plus(&self, other: &GroupElement) -> (r: GroupElement)
        requires
            self.wf(),
            other.wf(),
        ensures
            r.wf(),
            r.bytes@ == g1_sum(self.bytes@, other.bytes@),
            multiples_added(self.bytes@, other.bytes@, r.bytes@),
    {
        g1_add(self, other)
    }
}

/// Scaling a multiple: where `point` is `e` times a base, `k` times `point`
/// is `e * k` times that base.
pub open spec fn scaled_again(point: Seq<u8>, k: nat, result: Seq<u8>) -> bool {
    forall|base: Seq<u8>, e: nat|
        {
            &&& g1_decodes(base)
            &&& e < modulus()
            &&& point == #[trigger] g1_scalar_mul(base, e)
        } ==> result == g1_scalar_mul(base, mul_mod(e, k))
}

/// Adding two multiples of one base: `a` times the base plus `b` times the
/// base is `a + b` times the base.
pub open spec fn multiples_added(p: Seq<u8>, q: Seq<u8>, result: Seq<u8>) -> bool {
    forall|base: Seq<u8>, a: nat, b: nat|
        {
            &&& g1_decodes(base)
            &&& a < modulus()
            &&& b < modulus()
            &&& p == #[trigger] g1_scalar_mul(base, a)
            &&& q == #[trigger] g1_scalar_mul(base, b)
        } ==> result == g1_scalar_mul(base, add_mod(a, b))
}

/// `blstrs::G1Affine::from_compressed`, asked whether it accepts the bytes:
/// it does where they decode to a point on the curve that lies in G1.
#[verifier::external_body]
fn g1_is_encoding(bytes: &[u8; 48]) -> (ok: bool)
    ensures
        ok == g1_decodes(bytes@),
{
    bool::from(blstrs::G1Affine::from_compressed(bytes).is_some())
}

/// Multiplication of a `blstrs::G1Affine` by a `blstrs::Scalar`, brought back
/// to affine form with `group::Curve::to_affine` and encoded with
/// `G1Affine::to_compressed`, which is the encoding of `GroupEncoding` too.
/// The result is an element of G1 and depends on the two arguments alone. The
/// last clause is the law of a group of prime order: a multiple of a multiple
/// of a base is the multiple of the base by the product of the two scalars,
/// taken modulo the order.
#[verifier::external_body]
fn g1_mul(p: &GroupElement, k: &Fr) -> (r: GroupElement)
    requires
        p.wf(),
        k.wf(),
    ensures
        r.wf(),
        r.bytes@ == g1_scalar_mul(p.bytes@, k.value()),
        scaled_again(p.bytes@, k.value(), r.bytes@),
{
    let point = blstrs::G1Affine::from_compressed(&p.bytes).unwrap();
    let scalar = blstrs::Scalar::from_bytes_le(&k.bytes).unwrap();
    GroupElement { bytes: group::Curve::to_affine(&(point * scalar)).to_compressed() }
}

/// Addition of two elements of G1 (`G1Affine` plus `G1Projective`), brought
/// back to affine form and encoded with `G1Affine::to_compressed`. The result
/// is an element of G1 and depends on the two arguments alone. The last clause
/// is the law of a group of prime order: the sum of two multiples of a base is
/// the multiple of the base by the sum of the two scalars, taken modulo the
/// order.
#[verifier::external_body]
fn g1_add(p: &GroupElement, q: &GroupElement) -> (r: GroupElement)
    requires
        p.wf(),
        q.wf(),
    ensures
        r.wf(),
        r.bytes@ == g1_sum(p.bytes@, q.bytes@),
        multiples_added(p.bytes@, q.bytes@, r.bytes@),
{
    let a = blstrs::G1Affine::from_compressed(&p.bytes).unwrap();
    let b = blstrs::G1Affine::from_compressed(&q.bytes).unwrap();
    let sum = a + blstrs::G1Projective::from(b);
    GroupElement { bytes: blstrs::G1Affine::from(sum).to_compressed() }
}

} // verus!
