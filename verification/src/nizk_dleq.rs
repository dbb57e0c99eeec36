//! The proof of equality of two discrete logarithms: proving and verifying.
//!
//! The statement is `g_x = x * g` and `h_x = x * h` for one secret scalar `x`.
//! A proof is a challenge `c` and a response `s = k - c * x`, where `k` is the
//! randomness of the commitments `k * g` and `k * h`, and `c` is derived from
//! the statement and the commitments.

use crate::field::{
    add_mod, lemma_mod_is_below, lemma_modulus_positive, lemma_response_opens, modulus, mul_mod,
    sub_mod, Fr,
};
use crate::group::{g1_scalar_mul, g1_sum, GroupElement};
use crate::transcript::{challenge_of, dleq_proof_challenge};
use vstd::arithmetic::div_mod::{
    lemma_mul_mod_noop_left, lemma_sub_mod_noop, lemma_sub_mod_noop_right,
};
use vstd::prelude::*;

verus! {

/// The public statement `(g, h, g_x, h_x)`: that `g_x` is to `g` what `h_x` is
/// to `h`. The caller sees to it that `g` and `h` are different generators.
#[derive(Clone, Copy, Debug)]
pub struct DLEqInstance {
    pub g: GroupElement,
    pub h: GroupElement,
    pub g_x: GroupElement,
    pub h_x: GroupElement,
}

/// The secret `(x, r)`: the exponent, and the randomness of the commitments,
/// which must be fresh for every proof.
pub struct DLEqWitness {
    pub scalar_x: Fr,
    pub scalar_r: Fr,
}

/// A proof `(c, s)`: the challenge and the response.
#[derive(Clone, Copy, Debug)]
pub struct ZkProofDLEq {
    pub c: Fr,
    pub s: Fr,
}

/// Why a proof was not accepted.
#[derive(Clone, Debug, PartialEq, Eq, Structural)]
pub enum ZkProofDLEqError {
    /// The challenge of the proof is not the one that its transcript gives,
    /// or one of its scalars is not a canonical encoding.
    InvalidProof,
    /// One of the four encodings of the statement is not that of a group
    /// element.
    InvalidInstance,
}

impl DLEqInstance {
    /// All four encodings are those of group elements.
    pub open spec fn wf(&self) -> bool {
        self.g.wf() && self.h.wf() && self.g_x.wf() && self.h_x.wf()
    }

    /// The statement is true, with `x` as the common exponent.
    pub open spec fn holds_for(&self, x: nat) -> bool {
        &&& self.g_x.bytes@ == g1_scalar_mul(self.g.bytes@, x)
        &&& self.h_x.bytes@ == g1_scalar_mul(self.h.bytes@, x)
    }

    /// Whether all four encodings are those of group elements.
    pub fn is_valid(&self) -> (ok: bool)
        ensures
            ok == self.wf(),
    {
        self.g.is_valid() && self.h.is_valid() && self.g_x.is_valid() && self.h_x.is_valid()
    }
}

impl DLEqWitness {
    /// Both scalars are canonical.
    pub open spec fn wf(&self) -> bool {
        self.scalar_x.wf() && self.scalar_r.wf()
    }

    /// Whether both scalars are canonical.
    pub fn is_valid(&self) -> (ok: bool)
        ensures
            ok == self.wf(),
    {
        self.scalar_x.is_canonical() && self.scalar_r.is_canonical()
    }
}

impl ZkProofDLEq {
    /// Both scalars are canonical.
    pub open spec fn wf(&self) -> bool {
        self.c.wf() && self.s.wf()
    }

    /// Whether both scalars are canonical.
    pub fn is_valid(&self) -> (ok: bool)
        ensures
            ok == self.wf(),
    {
        self.c.is_canonical() && self.s.is_canonical()
    }
}

impl Default for ZkProofDLEq {
    /// The proof whose challenge and response are both 0.
    fn default() -> (r: ZkProofDLEq)
        ensures
            r.wf(),
            r.c.value() == 0,
            r.s.value() == 0,
    {
        ZkProofDLEq { c: Fr::zero(), s: Fr::zero() }
    }
}

/// `proof` is what an honest prover gives for `instance` with the exponent `x`
/// and the randomness `k`: the challenge is that of the commitments `k * g` and
/// `k * h`, and the response is `k - c * x`.
pub open spec fn honest_proof(instance: DLEqInstance, x: nat, k: nat, proof: ZkProofDLEq) -> bool {
    &&& proof.wf()
    &&& proof.c.bytes@ == challenge_of(
        instance.g.bytes@,
        instance.g_x.bytes@,
        instance.h.bytes@,
        instance.h_x.bytes@,
        g1_scalar_mul(instance.g.bytes@, k),
        g1_scalar_mul(instance.h.bytes@, k),
    )
    &&& proof.s.value() == sub_mod(k, mul_mod(proof.c.value(), x))
}

/// The commitment that a verifier rebuilds from a proof: `s * base + c * image`.
pub open spec fn rebuilt_commitment(base: Seq<u8>, image: Seq<u8>, c: nat, s: nat) -> Seq<u8> {
    g1_sum(g1_scalar_mul(base, s), g1_scalar_mul(image, c))
}

/// The challenge that a verifier derives for `proof`: that of the statement
/// and the two rebuilt commitments.
pub open spec fn rederived_challenge(instance: DLEqInstance, proof: ZkProofDLEq) -> Seq<u8> {
    challenge_of(
        instance.g.bytes@,
        instance.g_x.bytes@,
        instance.h.bytes@,
        instance.h_x.bytes@,
        rebuilt_commitment(
            instance.g.bytes@,
            instance.g_x.bytes@,
            proof.c.value(),
            proof.s.value(),
        ),
        rebuilt_commitment(
            instance.h.bytes@,
            instance.h_x.bytes@,
            proof.c.value(),
            proof.s.value(),
        ),
    )
}

/// What verification answers.
pub open spec fn verdict(instance: DLEqInstance, proof: ZkProofDLEq) -> Result<
    (),
    ZkProofDLEqError,
> {
    if !instance.wf() {
        Err(ZkProofDLEqError::InvalidInstance)
    } else if !proof.wf() {
        Err(ZkProofDLEqError::InvalidProof)
    } else if proof.c.bytes@ == rederived_challenge(instance, proof) {
        Ok(())
    } else {
        Err(ZkProofDLEqError::InvalidProof)
    }
}

/// Why the randomness must be fresh. Two responses `s1 = k - c1 * x` and
/// `s2 = k - c2 * x`, made with one randomness `k` for one secret `x`, satisfy
/// `s1 - s2 = (c2 - c1) * x`: whoever sees both proofs has a linear equation
/// for `x` with known coefficients, and solves it where `c1` and `c2` differ.
pub proof fn lemma_reused_randomness_leaks(x: nat, k: nat, c1: nat, c2: nat)
    ensures
        sub_mod(sub_mod(k, mul_mod(c1, x)), sub_mod(k, mul_mod(c2, x))) == mul_mod(
            sub_mod(c2, c1),
            x,
        ),
{
    let m = modulus() as int;
    lemma_modulus_positive();
    let first_cx = (c1 * x) as int;
    let second_cx = (c2 * x) as int;
    lemma_mod_is_below(first_cx);
    lemma_mod_is_below(second_cx);
    lemma_mod_is_below(k - first_cx % m);
    lemma_mod_is_below(k - second_cx % m);
    lemma_mod_is_below(c2 - c1);
    // s1 = (k - first_cx) % m and s2 = (k - second_cx) % m
    lemma_sub_mod_noop_right(k as int, first_cx, m);
    lemma_sub_mod_noop_right(k as int, second_cx, m);
    // (s1 - s2) % m = ((k - first_cx) - (k - second_cx)) % m
    lemma_sub_mod_noop(k - first_cx, k - second_cx, m);
    assert((k - first_cx) - (k - second_cx) == (c2 - c1) * x) by (nonlinear_arith)
        requires
            first_cx == c1 * x,
            second_cx == c2 * x,
    ;
    // ((c2 - c1) % m * x) % m = ((c2 - c1) * x) % m
    lemma_mul_mod_noop_left(c2 - c1, x as int, m);
}

/// The response to the challenge `c`: `k - c * x`.
pub fn response(k: &Fr, c: &Fr, x: &Fr) -> (s: Fr)
    requires
        k.wf(),
        c.wf(),
        x.wf(),
    ensures
        s.wf(),
        s.value() == sub_mod(k.value(), mul_mod(c.value(), x.value())),
{
    let cx = c.product(x);
    k.difference(&cx)
}

/// Accepts a proof whose challenge is the rederived one.
pub fn check_challenge(claimed: &Fr, rederived: &Fr) -> (r: Result<(), ZkProofDLEqError>)
    ensures
        r == (if claimed.bytes@ == rederived.bytes@ {
            Ok::<(), ZkProofDLEqError>(())
        } else {
            Err::<(), ZkProofDLEqError>(ZkProofDLEqError::InvalidProof)
        }),
{
    if claimed.same_as(rederived) {
        Ok(())
    } else {
        Err(ZkProofDLEqError::InvalidProof)
    }
}

/// Proves that `g_x` and `h_x` have the same discrete logarithm `x` to the
/// bases `g` and `h`. The randomness `witness.scalar_r` is used as it is given:
/// no other is drawn, and it must not be used for a second proof. That the
/// witness matches the statement is not looked at.
pub fn prove_gen(instance: &DLEqInstance, witness: &DLEqWitness) -> (proof: ZkProofDLEq)
    requires
        instance.wf(),
        witness.wf(),
    ensures
        honest_proof(*instance, witness.scalar_x.value(), witness.scalar_r.value(), proof),
{
    let k = witness.scalar_r;
    let g_k = instance.g.scale(&k);
    let h_k = instance.h.scale(&k);
    let c = dleq_proof_challenge(
        &instance.g,
        &instance.g_x,
        &instance.h,
        &instance.h_x,
        &g_k,
        &h_k,
    );
    let s = response(&k, &c, &witness.scalar_x);
    ZkProofDLEq { c, s }
}

/// Proves as `prove_gen` does, where the statement and the witness are well
/// formed, and gives nothing where they are not.
pub fn try_prove_gen(instance: &DLEqInstance, witness: &DLEqWitness) -> (r: Option<ZkProofDLEq>)
    ensures
        r is Some <==> instance.wf() && witness.wf(),
        r is Some ==> honest_proof(
            *instance,
            witness.scalar_x.value(),
            witness.scalar_r.value(),
            r->Some_0,
        ),
{
    if instance.is_valid() && witness.is_valid() {
        Some(prove_gen(instance, witness))
    } else {
        None
    }
}

/// Verifies a proof against a statement: rebuilds the two commitments as
/// `s * g + c * g_x` and `s * h + c * h_x`, derives the challenge again and
/// accepts if it is the proof's.
///
/// A statement is `InvalidInstance` where one of its encodings is not that of
/// a group element, and for no other reason: the identity as a base, or `g`
/// equal to `h`, is not rejected, and whoever builds statements answers for
/// the bases.
///
/// The second clause is completeness: a proof that an honest prover made for
/// a true statement is accepted.
pub fn verify_proof(instance: &DLEqInstance, nizk: &ZkProofDLEq) -> (r: Result<
    (),
    ZkProofDLEqError,
>)
    ensures
        r == verdict(*instance, *nizk),
        forall|x: nat, k: nat|
            x < modulus() && k < modulus() && instance.wf() && instance.holds_for(x)
                && #[trigger] honest_proof(*instance, x, k, *nizk) ==> r is Ok,
{
    if !instance.is_valid() {
        return Err(ZkProofDLEqError::InvalidInstance);
    }
    if !nizk.is_valid() {
        return Err(ZkProofDLEqError::InvalidProof);
    }
    let g_s = instance.g.scale(&nizk.s);
    let g_xc = instance.g_x.scale(&nizk.c);
    let g_k_prime = g_s.plus(&g_xc);

    let h_s = instance.h.scale(&nizk.s);
    let h_xc = instance.h_x.scale(&nizk.c);
    let h_k_prime = h_s.plus(&h_xc);

    let c_prime = dleq_proof_challenge(
        &instance.g,
        &instance.g_x,
        &instance.h,
        &instance.h_x,
        &g_k_prime,
        &h_k_prime,
    );
    proof {
        let c = nizk.c.value();
        let s = nizk.s.value();
        assert forall|x: nat, k: nat|
            x < modulus() && k < modulus() && instance.holds_for(x) && #[trigger] honest_proof(
                *instance,
                x,
                k,
                *nizk,
            ) implies c_prime.bytes@ == nizk.c.bytes@ by {
            lemma_response_opens(k, c, x);
            let xc = mul_mod(x, c);
            assert(xc < modulus()) by {
                lemma_mod_is_below((x * c) as int);
            }
            assert(g_xc.bytes@ == g1_scalar_mul(instance.g.bytes@, xc));
            assert(h_xc.bytes@ == g1_scalar_mul(instance.h.bytes@, xc));
            assert(add_mod(s, xc) == k);
            assert(g_k_prime.bytes@ == g1_scalar_mul(instance.g.bytes@, k));
            assert(h_k_prime.bytes@ == g1_scalar_mul(instance.h.bytes@, k));
        }
    }
    check_challenge(&nizk.c, &c_prime)
}

} // verus!
