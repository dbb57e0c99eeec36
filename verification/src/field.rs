//! Scalars: integers modulo the order of the group, held as 32 little-endian
//! bytes.

use vstd::arithmetic::div_mod::{lemma_add_mod_noop, lemma_small_mod};
use vstd::prelude::*;

verus! {

/// The order of the group, which is the modulus of the scalar field:
/// `0x73eda753299d7d483339d80809a1d80553bda402fffe5bfeffffffff00000001`,
/// written here by its four 64-bit limbs.
pub open spec fn modulus() -> nat {
    0xffffffff00000001nat + 0x1_0000_0000_0000_0000nat * (0x53bda402fffe5bfenat
        + 0x1_0000_0000_0000_0000nat * (0x3339d80809a1d805nat + 0x1_0000_0000_0000_0000nat
        * 0x73eda753299d7d48nat))
}

/// The number that a sequence of bytes stands for, least significant byte
/// first.
pub open spec fn le_nat(bytes: Seq<u8>) -> nat
    decreases bytes.len(),
{
    if bytes.len() == 0 {
        0
    } else {
        bytes[0] as nat + 256 * le_nat(bytes.skip(1))
    }
}

/// What `a - b` is in the scalar field.
pub open spec fn sub_mod(a: nat, b: nat) -> nat {
    ((a as int - b as int) % (modulus() as int)) as nat
}

/// What `a * b` is in the scalar field.
pub open spec fn mul_mod(a: nat, b: nat) -> nat {
    (a * b) % modulus()
}

/// What `a + b` is in the scalar field.
pub open spec fn add_mod(a: nat, b: nat) -> nat {
    (a + b) % modulus()
}

/// An element of the scalar field, by its little-endian encoding.
#[derive(Clone, Copy, Debug)]
pub struct Fr {
    pub bytes: [u8; 32],
}

impl Fr {
    /// The integer that the bytes encode.
    pub open spec fn value(&self) -> nat {
        le_nat(self.bytes@)
    }

    /// The encoding is canonical: the value is below the modulus.
    pub open spec fn wf(&self) -> bool {
        self.value() < modulus()
    }

    /// Takes 32 bytes as a scalar if they are a canonical encoding.
    pub fn from_bytes(bytes: [u8; 32]) -> (r: Option<Fr>)
        ensures
            r is Some <==> le_nat(bytes@) < modulus(),
            r is Some ==> r->Some_0.bytes@ == bytes@ && r->Some_0.wf(),
    {
        if fr_is_canonical(&bytes) {
            Some(Fr { bytes })
        } else {
            None
        }
    }

    /// The scalar 0.
    pub fn zero() -> (r: Fr)
        ensures
            r.wf(),
            r.value() == 0,
            forall|i: int| 0 <= i < 32 ==> r.bytes@[i] == 0u8,
    {
        let r = Fr { bytes: [0u8; 32] };
        proof {
            lemma_le_nat_of_zeros(r.bytes@);
            lemma_modulus_positive();
        }
        r
    }

    /// Whether the encoding is canonical.
    pub fn is_canonical(&self) -> (ok: bool)
        ensures
            ok == self.wf(),
    {
        fr_is_canonical(&self.bytes)
    }

    /// Whether two scalars have the same encoding.
    pub fn same_as(&self, other: &Fr) -> (same: bool)
        ensures
            same == (self.bytes@ == other.bytes@),
    {
        let mut i: usize = 0;
        while i < 32
            invariant
                i <= 32,
                forall|j: int| 0 <= j < i ==> self.bytes@[j] == other.bytes@[j],
            decreases 32 - i,
        {
            if self.bytes[i] != other.bytes[i] {
                return false;
            }
            i += 1;
        }
        assert(self.bytes@ =~= other.bytes@);
        true
    }

    /// `self * rhs` in the field.
    pub fn product(&self, rhs: &Fr) -> (r: Fr)
        requires
            self.wf(),
            rhs.wf(),
        ensures
            r.wf(),
            r.value() == mul_mod(self.value(), rhs.value()),
    {
        let r = fr_mul(self, rhs);
        proof {
            lemma_mod_is_below((self.value() * rhs.value()) as int);
        }
        r
    }

    /// `self - rhs` in the field.
    pub fn difference(&self, rhs: &Fr) -> (r: Fr)
        requires
            self.wf(),
            rhs.wf(),
        ensures
            r.wf(),
            r.value() == sub_mod(self.value(), rhs.value()),
    {
        let r = fr_sub(self, rhs);
        proof {
            lemma_mod_is_below(self.value() as int - rhs.value() as int);
        }
        r
    }
}

/// Bytes that are all 0 stand for 0.
pub proof fn lemma_le_nat_of_zeros(bytes: Seq<u8>)
    requires
        forall|i: int| 0 <= i < bytes.len() ==> bytes[i] == 0u8,
    ensures
        le_nat(bytes) == 0,
    decreases bytes.len(),
{
    if bytes.len() > 0 {
        lemma_le_nat_of_zeros(bytes.skip(1));
    }
}

/// Byte sequences of one length that stand for the same number are the same:
/// a scalar has one canonical encoding.
pub proof fn lemma_le_nat_injective(a: Seq<u8>, b: Seq<u8>)
    requires
        a.len() == b.len(),
        le_nat(a) == le_nat(b),
    ensures
        a == b,
    decreases a.len(),
{
    if a.len() > 0 {
        let ta = le_nat(a.skip(1));
        let tb = le_nat(b.skip(1));
        assert(a[0] as nat + 256 * ta == b[0] as nat + 256 * tb);
        assert(a[0] == b[0] && ta == tb) by (nonlinear_arith)
            requires
                a[0] as nat + 256 * ta == b[0] as nat + 256 * tb,
                a[0] < 256,
                b[0] < 256,
        ;
        lemma_le_nat_injective(a.skip(1), b.skip(1));
        assert(a =~= seq![a[0]] + a.skip(1));
        assert(b =~= seq![b[0]] + b.skip(1));
    }
    assert(a =~= b);
}

/// The modulus is positive.
pub proof fn lemma_modulus_positive()
    ensures
        modulus() > 0,
{
}

/// A remainder by the modulus is a field element.
pub proof fn lemma_mod_is_below(a: int)
    ensures
        0 <= a % (modulus() as int) < modulus(),
{
    lemma_modulus_positive();
    vstd::arithmetic::div_mod::lemma_mod_bound(a, modulus() as int);
}

/// The response `s = k - c * x` answers the challenge `c`: adding `x * c` to
/// it gives back `k`.
pub proof fn lemma_response_opens(k: nat, c: nat, x: nat)
    requires
        k < modulus(),
    ensures
        add_mod(sub_mod(k, mul_mod(c, x)), mul_mod(x, c)) == k,
{
    let m = modulus() as int;
    lemma_modulus_positive();
    let p = (c * x) as int;
    assert(x * c == c * x) by (nonlinear_arith);
    let pm = p % m;
    lemma_mod_is_below(p);
    lemma_mod_is_below(k - pm);
    // ((k - pm) % m + pm % m) % m == (k - pm + pm) % m
    lemma_add_mod_noop(k - pm, pm, m);
    lemma_small_mod(pm as nat, m as nat);
    lemma_small_mod(k, m as nat);
}

/// `blstrs::Scalar::from_bytes_le`, asked whether it accepts the bytes. It
/// accepts exactly the encodings of numbers below the modulus.
#[verifier::external_body]
fn fr_is_canonical(bytes: &[u8; 32]) -> (ok: bool)
    ensures
        ok == (le_nat(bytes@) < modulus()),
{
    bool::from(blstrs::Scalar::from_bytes_le(bytes).is_some())
}

/// Multiplication of `blstrs::Scalar`: the product of the two values, reduced
/// by the modulus, in its little-endian encoding (`Scalar::to_bytes_le`).
#[verifier::external_body]
fn fr_mul(a: &Fr, b: &Fr) -> (r: Fr)
    requires
        a.wf(),
        b.wf(),
    ensures
        r.value() == mul_mod(a.value(), b.value()),
{
    let x = blstrs::Scalar::from_bytes_le(&a.bytes).unwrap();
    let y = blstrs::Scalar::from_bytes_le(&b.bytes).unwrap();
    Fr { bytes: (x * y).to_bytes_le() }
}

/// Subtraction of `blstrs::Scalar`: the difference of the two values, reduced
/// by the modulus to a number from 0 up to the modulus, in its little-endian
/// encoding.
#[verifier::external_body]
fn fr_sub(a: &Fr, b: &Fr) -> (r: Fr)
    requires
        a.wf(),
        b.wf(),
    ensures
        r.value() == sub_mod(a.value(), b.value()),
{
    let x = blstrs::Scalar::from_bytes_le(&a.bytes).unwrap();
    let y = blstrs::Scalar::from_bytes_le(&b.bytes).unwrap();
    Fr { bytes: (x - y).to_bytes_le() }
}

} // verus!
