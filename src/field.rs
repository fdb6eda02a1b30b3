//! Base-field elements and digests as plain values, and the hash functions
//! of the underlying field arithmetic library.
use twenty_first::prelude::BFieldElement;
use twenty_first::prelude::Tip5;
use vstd::prelude::*;

verus! {

/// The prime modulus of the base field, `2^64 - 2^32 + 1`.
pub const P: u64 = 0xffff_ffff_0000_0001;

/// The largest canonical representative of a base-field element.
pub const MAX: u64 = 0xffff_ffff_0000_0000;

/// A base-field element, held as its canonical representative.
#[derive(Clone, Copy, Debug, PartialEq, Eq, Hash)]
pub struct FieldElement {
    pub value: u64,
}

impl FieldElement {
    pub open spec fn wf(self) -> bool {
        self.value < P
    }

    /// The element congruent to `value` modulo `P`.
    pub fn new(value: u64) -> (r: FieldElement)
        ensures
            r.wf(),
            r.value == value % P,
    {
        if value >= P {
            FieldElement { value: value - P }
        } else {
            FieldElement { value }
        }
    }

    pub fn value(&self) -> (r: u64)
        ensures
            r == self.value,
    {
        self.value
    }
}

/// The values of a sequence of field elements.
pub open spec fn vals(s: Seq<FieldElement>) -> Seq<u64> {
    Seq::new(s.len(), |i: int| s[i].value)
}

/// Every element of `s` is canonical.
pub open spec fn all_wf(s: Seq<FieldElement>) -> bool {
    forall|i: int| 0 <= i < s.len() ==> #[trigger] s[i].wf()
}

/// Every value of `s` is below the modulus.
pub open spec fn all_canonical(s: Seq<u64>) -> bool {
    forall|i: int| 0 <= i < s.len() ==> #[trigger] s[i] < P
}

/// A digest of five base-field elements.
#[derive(Clone, Copy, Debug, PartialEq, Eq, Hash)]
pub struct Digest {
    pub values: [u64; 5],
}

impl View for Digest {
    type V = Seq<u64>;

    open spec fn view(&self) -> Seq<u64> {
        self.values@
    }
}

impl Digest {
    pub open spec fn wf(self) -> bool {
        all_canonical(self@)
    }

    /// The digest of five zero elements.
    pub fn zero() -> (r: Digest)
        ensures
            r.wf(),
            r@ == seq![0u64, 0u64, 0u64, 0u64, 0u64],
    {
        Digest { values: [0, 0, 0, 0, 0] }
    }

    /// The digest holding the five values of `values`, which must be canonical.
    pub fn new(values: [u64; 5]) -> (r: Digest)
        requires
            all_canonical(values@),
        ensures
            r.wf(),
            r@ == values@,
    {
        Digest { values }
    }

    /// The five elements of the digest, in order.
    pub fn elements(&self) -> (r: Vec<FieldElement>)
        ensures
            vals(r@) == self@,
            self.wf() ==> all_wf(r@),
    {
        let mut r: Vec<FieldElement> = Vec::new();
        let mut i: usize = 0;
        while i < 5
            invariant
                0 <= i <= 5,
                r@.len() == i,
                forall|j: int| 0 <= j < i ==> #[trigger] r@[j].value == self@[j],
                self.wf() ==> all_wf(r@),
            decreases 5 - i,
        {
            let x = self.values[i];
            assert(x == self@[i as int]);
            r.push(FieldElement { value: x });
            i = i + 1;
        }
        assert(vals(r@) =~= self@);
        r
    }

    /// The digest with its five elements in reverse order.
    pub fn reversed(&self) -> (r: Digest)
        ensures
            r@ == self@.reverse(),
            self.wf() ==> r.wf(),
    {
        let v = self.values;
        let r = Digest { values: [v[4], v[3], v[2], v[1], v[0]] };
        assert(r@ =~= self@.reverse());
        r
    }

    /// Applies the digest-to-digest hash of the field library.
    pub fn hash(&self) -> (r: Digest)
        ensures
            r.wf(),
            r@ == digest_hash_of(self@),
    {
        digest_hash(self)
    }
}

/// What the field library's `Digest::hash` returns on a digest of these values.
pub uninterp spec fn digest_hash_of(d: Seq<u64>) -> Seq<u64>;

/// What the field library's `Tip5::hash_varlen` returns on these values.
pub uninterp spec fn hash_varlen_of(input: Seq<u64>) -> Seq<u64>;

/// Relies on `twenty_first::tip5::Digest::hash`: a function of the digest
/// alone, whose five elements are canonical field elements.
#[verifier::external_body]
fn digest_hash(d: &Digest) -> (r: Digest)
    ensures
        r.wf(),
        r@ == digest_hash_of(d@),
{
    let v = d.values;
    let digest = twenty_first::prelude::Digest::new(v.map(BFieldElement::new));
    Digest { values: digest.hash().values().map(|e| e.value()) }
}

/// Relies on `twenty_first::tip5::Tip5::hash_varlen`: a function of the
/// input sequence alone, whose five elements are canonical field elements.
#[verifier::external_body]
pub(crate) fn hash_varlen(input: &Vec<FieldElement>) -> (r: Digest)
    ensures
        r.wf(),
        r@ == hash_varlen_of(vals(input@)),
{
    let bfes: Vec<BFieldElement> = input.iter().map(|e| BFieldElement::new(e.value)).collect();
    Digest { values: Tip5::hash_varlen(&bfes).values().map(|e| e.value()) }
}

/// A copy of a sequence of field elements.
pub fn copy_elements(v: &Vec<FieldElement>) -> (r: Vec<FieldElement>)
    ensures
        r@ == v@,
{
    let mut r: Vec<FieldElement> = Vec::new();
    let mut i: usize = 0;
    while i < v.len()
        invariant
            0 <= i <= v.len(),
            r@ == v@.take(i as int),
        decreases v.len() - i,
    {
        r.push(v[i]);
        assert(r@ =~= v@.take(i + 1));
        i = i + 1;
    }
    assert(v@.take(v.len() as int) =~= v@);
    r
}

} // verus!
