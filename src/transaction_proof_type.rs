//! The kinds of transaction proof, ordered by the work it takes to produce
//! them.
use vstd::prelude::*;

verus! {

/// The kinds of transaction proof, from cheapest to most expensive.
#[derive(Clone, Copy, Debug, PartialEq, Eq)]
pub enum TransactionProofType {
    /// Exposes the secrets; must not be shared.
    PrimitiveWitness,
    /// Hides the secrets; can be shared with peers but not confirmed.
    ProofCollection,
    /// Required for confirming a transaction into a block.
    SingleProof,
}

impl TransactionProofType {
    /// Whether producing this proof runs the virtual machine.
    pub fn executes_in_vm(&self) -> (r: bool)
        ensures
            r == !(*self is PrimitiveWitness),
    {
        match self {
            TransactionProofType::PrimitiveWitness => false,
            TransactionProofType::ProofCollection => true,
            TransactionProofType::SingleProof => true,
        }
    }

    /// The one-byte code of the kind: 1, 2 or 3 in order of cost.
    pub fn to_u8(&self) -> (r: u8)
        ensures
            r == match self {
                TransactionProofType::PrimitiveWitness => 1u8,
                TransactionProofType::ProofCollection => 2u8,
                TransactionProofType::SingleProof => 3u8,
            },
    {
        match self {
            TransactionProofType::PrimitiveWitness => 1,
            TransactionProofType::ProofCollection => 2,
            TransactionProofType::SingleProof => 3,
        }
    }

    /// The kind with the given one-byte code, if any.
    pub fn from_u8(code: u8) -> (r: Option<TransactionProofType>)
        ensures
            r matches Some(t) ==> t.to_u8_spec() == code,
            r is None <==> !(1 <= code <= 3),
    {
        match code {
            1 => Some(TransactionProofType::PrimitiveWitness),
            2 => Some(TransactionProofType::ProofCollection),
            3 => Some(TransactionProofType::SingleProof),
            _ => None,
        }
    }

    /// The one-byte code of the kind.
    pub open spec fn to_u8_spec(self) -> u8 {
        match self {
            TransactionProofType::PrimitiveWitness => 1u8,
            TransactionProofType::ProofCollection => 2u8,
            TransactionProofType::SingleProof => 3u8,
        }
    }

    /// The name of the kind.
    pub fn to_display_string(&self) -> (r: String)
        ensures
            r@ == match self {
                TransactionProofType::PrimitiveWitness => seq!['P', 'r', 'i', 'm', 'i', 't', 'i', 'v', 'e', 'W', 'i', 't', 'n', 'e', 's', 's'],
                TransactionProofType::ProofCollection => seq!['P', 'r', 'o', 'o', 'f', 'C', 'o', 'l', 'l', 'e', 'c', 't', 'i', 'o', 'n'],
                TransactionProofType::SingleProof => seq!['S', 'i', 'n', 'g', 'l', 'e', 'P', 'r', 'o', 'o', 'f'],
            },
    {
        let cs = match self {
            TransactionProofType::PrimitiveWitness => vec!['P', 'r', 'i', 'm', 'i', 't', 'i', 'v', 'e', 'W', 'i', 't', 'n', 'e', 's', 's'],
            TransactionProofType::ProofCollection => vec!['P', 'r', 'o', 'o', 'f', 'C', 'o', 'l', 'l', 'e', 'c', 't', 'i', 'o', 'n'],
            TransactionProofType::SingleProof => vec!['S', 'i', 'n', 'g', 'l', 'e', 'P', 'r', 'o', 'o', 'f'],
        };
        proof {
            match self {
                TransactionProofType::PrimitiveWitness => assert(cs@ =~= seq!['P', 'r', 'i', 'm', 'i', 't', 'i', 'v', 'e', 'W', 'i', 't', 'n', 'e', 's', 's']),
                TransactionProofType::ProofCollection => assert(cs@ =~= seq!['P', 'r', 'o', 'o', 'f', 'C', 'o', 'l', 'l', 'e', 'c', 't', 'i', 'o', 'n']),
                TransactionProofType::SingleProof => assert(cs@ =~= seq!['S', 'i', 'n', 'g', 'l', 'e', 'P', 'r', 'o', 'o', 'f']),
            }
        }
        crate::announcement::string_from_chars(&cs)
    }
}

} // verus!
