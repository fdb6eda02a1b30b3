//! Lock scripts: the programs that guard UTXOs, and the secret witness data
//! that makes such a program halt.
use crate::field::all_wf;
use crate::field::copy_elements;
use crate::field::vals;
use crate::field::Digest;
use crate::field::FieldElement;
use triton_isa::instruction::AnInstruction as I;
use triton_isa::instruction::LabelledInstruction;
use triton_isa::op_stack::NumberOfWords;
use triton_isa::program::Program;
use twenty_first::prelude::BFieldElement;
use vstd::prelude::*;

verus! {

/// The instructions of the virtual machine that lock scripts use.
#[derive(Clone, Copy, Debug, PartialEq, Eq)]
pub enum Instruction {
    /// Pushes the given number of elements from the secret input.
    Divine(u64),
    /// Hashes the top ten stack elements into a digest.
    Hash,
    /// Pushes a constant.
    Push(FieldElement),
    /// Asserts that the top two digests on the stack are equal.
    AssertVector,
    /// Pushes the given number of elements from the public input.
    ReadIo(u64),
    /// Stops the machine successfully.
    Halt,
    /// Fails unless the top of the stack is one; the error id names the
    /// failure for debugging and is not part of the program's hash.
    Assert(u64),
}

/// The number of words that `divine` and `read_io` move: one to five.
pub open spec fn words_in_range(i: Instruction) -> bool {
    match i {
        Instruction::Divine(n) => 1 <= n <= 5,
        Instruction::ReadIo(n) => 1 <= n <= 5,
        _ => true,
    }
}

/// Every instruction of the program is one that the virtual machine has.
pub open spec fn program_wf(p: Seq<Instruction>) -> bool {
    forall|k: int| 0 <= k < p.len() ==> words_in_range(#[trigger] p[k])
}

/// The hash that the virtual machine's instruction-set library gives a
/// program, to which a UTXO commits.
pub uninterp spec fn program_hash(p: Seq<Instruction>) -> Seq<u64>;

/// Relies on `triton_isa::program::Program::new` and `Program::hash`: the
/// hash of the program's instruction words, a function of the instructions
/// alone, of canonical elements.
#[verifier::external_body]
fn program_digest(p: &Vec<Instruction>) -> (r: Digest)
    requires
        program_wf(p@),
    ensures
        r.wf(),
        r@ == program_hash(p@),
{
    let isa: Vec<LabelledInstruction> = p.iter().map(|i| LabelledInstruction::Instruction(match *i {
        Instruction::Divine(n) => I::Divine(NumberOfWords::try_from(n).unwrap()),
        Instruction::Hash => I::Hash,
        Instruction::Push(e) => I::Push(BFieldElement::new(e.value)),
        Instruction::AssertVector => I::AssertVector,
        Instruction::ReadIo(n) => I::ReadIo(NumberOfWords::try_from(n).unwrap()),
        Instruction::Halt => I::Halt,
        Instruction::Assert(_) => I::Assert,
    })).collect();
    Digest { values: Program::new(&isa).hash().values().map(|e| e.value()) }
}

/// The standard hash lock for `after_image`: read five secret elements, hash
/// them, compare the result with `after_image`, pass five public elements
/// through, halt.
pub open spec fn hash_lock_program(after_image: Seq<u64>) -> Seq<Instruction> {
    seq![
        Instruction::Divine(5),
        Instruction::Hash,
        Instruction::Push(FieldElement { value: after_image[4] }),
        Instruction::Push(FieldElement { value: after_image[3] }),
        Instruction::Push(FieldElement { value: after_image[2] }),
        Instruction::Push(FieldElement { value: after_image[1] }),
        Instruction::Push(FieldElement { value: after_image[0] }),
        Instruction::AssertVector,
        Instruction::ReadIo(5),
        Instruction::Halt,
    ]
}

/// The error id with which a burnt lock script fails.
pub const BURN_ERROR: u64 = 1_000_300;

/// A program that guards a UTXO; a UTXO stores only its hash.
#[derive(Clone, Debug, PartialEq, Eq)]
pub struct LockScript {
    pub program: Vec<Instruction>,
}

impl LockScript {
    pub fn new(program: Vec<Instruction>) -> (r: LockScript)
        ensures
            r.program@ == program@,
    {
        LockScript { program }
    }

    /// The lock script that any spender satisfies: it passes the public input
    /// through and halts.
    pub fn anyone_can_spend() -> (r: LockScript)
        ensures
            r.program@ == seq![Instruction::ReadIo(5), Instruction::Halt],
    {
        let r = LockScript { program: vec![Instruction::ReadIo(5), Instruction::Halt] };
        assert(r.program@ =~= seq![Instruction::ReadIo(5), Instruction::Halt]);
        r
    }

    /// A lock script that no spender satisfies: it asserts that zero is one.
    pub fn burn() -> (r: LockScript)
        ensures
            r.program@ == seq![
                Instruction::Push(FieldElement { value: 0 }),
                Instruction::Assert(BURN_ERROR),
            ],
    {
        let r = LockScript {
            program: vec![Instruction::Push(FieldElement { value: 0 }), Instruction::Assert(BURN_ERROR)],
        };
        assert(r.program@ =~= seq![
            Instruction::Push(FieldElement { value: 0 }),
            Instruction::Assert(BURN_ERROR),
        ]);
        r
    }

    /// Every instruction of the program is one that the machine has.
    pub open spec fn wf(&self) -> bool {
        program_wf(self.program@)
    }

    /// The hash of the program.
    pub fn hash(&self) -> (r: Digest)
        requires
            self.wf(),
        ensures
            r.wf(),
            r@ == program_hash(self.program@),
    {
        program_digest(&self.program)
    }

    /// The standard hash lock that `after_image` opens.
    pub fn standard_hash_lock_from_after_image(after_image: Digest) -> (r: LockScript)
        requires
            after_image.wf(),
        ensures
            r.program@ == hash_lock_program(after_image@),
    {
        let d = after_image.values;
        let program = vec![
            Instruction::Divine(5),
            Instruction::Hash,
            Instruction::Push(FieldElement { value: d[4] }),
            Instruction::Push(FieldElement { value: d[3] }),
            Instruction::Push(FieldElement { value: d[2] }),
            Instruction::Push(FieldElement { value: d[1] }),
            Instruction::Push(FieldElement { value: d[0] }),
            Instruction::AssertVector,
            Instruction::ReadIo(5),
            Instruction::Halt,
        ];
        assert(program@ =~= hash_lock_program(after_image@));
        LockScript { program }
    }
}

/// The secret input of a program run: individual elements, digests, and
/// initial memory.
#[derive(Clone, Debug, PartialEq, Eq)]
pub struct NonDeterminism {
    pub individual_tokens: Vec<FieldElement>,
    pub digests: Vec<Digest>,
    pub ram: Vec<(FieldElement, FieldElement)>,
}

impl NonDeterminism {
    /// Secret input that consists of the given individual elements only.
    pub fn new(individual_tokens: Vec<FieldElement>) -> (r: NonDeterminism)
        ensures
            r.individual_tokens@ == individual_tokens@,
            r.digests@.len() == 0,
            r.ram@.len() == 0,
    {
        NonDeterminism { individual_tokens, digests: Vec::new(), ram: Vec::new() }
    }

    /// The same secret input with its digests replaced.
    pub fn with_digests(self, digests: Vec<Digest>) -> (r: NonDeterminism)
        ensures
            r.individual_tokens@ == self.individual_tokens@,
            r.digests@ == digests@,
            r.ram@ == self.ram@,
    {
        NonDeterminism { individual_tokens: self.individual_tokens, digests, ram: self.ram }
    }

    /// The same secret input with its initial memory replaced.
    pub fn with_ram(self, ram: Vec<(FieldElement, FieldElement)>) -> (r: NonDeterminism)
        ensures
            r.individual_tokens@ == self.individual_tokens@,
            r.digests@ == self.digests@,
            r.ram@ == ram@,
    {
        NonDeterminism { individual_tokens: self.individual_tokens, digests: self.digests, ram }
    }
}

/// A lock script together with the secret input that makes it halt.
#[derive(Clone, Debug, PartialEq, Eq)]
pub struct LockScriptAndWitness {
    pub program: Vec<Instruction>,
    pub nd_memory: Vec<(FieldElement, FieldElement)>,
    pub nd_tokens: Vec<FieldElement>,
    pub nd_digests: Vec<Digest>,
}

impl LockScriptAndWitness {
    /// A program with no secret input.
    pub fn new(program: Vec<Instruction>) -> (r: LockScriptAndWitness)
        ensures
            r.program@ == program@,
            r.nd_memory@.len() == 0,
            r.nd_tokens@.len() == 0,
            r.nd_digests@.len() == 0,
    {
        LockScriptAndWitness {
            program,
            nd_memory: Vec::new(),
            nd_tokens: Vec::new(),
            nd_digests: Vec::new(),
        }
    }

    /// A program whose secret input is the given individual elements.
    pub fn new_with_tokens(program: Vec<Instruction>, tokens: Vec<FieldElement>) -> (r:
        LockScriptAndWitness)
        ensures
            r.program@ == program@,
            r.nd_memory@.len() == 0,
            r.nd_tokens@ == tokens@,
            r.nd_digests@.len() == 0,
    {
        LockScriptAndWitness { program, nd_memory: Vec::new(), nd_tokens: tokens, nd_digests: Vec::new() }
    }

    /// A program with the given secret input.
    pub fn new_with_nondeterminism(program: Vec<Instruction>, witness: NonDeterminism) -> (r:
        LockScriptAndWitness)
        ensures
            r.program@ == program@,
            r.nd_memory@ == witness.ram@,
            r.nd_tokens@ == witness.individual_tokens@,
            r.nd_digests@ == witness.digests@,
    {
        LockScriptAndWitness {
            program,
            nd_memory: witness.ram,
            nd_tokens: witness.individual_tokens,
            nd_digests: witness.digests,
        }
    }

    /// The standard hash lock that `preimage` opens, with `preimage` as its
    /// secret input, last element first.
    pub fn standard_hash_lock_from_preimage(preimage: Digest) -> (r: LockScriptAndWitness)
        requires
            preimage.wf(),
        ensures
            r.program@ == hash_lock_program(crate::field::digest_hash_of(preimage@)),
            vals(r.nd_tokens@) == preimage@.reverse(),
            all_wf(r.nd_tokens@),
            r.nd_memory@.len() == 0,
            r.nd_digests@.len() == 0,
    {
        let after_image = preimage.hash();
        let lock_script = LockScript::standard_hash_lock_from_after_image(after_image);
        let tokens = preimage.reversed().elements();
        LockScriptAndWitness::new_with_nondeterminism(lock_script.program, NonDeterminism::new(tokens))
    }

    /// The lock script alone.
    pub fn lock_script(&self) -> (r: LockScript)
        ensures
            r.program@ == self.program@,
    {
        LockScript { program: copy_program(&self.program) }
    }

    /// The secret input.
    pub fn nondeterminism(&self) -> (r: NonDeterminism)
        ensures
            r.individual_tokens@ == self.nd_tokens@,
            r.digests@ == self.nd_digests@,
            r.ram@ == self.nd_memory@,
    {
        let mut digests: Vec<Digest> = Vec::new();
        let mut i: usize = 0;
        while i < self.nd_digests.len()
            invariant
                0 <= i <= self.nd_digests@.len(),
                digests@ == self.nd_digests@.take(i as int),
            decreases self.nd_digests.len() - i,
        {
            digests.push(self.nd_digests[i]);
            assert(digests@ =~= self.nd_digests@.take(i + 1));
            i = i + 1;
        }
        assert(self.nd_digests@.take(self.nd_digests@.len() as int) =~= self.nd_digests@);
        let mut ram: Vec<(FieldElement, FieldElement)> = Vec::new();
        let mut j: usize = 0;
        while j < self.nd_memory.len()
            invariant
                0 <= j <= self.nd_memory@.len(),
                ram@ == self.nd_memory@.take(j as int),
            decreases self.nd_memory.len() - j,
        {
            ram.push(self.nd_memory[j]);
            assert(ram@ =~= self.nd_memory@.take(j + 1));
            j = j + 1;
        }
        assert(self.nd_memory@.take(self.nd_memory@.len() as int) =~= self.nd_memory@);
        NonDeterminism::new(copy_elements(&self.nd_tokens)).with_digests(digests).with_ram(ram)
    }
}

/// A copy of a program.
pub fn copy_program(p: &Vec<Instruction>) -> (r: Vec<Instruction>)
    ensures
        r@ == p@,
{
    let mut r: Vec<Instruction> = Vec::new();
    let mut i: usize = 0;
    while i < p.len()
        invariant
            0 <= i <= p@.len(),
            r@ == p@.take(i as int),
        decreases p.len() - i,
    {
        r.push(p[i]);
        assert(r@ =~= p@.take(i + 1));
        i = i + 1;
    }
    assert(p@.take(p@.len() as int) =~= p@);
    r
}

} // verus!
