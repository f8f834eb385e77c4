//! Flattening instructions into the word stream the evaluator executes.

use vstd::prelude::*;
use super::instruction::{Instruction, encode_of};

verus! {

/// The words of the instructions, one after another.
pub open spec fn encode_all(s: Seq<Instruction>) -> Seq<u32>
    decreases s.len(),
{
    if s.len() == 0 {
        Seq::empty()
    } else {
        encode_all(s.drop_last()) + encode_of(s.last())
    }
}

/// The word stream of the instructions, closed by the `End` opcode `0`.
pub fn assemble_flat_bytecode(instructions: &[Instruction]) -> (r: Vec<u32>)
    ensures
        r@ == encode_all(instructions@).push(0),
{
    let mut bc: Vec<u32> = Vec::new();
    let mut i: usize = 0;
    while i < instructions.len()
        invariant
            i <= instructions@.len(),
            bc@ == encode_all(instructions@.subrange(0, i as int)),
        decreases instructions.len() - i,
    {
        proof {
            let p = instructions@.subrange(0, i + 1);
            assert(p.drop_last() =~= instructions@.subrange(0, i as int));
        }
        instructions[i].encode_into(&mut bc);
        i = i + 1;
    }
    assert(instructions@.subrange(0, instructions@.len() as int) =~= instructions@);
    bc.push(0);
    bc
}

} // verus!
