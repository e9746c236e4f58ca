//! What the translator yields is well formed: every block it closes ends in
//! its only terminator, and every operand names a value that an earlier
//! instruction of the block yields.

use vstd::prelude::*;
use crate::bytecode::{FunctionView, InstructionView};
use crate::locals::{allocate_spec, slot_names};
use crate::lowered::{code_well_formed, defined_before, instruction_in_place, instruction_well_formed, slot_well_formed, well_formed, Shape, SsaView};
use crate::lowering::{ends_block, frame_of, lower_block_spec, lower_blocks, lower_function_spec, lower_prefix, lower_step, Frame, Progress};

verus! {

/// The sizes that the instructions lowered in a frame are checked against.
pub open spec fn frame_shape(fr: Frame) -> Shape {
    Shape { slots: fr.slots.len(), blocks: fr.labels.len(), results: fr.arity }
}

/// The state of an open block after `n` instructions: one instruction was
/// emitted for each, none of them a terminator, each well formed, and the
/// shadow stack names values that they yield.
pub open spec fn open_sound(shape: Shape, out: Seq<SsaView>, stack: Seq<nat>, n: int) -> bool {
    &&& out.len() == n
    &&& forall|i: int| 0 <= i < n ==> #[trigger] instruction_well_formed(shape, out, i)
    &&& forall|i: int| 0 <= i < n ==> !(#[trigger] out[i]).is_terminator()
    &&& forall|k: int| 0 <= k < stack.len() ==> defined_before(out, #[trigger] stack[k], n)
}

pub open spec fn progress_sound(shape: Shape, p: Progress, n: int) -> bool {
    match p {
        Progress::Open { code, stack } => open_sound(shape, code, stack, n),
        Progress::Closed { code } => code_well_formed(shape, code),
        Progress::Failed { .. } => true,
    }
}

/// An instruction that is well formed and no terminator stays well formed
/// when another instruction is appended to the block.
proof fn lemma_push_keeps(shape: Shape, out: Seq<SsaView>, ins: SsaView, i: int)
    requires
        0 <= i < out.len(),
        instruction_well_formed(shape, out, i),
        !out[i].is_terminator(),
    ensures
        instruction_well_formed(shape, out.push(ins), i),
        !out.push(ins)[i].is_terminator(),
{
    let next = out.push(ins);
    assert(next[i] == out[i]);
    assert forall|v: nat| defined_before(out, v, i) implies defined_before(next, v, i) by {
        assert(next[v as int] == out[v as int]);
    }
}

/// The instruction that a step emits is well formed at the end of the block
/// it is appended to, and the shadow stack after the step names values of
/// that block.
proof fn lemma_step_sound(fr: Frame, ins: InstructionView, out: Seq<SsaView>, stack: Seq<nat>)
    requires
        open_sound(frame_shape(fr), out, stack, out.len() as int),
        lower_step(fr, ins, out.len(), stack) is Ok,
    ensures
        ({
            let (emitted, rest) = lower_step(fr, ins, out.len(), stack)->Ok_0;
            let next = out.push(emitted);
            &&& instruction_well_formed(frame_shape(fr), next, out.len() as int)
            &&& emitted.is_terminator() == ends_block(ins)
            &&& forall|k: int| 0 <= k < rest.len() ==> defined_before(next, #[trigger] rest[k], next.len() as int)
        }),
{
    let shape = frame_shape(fr);
    let n = out.len() as int;
    let (emitted, rest) = lower_step(fr, ins, out.len(), stack)->Ok_0;
    let next = out.push(emitted);
    assert(next[n] == emitted);
    assert forall|v: nat| defined_before(out, v, n) implies defined_before(next, v, n) && defined_before(
        next,
        v,
        n + 1,
    ) by {
        assert(next[v as int] == out[v as int]);
    }
    match ins {
        InstructionView::MoveLoc(x) => {
            fr.slots.index_of_first_ensures(x);
            assert(defined_before(next, n as nat, n + 1));
            assert forall|k: int| 0 <= k < rest.len() implies defined_before(next, #[trigger] rest[k], n + 1) by {
                if k < stack.len() {
                    assert(defined_before(out, stack[k], n));
                }
            }
        },
        InstructionView::CopyLoc(x) => {
            fr.slots.index_of_first_ensures(x);
            assert(defined_before(next, n as nat, n + 1));
            assert forall|k: int| 0 <= k < rest.len() implies defined_before(next, #[trigger] rest[k], n + 1) by {
                if k < stack.len() {
                    assert(defined_before(out, stack[k], n));
                }
            }
        },
        InstructionView::StLoc(x) => {
            fr.slots.index_of_first_ensures(x);
            assert(defined_before(out, stack[stack.len() - 1], n));
            assert forall|k: int| 0 <= k < rest.len() implies defined_before(next, #[trigger] rest[k], n + 1) by {
                assert(defined_before(out, stack[k], n));
            }
        },
        InstructionView::Ret => {
            assert forall|k: int| 0 <= k < stack.len() implies defined_before(next, #[trigger] stack[k], n) by {
                assert(defined_before(out, stack[k], n));
            }
        },
        InstructionView::Branch(l) => {
            fr.labels.index_of_first_ensures(l);
        },
        _ => {
            assert(defined_before(out, stack[stack.len() - 2], n));
            assert(defined_before(out, stack[stack.len() - 1], n));
            assert(defined_before(next, n as nat, n + 1));
            assert forall|k: int| 0 <= k < rest.len() implies defined_before(next, #[trigger] rest[k], n + 1) by {
                if k < stack.len() - 2 {
                    assert(defined_before(out, stack[k], n));
                }
            }
        },
    }
}

/// The lowering of each prefix of a block is sound.
pub proof fn lemma_prefix_sound(fr: Frame, code: Seq<InstructionView>, n: int)
    requires
        0 <= n <= code.len(),
    ensures
        progress_sound(frame_shape(fr), lower_prefix(fr, code, n), n),
    decreases n,
{
    let shape = frame_shape(fr);
    if n > 0 {
        lemma_prefix_sound(fr, code, n - 1);
        match lower_prefix(fr, code, n - 1) {
            Progress::Open { code: out, stack } => {
                let ins = code[n - 1];
                if lower_step(fr, ins, (n - 1) as nat, stack) is Ok {
                    let (emitted, rest) = lower_step(fr, ins, (n - 1) as nat, stack)->Ok_0;
                    let next = out.push(emitted);
                    lemma_step_sound(fr, ins, out, stack);
                    assert forall|i: int| 0 <= i < n - 1 implies #[trigger] instruction_well_formed(
                        shape,
                        next,
                        i,
                    ) && !next[i].is_terminator() by {
                        lemma_push_keeps(shape, out, emitted, i);
                    }
                    if ends_block(ins) {
                        assert forall|i: int| 0 <= i < n implies #[trigger] instruction_in_place(shape, next, i) by {
                            if i < n - 1 {
                                assert(instruction_well_formed(shape, next, i));
                            }
                        }
                    } else {
                        assert forall|i: int| 0 <= i < n implies !(#[trigger] next[i]).is_terminator() by {
                            if i < n - 1 {
                                assert(instruction_well_formed(shape, next, i));
                            }
                        }
                    }
                }
            },
            _ => {},
        }
    }
}

/// A block that is lowered is well formed.
pub proof fn lemma_block_sound(fr: Frame, code: Seq<InstructionView>)
    requires
        fr.block < fr.labels.len(),
        lower_block_spec(fr, code) is Ok,
    ensures
        code_well_formed(frame_shape(fr), lower_block_spec(fr, code)->Ok_0),
{
    let shape = frame_shape(fr);
    let n = code.len() as int;
    lemma_prefix_sound(fr, code, n);
    match lower_prefix(fr, code, n) {
        Progress::Open { code: out, stack } => {
            let last = if !fr.last() {
                SsaView::Jump { target: fr.block + 1 }
            } else {
                SsaView::Return { values: Seq::empty() }
            };
            let next = out.push(last);
            assert(next[n] == last);
            assert forall|i: int| 0 <= i < n + 1 implies #[trigger] instruction_in_place(shape, next, i) by {
                if i < n {
                    lemma_push_keeps(shape, out, last, i);
                }
            }
        },
        _ => {},
    }
}

/// The blocks that are lowered are as many as the blocks they come from,
/// carry their labels, and are well formed.
pub proof fn lemma_blocks_sound(f: FunctionView, slots: Seq<Seq<char>>, n: int)
    requires
        0 <= n <= f.body.blocks.len(),
        lower_blocks(f, slots, n) is Ok,
    ensures
        ({
            let blocks = lower_blocks(f, slots, n)->Ok_0;
            &&& blocks.len() == n
            &&& forall|b: int|
                0 <= b < n ==> code_well_formed(
                    Shape { slots: slots.len(), blocks: f.body.blocks.len(), results: f.signature.return_arity },
                    (#[trigger] blocks[b]).code,
                )
            &&& forall|b: int| 0 <= b < n ==> (#[trigger] blocks[b]).label == f.body.blocks[b].label
        }),
    decreases n,
{
    if n > 0 {
        lemma_blocks_sound(f, slots, n - 1);
        let fr = frame_of(f, slots, (n - 1) as nat);
        lemma_block_sound(fr, f.body.blocks[n - 1].code);
        let done = lower_blocks(f, slots, n - 1)->Ok_0;
        let blocks = lower_blocks(f, slots, n)->Ok_0;
        assert forall|b: int| 0 <= b < n implies code_well_formed(
            Shape { slots: slots.len(), blocks: f.body.blocks.len(), results: f.signature.return_arity },
            (#[trigger] blocks[b]).code,
        ) by {
            if b < n - 1 {
                assert(blocks[b] == done[b]);
            }
        }
        assert forall|b: int| 0 <= b < n implies (#[trigger] blocks[b]).label == f.body.blocks[b].label by {
            if b < n - 1 {
                assert(blocks[b] == done[b]);
            }
        }
    }
}

/// Every function that the translator yields is well formed: the structural
/// check never refuses one.
pub proof fn theorem_lowering_well_formed(f: FunctionView)
    requires
        lower_function_spec(f) is Ok,
    ensures
        well_formed(lower_function_spec(f)->Ok_0),
        lower_function_spec(f)->Ok_0.blocks.len() == f.body.blocks.len(),
        lower_function_spec(f)->Ok_0.slots.len() == f.local_names().len(),
        lower_function_spec(f)->Ok_0.ty.params.len() == f.signature.formals.len(),
        lower_function_spec(f)->Ok_0.ty.results == f.signature.return_arity,
        lower_function_spec(f)->Ok_0.name == f.name,
{
    let l = lower_function_spec(f)->Ok_0;
    let slots = allocate_spec(f)->Ok_0;
    lemma_blocks_sound(f, slot_names(slots), f.body.blocks.len() as int);
    assert(l.shape() == Shape {
        slots: slot_names(slots).len(),
        blocks: f.body.blocks.len(),
        results: f.signature.return_arity,
    });
    assert forall|s: int| 0 <= s < l.slots.len() implies #[trigger] slot_well_formed(l, s) by {}
}

} // verus!
