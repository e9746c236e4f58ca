//! The stack-frame translator: lowers the blocks of a function by running
//! their instructions against a shadow operand stack that holds, in place of
//! values, the positions of the instructions that yield them.

use vstd::prelude::*;
use crate::bytecode::{FunctionDefinition, FunctionView, Instruction, InstructionView};
use crate::error::{ErrorView, TranslateError};
use crate::locals::{allocate_locals, allocate_spec, slot_names, slot_of};
use crate::lowered::{BinaryOp, LoweredBlock, LoweredBlockView, LoweredFunction, LoweredView, Slot, SsaInstruction, SsaView};
use crate::signature::{lower_signature, lower_signature_spec};

verus! {

/// What the lowering of one block depends on.
pub struct Frame {
    /// The name of the function.
    pub function: Seq<char>,
    /// The names of the function's slots, in slot order.
    pub slots: Seq<Seq<char>>,
    /// The labels of the function's blocks, in block order.
    pub labels: Seq<Seq<char>>,
    /// The number of values that the function returns.
    pub arity: nat,
    /// The position of the block that is lowered.
    pub block: nat,
}

impl Frame {
    pub open spec fn malformed(self) -> ErrorView {
        ErrorView::MalformedModule { function: Some(self.function) }
    }

    pub open spec fn underflow(self, at: nat) -> ErrorView {
        ErrorView::StackUnderflow { function: self.function, block: self.block, offset: at }
    }

    pub open spec fn unbalanced(self, at: nat) -> ErrorView {
        ErrorView::UnbalancedStack { function: self.function, block: self.block, offset: at }
    }

    /// Whether the block is the last one of the function.
    pub open spec fn last(self) -> bool {
        self.block + 1 >= self.labels.len()
    }
}

/// The frame in which block `b` of `f` is lowered, given the names of the slots.
pub open spec fn frame_of(f: FunctionView, slots: Seq<Seq<char>>, b: nat) -> Frame {
    Frame { function: f.name, slots, labels: f.labels(), arity: f.signature.return_arity, block: b }
}

/// How far the lowering of a block has come.
pub enum Progress {
    /// Every instruction so far was lowered; `stack` is the shadow operand
    /// stack, its top last.
    Open { code: Seq<SsaView>, stack: Seq<nat> },
    /// A terminator was lowered; nothing that follows it in the block is.
    Closed { code: Seq<SsaView> },
    /// An instruction was refused.
    Failed { error: ErrorView },
}

/// The operation that an arithmetic instruction stands for.
pub open spec fn operation(ins: InstructionView) -> Option<BinaryOp> {
    match ins {
        InstructionView::Add => Some(BinaryOp::Add),
        InstructionView::Sub => Some(BinaryOp::Sub),
        InstructionView::Mul => Some(BinaryOp::Mul),
        InstructionView::Div => Some(BinaryOp::Div),
        _ => None,
    }
}

/// Lowers the instruction at position `at` of a block against the shadow
/// stack `stack`: the instruction that is emitted for it, and the shadow
/// stack after it.
///
/// A load pushes its own position. A store pops the value it writes. An
/// arithmetic instruction pops its right operand, then its left one, and
/// pushes its own position. A return takes the whole stack, bottom first,
/// which has to hold exactly as many values as the function returns. A
/// branch needs an empty stack.
pub open spec fn lower_step(fr: Frame, ins: InstructionView, at: nat, stack: Seq<nat>) -> Result<
    (SsaView, Seq<nat>),
    ErrorView,
> {
    match ins {
        InstructionView::MoveLoc(x) | InstructionView::CopyLoc(x) => match fr.slots.index_of_first(x) {
            None => Err(fr.malformed()),
            Some(slot) => Ok((SsaView::Load { slot: slot as nat }, stack.push(at))),
        },
        InstructionView::StLoc(x) => match fr.slots.index_of_first(x) {
            None => Err(fr.malformed()),
            Some(slot) => if stack.len() < 1 {
                Err(fr.underflow(at))
            } else {
                Ok((SsaView::Store { slot: slot as nat, value: stack.last() }, stack.drop_last()))
            },
        },
        InstructionView::Ret => if stack.len() < fr.arity {
            Err(fr.underflow(at))
        } else if stack.len() > fr.arity {
            Err(fr.unbalanced(at))
        } else {
            Ok((SsaView::Return { values: stack }, Seq::empty()))
        },
        InstructionView::Branch(l) => match fr.labels.index_of_first(l) {
            None => Err(fr.malformed()),
            Some(target) => if stack.len() > 0 {
                Err(fr.unbalanced(at))
            } else {
                Ok((SsaView::Jump { target: target as nat }, Seq::empty()))
            },
        },
        _ => if stack.len() < 2 {
            Err(fr.underflow(at))
        } else {
            Ok(
                (
                    SsaView::Binary {
                        op: operation(ins)->Some_0,
                        lhs: stack[stack.len() - 2],
                        rhs: stack[stack.len() - 1],
                    },
                    stack.drop_last().drop_last().push(at),
                ),
            )
        },
    }
}

/// Whether the instruction ends its block.
pub open spec fn ends_block(ins: InstructionView) -> bool {
    ins is Ret || ins is Branch
}

/// The lowering of the first `n` instructions of `code`, in program order.
pub open spec fn lower_prefix(fr: Frame, code: Seq<InstructionView>, n: int) -> Progress
    decreases n,
{
    if n <= 0 {
        Progress::Open { code: Seq::empty(), stack: Seq::empty() }
    } else {
        match lower_prefix(fr, code, n - 1) {
            Progress::Open { code: out, stack } => match lower_step(fr, code[n - 1], (n - 1) as nat, stack) {
                Err(error) => Progress::Failed { error },
                Ok((ins, rest)) => if ends_block(code[n - 1]) {
                    Progress::Closed { code: out.push(ins) }
                } else {
                    Progress::Open { code: out.push(ins), stack: rest }
                },
            },
            done => done,
        }
    }
}

/// The lowering of a block. A block that does not end in a terminator of
/// its own has to leave the shadow stack empty; it then falls into the next
/// block, or, if it is the last one, returns nothing, which only a function
/// that returns no value may do.
pub open spec fn lower_block_spec(fr: Frame, code: Seq<InstructionView>) -> Result<Seq<SsaView>, ErrorView> {
    match lower_prefix(fr, code, code.len() as int) {
        Progress::Failed { error } => Err(error),
        Progress::Closed { code: out } => Ok(out),
        Progress::Open { code: out, stack } => if stack.len() > 0 {
            Err(fr.unbalanced(code.len()))
        } else if !fr.last() {
            Ok(out.push(SsaView::Jump { target: fr.block + 1 }))
        } else if fr.arity > 0 {
            Err(fr.unbalanced(code.len()))
        } else {
            Ok(out.push(SsaView::Return { values: Seq::empty() }))
        },
    }
}

/// The lowering of the first `n` blocks of `f`, in order, or the error of
/// the first block that is refused.
pub open spec fn lower_blocks(f: FunctionView, slots: Seq<Seq<char>>, n: int) -> Result<
    Seq<LoweredBlockView>,
    ErrorView,
>
    decreases n,
{
    if n <= 0 {
        Ok(Seq::empty())
    } else {
        match lower_blocks(f, slots, n - 1) {
            Err(e) => Err(e),
            Ok(done) => match lower_block_spec(frame_of(f, slots, (n - 1) as nat), f.body.blocks[n - 1].code) {
                Err(e) => Err(e),
                Ok(code) => Ok(done.push(LoweredBlockView { label: f.body.blocks[n - 1].label, code })),
            },
        }
    }
}

/// The lowering of a function: its target type, its slots and its blocks,
/// not yet marked as verified. A function without a block is malformed.
/// The signature is lowered first, then the locals are allocated, then the
/// blocks are lowered in order; the first failure is the function's.
pub open spec fn lower_function_spec(f: FunctionView) -> Result<LoweredView, ErrorView> {
    if f.body.blocks.len() == 0 {
        Err(ErrorView::MalformedModule { function: Some(f.name) })
    } else {
        match lower_signature_spec(f.name, f.signature) {
            Err(e) => Err(e),
            Ok(ty) => match allocate_spec(f) {
                Err(e) => Err(e),
                Ok(slots) => match lower_blocks(f, slot_names(slots), f.body.blocks.len() as int) {
                    Err(e) => Err(e),
                    Ok(blocks) => Ok(LoweredView { name: f.name, ty, slots, blocks, verified: false }),
                },
            },
        }
    }
}

/// Once a block is closed or refused, the instructions that follow change nothing.
pub proof fn lemma_prefix_settled(fr: Frame, code: Seq<InstructionView>, n: int, m: int)
    requires
        n <= m,
        !(lower_prefix(fr, code, n) is Open),
    ensures
        lower_prefix(fr, code, m) == lower_prefix(fr, code, n),
    decreases m - n,
{
    if n < m {
        lemma_prefix_settled(fr, code, n, m - 1);
    }
}

/// The view of a shadow stack.
pub open spec fn stack_view(stack: Seq<usize>) -> Seq<nat> {
    stack.map_values(|v: usize| v as nat)
}

/// The views of lowered instructions.
pub open spec fn code_view(code: Seq<SsaInstruction>) -> Seq<SsaView> {
    code.map_values(|i: SsaInstruction| i@)
}

/// The operation that an arithmetic instruction stands for.
fn operation_of(ins: &Instruction) -> (op: Option<BinaryOp>)
    ensures
        op == operation(ins@),
{
    match ins {
        Instruction::Add => Some(BinaryOp::Add),
        Instruction::Sub => Some(BinaryOp::Sub),
        Instruction::Mul => Some(BinaryOp::Mul),
        Instruction::Div => Some(BinaryOp::Div),
        _ => None,
    }
}

/// Lowers block `b` of `f`, whose slots are `slots`.
pub fn lower_block(f: &FunctionDefinition, slots: &Vec<Slot>, b: usize) -> (block: Result<
    LoweredBlock,
    TranslateError,
>)
    requires
        b < f.body.blocks.len(),
    ensures
        match lower_block_spec(
            frame_of(f@, slot_names(slots@.map_values(|s: Slot| s@)), b as nat),
            f@.body.blocks[b as int].code,
        ) {
            Ok(code) => block matches Ok(x) && x@ == (LoweredBlockView {
                label: f@.body.blocks[b as int].label,
                code,
            }),
            Err(e) => block matches Err(x) && x@ == e,
        },
{
    let ghost fr = frame_of(f@, slot_names(slots@.map_values(|s: Slot| s@)), b as nat);
    let ghost src = f@.body.blocks[b as int].code;
    let source = &f.body.blocks[b];
    let arity = f.signature.return_arity;
    assert(f@.body.blocks[b as int] == source@);
    assert(fr.labels.len() == f.body.blocks.len());
    let mut out: Vec<SsaInstruction> = Vec::new();
    let mut stack: Vec<usize> = Vec::new();
    let mut i: usize = 0;
    assert(code_view(out@) =~= Seq::empty());
    assert(stack_view(stack@) =~= Seq::empty());
    while i < source.code.len()
        invariant
            i <= source.code.len(),
            b < f.body.blocks.len(),
            source == &f.body.blocks[b as int],
            src == source@.code,
            src.len() == source.code.len(),
            arity == fr.arity,
            fr == frame_of(f@, slot_names(slots@.map_values(|s: Slot| s@)), b as nat),
            lower_prefix(fr, src, i as int) == (Progress::Open { code: code_view(out@), stack: stack_view(stack@) }),
        decreases source.code.len() - i,
    {
        let ins = &source.code[i];
        assert(src[i as int] == ins@);
        let ghost before = stack_view(stack@);
        let ghost emitted = code_view(out@);
        let ghost step = lower_step(fr, ins@, i as nat, before);
        match ins {
            Instruction::MoveLoc(x) | Instruction::CopyLoc(x) => {
                match slot_of(slots, x) {
                    None => {
                        proof {
                            lemma_prefix_settled(fr, src, i + 1, src.len() as int);
                        }
                        return Err(TranslateError::MalformedModule { function: Some(f.name.clone()) });
                    },
                    Some(slot) => {
                        out.push(SsaInstruction::Load { slot });
                        stack.push(i);
                    },
                }
            },
            Instruction::StLoc(x) => {
                match slot_of(slots, x) {
                    None => {
                        proof {
                            lemma_prefix_settled(fr, src, i + 1, src.len() as int);
                        }
                        return Err(TranslateError::MalformedModule { function: Some(f.name.clone()) });
                    },
                    Some(slot) => {
                        match stack.pop() {
                            None => {
                                proof {
                                    lemma_prefix_settled(fr, src, i + 1, src.len() as int);
                                }
                                return Err(
                                    TranslateError::StackUnderflow { function: f.name.clone(), block: b, offset: i },
                                );
                            },
                            Some(value) => {
                                out.push(SsaInstruction::Store { slot, value });
                            },
                        }
                    },
                }
            },
            Instruction::Ret => {
                if stack.len() < arity {
                    proof {
                        lemma_prefix_settled(fr, src, i + 1, src.len() as int);
                    }
                    return Err(TranslateError::StackUnderflow { function: f.name.clone(), block: b, offset: i });
                }
                if stack.len() > arity {
                    proof {
                        lemma_prefix_settled(fr, src, i + 1, src.len() as int);
                    }
                    return Err(TranslateError::UnbalancedStack { function: f.name.clone(), block: b, offset: i });
                }
                out.push(SsaInstruction::Return { values: stack });
                proof {
                    assert(code_view(out@) =~= emitted.push(step->Ok_0.0));
                    lemma_prefix_settled(fr, src, i + 1, src.len() as int);
                }
                return Ok(LoweredBlock { label: source.label.clone(), code: out });
            },
            Instruction::Branch(l) => {
                match f.find_block(l) {
                    None => {
                        proof {
                            lemma_prefix_settled(fr, src, i + 1, src.len() as int);
                        }
                        return Err(TranslateError::MalformedModule { function: Some(f.name.clone()) });
                    },
                    Some(target) => {
                        if stack.len() > 0 {
                            proof {
                                lemma_prefix_settled(fr, src, i + 1, src.len() as int);
                            }
                            return Err(
                                TranslateError::UnbalancedStack { function: f.name.clone(), block: b, offset: i },
                            );
                        }
                        out.push(SsaInstruction::Jump { target });
                        proof {
                            assert(code_view(out@) =~= emitted.push(step->Ok_0.0));
                            lemma_prefix_settled(fr, src, i + 1, src.len() as int);
                        }
                        return Ok(LoweredBlock { label: source.label.clone(), code: out });
                    },
                }
            },
            _ => {
                let op = operation_of(ins);
                if stack.len() < 2 {
                    proof {
                        lemma_prefix_settled(fr, src, i + 1, src.len() as int);
                    }
                    return Err(TranslateError::StackUnderflow { function: f.name.clone(), block: b, offset: i });
                }
                let rhs = stack.pop().unwrap();
                let lhs = stack.pop().unwrap();
                out.push(SsaInstruction::Binary { op: op.unwrap(), lhs, rhs });
                stack.push(i);
            },
        }
        proof {
            assert(code_view(out@) =~= emitted.push(step->Ok_0.0));
            assert(stack_view(stack@) =~= step->Ok_0.1);
        }
        i += 1;
    }
    if stack.len() > 0 {
        return Err(TranslateError::UnbalancedStack { function: f.name.clone(), block: b, offset: i });
    }
    let ghost emitted = code_view(out@);
    if b + 1 < f.body.blocks.len() {
        out.push(SsaInstruction::Jump { target: b + 1 });
        assert(code_view(out@) =~= emitted.push(SsaView::Jump { target: (b + 1) as nat }));
    } else if arity > 0 {
        return Err(TranslateError::UnbalancedStack { function: f.name.clone(), block: b, offset: i });
    } else {
        let values: Vec<usize> = Vec::new();
        assert(stack_view(values@) =~= Seq::empty());
        out.push(SsaInstruction::Return { values });
        assert(code_view(out@) =~= emitted.push(SsaView::Return { values: Seq::empty() }));
    }
    Ok(LoweredBlock { label: source.label.clone(), code: out })
}

/// Lowers one function. Nothing is kept from one call to the next: the
/// slots and the shadow stack are made anew for each function.
pub fn lower_function(f: &FunctionDefinition) -> (lowered: Result<LoweredFunction, TranslateError>)
    ensures
        match lower_function_spec(f@) {
            Ok(l) => lowered matches Ok(x) && x@ == l,
            Err(e) => lowered matches Err(x) && x@ == e,
        },
{
    if f.body.blocks.len() == 0 {
        return Err(TranslateError::MalformedModule { function: Some(f.name.clone()) });
    }
    let ty = match lower_signature(&f.name, &f.signature) {
        Ok(ty) => ty,
        Err(e) => {
            return Err(e);
        },
    };
    let slots = match allocate_locals(f) {
        Ok(slots) => slots,
        Err(e) => {
            return Err(e);
        },
    };
    let ghost names = slot_names(slots@.map_values(|s: Slot| s@));
    let mut blocks: Vec<LoweredBlock> = Vec::new();
    let mut b: usize = 0;
    assert(blocks@.map_values(|x: LoweredBlock| x@) =~= Seq::empty());
    while b < f.body.blocks.len()
        invariant
            b <= f.body.blocks.len(),
            f@.body.blocks.len() == f.body.blocks.len(),
            names == slot_names(slots@.map_values(|s: Slot| s@)),
            lower_signature_spec(f@.name, f@.signature) is Ok,
            allocate_spec(f@) == Ok::<Seq<crate::lowered::SlotView>, ErrorView>(slots@.map_values(|s: Slot| s@)),
            lower_blocks(f@, names, b as int) == Ok::<Seq<LoweredBlockView>, ErrorView>(
                blocks@.map_values(|x: LoweredBlock| x@),
            ),
        decreases f.body.blocks.len() - b,
    {
        let ghost done = blocks@.map_values(|x: LoweredBlock| x@);
        match lower_block(f, &slots, b) {
            Err(e) => {
                proof {
                    assert(lower_blocks(f@, names, b + 1) == Err::<Seq<LoweredBlockView>, ErrorView>(e@));
                    lemma_blocks_settled(f@, names, b + 1, f@.body.blocks.len() as int);
                }
                return Err(e);
            },
            Ok(block) => {
                blocks.push(block);
                assert(blocks@.map_values(|x: LoweredBlock| x@) =~= done.push(block@));
            },
        }
        b += 1;
    }
    Ok(LoweredFunction { name: f.name.clone(), ty, slots, blocks, verified: false })
}

/// Once a block is refused, the blocks that follow change nothing.
pub proof fn lemma_blocks_settled(f: FunctionView, slots: Seq<Seq<char>>, n: int, m: int)
    requires
        n <= m,
        lower_blocks(f, slots, n) is Err,
    ensures
        lower_blocks(f, slots, m) == lower_blocks(f, slots, n),
    decreases m - n,
{
    if n < m {
        lemma_blocks_settled(f, slots, n, m - 1);
    }
}

} // verus!
