//! What the two forms of a function compute, and that lowering keeps it.
//!
//! Both machines work on mathematical integers that stand for the numbers
//! of the target, and both take the meaning of the arithmetic operations
//! as a parameter: what is proved holds whatever the operations compute.

use vstd::prelude::*;
use crate::bytecode::{FunctionView, InstructionView};
use crate::locals::{allocate_spec, slot_names};
use crate::lowered::{BinaryOp, LoweredView, SsaView};
use crate::lowering::{frame_of, lemma_prefix_settled, lower_block_spec, lower_blocks, lower_function_spec, lower_prefix, lower_step, operation, Frame, Progress};

verus! {

/// The state of the stack machine while it runs a block.
pub enum SourceState {
    /// The operand stack, its top last, and the binding of each local.
    Running { stack: Seq<int>, locals: Seq<Option<int>> },
    /// The function returned the values, first return value first.
    Returned { values: Seq<int> },
    /// Control leaves the block for the start of block `target`.
    Jumped { target: nat, stack: Seq<int>, locals: Seq<Option<int>> },
    /// The machine cannot go on: an operand is missing, or the local that
    /// is read has no binding, because none was stored yet or because it was
    /// moved out.
    Stuck,
}

/// One instruction of the stack machine.
pub open spec fn source_step(
    fr: Frame,
    arith: spec_fn(BinaryOp, int, int) -> int,
    ins: InstructionView,
    stack: Seq<int>,
    locals: Seq<Option<int>>,
) -> SourceState {
    match ins {
        InstructionView::MoveLoc(x) => match fr.slots.index_of_first(x) {
            Some(s) => if s < locals.len() && locals[s] is Some {
                SourceState::Running { stack: stack.push(locals[s].unwrap()), locals: locals.update(s, None) }
            } else {
                SourceState::Stuck
            },
            None => SourceState::Stuck,
        },
        InstructionView::CopyLoc(x) => match fr.slots.index_of_first(x) {
            Some(s) => if s < locals.len() && locals[s] is Some {
                SourceState::Running { stack: stack.push(locals[s].unwrap()), locals }
            } else {
                SourceState::Stuck
            },
            None => SourceState::Stuck,
        },
        InstructionView::StLoc(x) => match fr.slots.index_of_first(x) {
            Some(s) => if s < locals.len() && stack.len() >= 1 {
                SourceState::Running { stack: stack.drop_last(), locals: locals.update(s, Some(stack.last())) }
            } else {
                SourceState::Stuck
            },
            None => SourceState::Stuck,
        },
        InstructionView::Ret => if stack.len() >= fr.arity {
            SourceState::Returned { values: stack.subrange(stack.len() - fr.arity, stack.len() as int) }
        } else {
            SourceState::Stuck
        },
        InstructionView::Branch(l) => match fr.labels.index_of_first(l) {
            Some(target) => SourceState::Jumped { target: target as nat, stack, locals },
            None => SourceState::Stuck,
        },
        _ => if stack.len() >= 2 {
            SourceState::Running {
                stack: stack.drop_last().drop_last().push(
                    arith(operation(ins).unwrap(), stack[stack.len() - 2], stack[stack.len() - 1]),
                ),
                locals,
            }
        } else {
            SourceState::Stuck
        },
    }
}

/// The state of the stack machine after the first `n` instructions of a
/// block that it entered with `stack` and `locals`.
pub open spec fn source_prefix(
    fr: Frame,
    arith: spec_fn(BinaryOp, int, int) -> int,
    code: Seq<InstructionView>,
    n: int,
    stack: Seq<int>,
    locals: Seq<Option<int>>,
) -> SourceState
    decreases n,
{
    if n <= 0 {
        SourceState::Running { stack, locals }
    } else {
        match source_prefix(fr, arith, code, n - 1, stack, locals) {
            SourceState::Running { stack: s, locals: l } => source_step(fr, arith, code[n - 1], s, l),
            other => other,
        }
    }
}

/// How the stack machine leaves a block. From the end of a block it falls
/// into the next one; from the end of the last one a function that returns
/// nothing returns.
pub open spec fn source_block(
    fr: Frame,
    arith: spec_fn(BinaryOp, int, int) -> int,
    code: Seq<InstructionView>,
    stack: Seq<int>,
    locals: Seq<Option<int>>,
) -> SourceState {
    match source_prefix(fr, arith, code, code.len() as int, stack, locals) {
        SourceState::Running { stack: s, locals: l } => if !fr.last() {
            SourceState::Jumped { target: fr.block + 1, stack: s, locals: l }
        } else if fr.arity == 0 {
            SourceState::Returned { values: Seq::empty() }
        } else {
            SourceState::Stuck
        },
        other => other,
    }
}

/// What the function returns when the stack machine enters block `block`
/// with `stack` and `locals` and passes through at most `fuel` blocks.
pub open spec fn source_run(
    f: FunctionView,
    arith: spec_fn(BinaryOp, int, int) -> int,
    block: nat,
    stack: Seq<int>,
    locals: Seq<Option<int>>,
    fuel: nat,
) -> Option<Seq<int>>
    decreases fuel,
{
    if fuel == 0 || block >= f.body.blocks.len() {
        None
    } else {
        match source_block(frame_of(f, f.local_names(), block), arith, f.body.blocks[block as int].code, stack, locals) {
            SourceState::Returned { values } => Some(values),
            SourceState::Jumped { target, stack: s, locals: l } => source_run(
                f,
                arith,
                target,
                s,
                l,
                (fuel - 1) as nat,
            ),
            _ => None,
        }
    }
}

/// The bindings with which a function is entered: each formal is bound to
/// its argument, no other local is bound.
pub open spec fn entry_locals(f: FunctionView, args: Seq<int>) -> Seq<Option<int>> {
    Seq::new(
        f.local_names().len(),
        |i: int|
            if i < f.signature.formals.len() {
                Some(args[i])
            } else {
                None
            },
    )
}

/// What a call of the function returns on the stack machine, if it returns
/// within `fuel` blocks.
pub open spec fn source_call(
    f: FunctionView,
    arith: spec_fn(BinaryOp, int, int) -> int,
    args: Seq<int>,
    fuel: nat,
) -> Option<Seq<int>> {
    source_run(f, arith, 0, Seq::empty(), entry_locals(f, args), fuel)
}

/// The state of the explicit-value machine while it runs a block.
pub enum TargetState {
    /// The value of each instruction so far, and the content of each slot.
    Running { values: Seq<int>, memory: Seq<int> },
    Returned { values: Seq<int> },
    Jumped { target: nat, memory: Seq<int> },
    /// An instruction names a slot or a value that is not there.
    Stuck,
}

/// One instruction of the explicit-value machine. A store stands for the
/// value it stores.
pub open spec fn target_step(
    arith: spec_fn(BinaryOp, int, int) -> int,
    ins: SsaView,
    values: Seq<int>,
    memory: Seq<int>,
) -> TargetState {
    match ins {
        SsaView::Load { slot } => if slot < memory.len() {
            TargetState::Running { values: values.push(memory[slot as int]), memory }
        } else {
            TargetState::Stuck
        },
        SsaView::Store { slot, value } => if slot < memory.len() && value < values.len() {
            TargetState::Running {
                values: values.push(values[value as int]),
                memory: memory.update(slot as int, values[value as int]),
            }
        } else {
            TargetState::Stuck
        },
        SsaView::Binary { op, lhs, rhs } => if lhs < values.len() && rhs < values.len() {
            TargetState::Running { values: values.push(arith(op, values[lhs as int], values[rhs as int])), memory }
        } else {
            TargetState::Stuck
        },
        SsaView::Return { values: returned } => TargetState::Returned {
            values: Seq::new(returned.len(), |k: int| values[returned[k] as int]),
        },
        SsaView::Jump { target } => TargetState::Jumped { target, memory },
    }
}

/// The state of the explicit-value machine after the first `n`
/// instructions of a block that it entered with `memory`.
pub open spec fn target_prefix(
    arith: spec_fn(BinaryOp, int, int) -> int,
    code: Seq<SsaView>,
    n: int,
    memory: Seq<int>,
) -> TargetState
    decreases n,
{
    if n <= 0 {
        TargetState::Running { values: Seq::empty(), memory }
    } else {
        match target_prefix(arith, code, n - 1, memory) {
            TargetState::Running { values: v, memory: m } => target_step(arith, code[n - 1], v, m),
            other => other,
        }
    }
}

/// How the explicit-value machine leaves a block.
pub open spec fn target_block(
    arith: spec_fn(BinaryOp, int, int) -> int,
    code: Seq<SsaView>,
    memory: Seq<int>,
) -> TargetState {
    match target_prefix(arith, code, code.len() as int, memory) {
        TargetState::Running { .. } => TargetState::Stuck,
        other => other,
    }
}

/// What the function returns when the explicit-value machine enters block
/// `block` with `memory` and passes through at most `fuel` blocks.
pub open spec fn target_run(
    l: LoweredView,
    arith: spec_fn(BinaryOp, int, int) -> int,
    block: nat,
    memory: Seq<int>,
    fuel: nat,
) -> Option<Seq<int>>
    decreases fuel,
{
    if fuel == 0 || block >= l.blocks.len() {
        None
    } else {
        match target_block(arith, l.blocks[block as int].code, memory) {
            TargetState::Returned { values } => Some(values),
            TargetState::Jumped { target, memory: m } => target_run(l, arith, target, m, (fuel - 1) as nat),
            _ => None,
        }
    }
}

/// The memory with which a lowered function is entered: a slot that is
/// initialized holds its argument; any other holds what `junk` has there.
pub open spec fn entry_memory(l: LoweredView, args: Seq<int>, junk: Seq<int>) -> Seq<int> {
    Seq::new(
        l.slots.len(),
        |s: int|
            match l.slots[s].init {
                Some(k) => args[k as int],
                None => junk[s],
            },
    )
}

/// What a call of the lowered function returns, if it returns within
/// `fuel` blocks.
pub open spec fn target_call(
    l: LoweredView,
    arith: spec_fn(BinaryOp, int, int) -> int,
    args: Seq<int>,
    junk: Seq<int>,
    fuel: nat,
) -> Option<Seq<int>> {
    target_run(l, arith, 0, entry_memory(l, args, junk), fuel)
}

/// Every local that is bound has its value in its slot.
pub open spec fn locals_in_memory(locals: Seq<Option<int>>, memory: Seq<int>) -> bool {
    &&& locals.len() == memory.len()
    &&& forall|s: int| 0 <= s < locals.len() && (#[trigger] locals[s]) is Some ==> memory[s] == locals[s].unwrap()
}

/// Every entry of the operand stack is the value of the instruction that
/// the shadow stack names in its place.
pub open spec fn stack_in_values(stack: Seq<int>, shadow: Seq<nat>, values: Seq<int>) -> bool {
    &&& stack.len() == shadow.len()
    &&& forall|k: int|
        0 <= k < shadow.len() ==> (#[trigger] shadow[k]) < values.len() && values[shadow[k] as int] == stack[k]
}

/// After `n` instructions of a block, the two machines agree.
pub open spec fn simulated(
    fr: Frame,
    arith: spec_fn(BinaryOp, int, int) -> int,
    code: Seq<InstructionView>,
    n: int,
    locals: Seq<Option<int>>,
    memory: Seq<int>,
) -> bool {
    let lowered = lower_prefix(fr, code, n);
    match source_prefix(fr, arith, code, n, Seq::empty(), locals) {
        SourceState::Stuck => true,
        SourceState::Running { stack: s, locals: l } => match lowered {
            Progress::Open { code: out, stack: shadow } => match target_prefix(arith, out, n, memory) {
                TargetState::Running { values: v, memory: m } => {
                    &&& out.len() == n
                    &&& v.len() == n
                    &&& stack_in_values(s, shadow, v)
                    &&& locals_in_memory(l, m)
                },
                _ => false,
            },
            _ => false,
        },
        SourceState::Returned { values } => match lowered {
            Progress::Closed { code: out } => target_prefix(arith, out, out.len() as int, memory)
                == (TargetState::Returned { values }),
            _ => false,
        },
        SourceState::Jumped { target, stack: s, locals: l } => match lowered {
            Progress::Closed { code: out } => match target_prefix(arith, out, out.len() as int, memory) {
                TargetState::Jumped { target: t, memory: m } => {
                    &&& t == target
                    &&& t < fr.labels.len()
                    &&& s.len() == 0
                    &&& locals_in_memory(l, m)
                },
                _ => false,
            },
            _ => false,
        },
    }
}

/// What the machine does with the first instructions of a block does not
/// depend on an instruction that is appended to it.
proof fn lemma_target_prefix_push(
    arith: spec_fn(BinaryOp, int, int) -> int,
    code: Seq<SsaView>,
    x: SsaView,
    n: int,
    memory: Seq<int>,
)
    requires
        0 <= n <= code.len(),
    ensures
        target_prefix(arith, code.push(x), n, memory) == target_prefix(arith, code, n, memory),
    decreases n,
{
    if n > 0 {
        lemma_target_prefix_push(arith, code, x, n - 1, memory);
        assert(code.push(x)[n - 1] == code[n - 1]);
    }
}

/// One step keeps the two machines in agreement.
proof fn lemma_step_simulates(
    fr: Frame,
    arith: spec_fn(BinaryOp, int, int) -> int,
    code: Seq<InstructionView>,
    n: int,
    locals: Seq<Option<int>>,
    memory: Seq<int>,
)
    requires
        0 < n <= code.len(),
        simulated(fr, arith, code, n - 1, locals, memory),
        !(lower_prefix(fr, code, n) is Failed),
        source_prefix(fr, arith, code, n - 1, Seq::empty(), locals) is Running,
    ensures
        simulated(fr, arith, code, n, locals, memory),
{
    let ins = code[n - 1];
    match source_prefix(fr, arith, code, n - 1, Seq::empty(), locals) {
        SourceState::Running { stack: s, locals: l } => {
            match lower_prefix(fr, code, n - 1) {
                Progress::Open { code: out, stack: shadow } => {
                    match target_prefix(arith, out, n - 1, memory) {
                        TargetState::Running { values: v, memory: m } => {
                            let (x, rest) = lower_step(fr, ins, (n - 1) as nat, shadow)->Ok_0;
                            let next = out.push(x);
                            lemma_target_prefix_push(arith, out, x, n - 1, memory);
                            assert(next[n - 1] == x);
                            assert(target_prefix(arith, next, n, memory) == target_step(arith, x, v, m));
                            match ins {
                                InstructionView::MoveLoc(name) => {
                                    fr.slots.index_of_first_ensures(name);
                                    let after = source_step(fr, arith, ins, s, l);
                                    if after is Running {
                                        let slot = fr.slots.index_of_first(name).unwrap();
                                        assert(l[slot] is Some);
                                        let v2 = v.push(m[slot]);
                                        assert(stack_in_values(s.push(l[slot].unwrap()), shadow.push((n - 1) as nat), v2));
                                        assert(locals_in_memory(l.update(slot, None), m));
                                    }
                                },
                                InstructionView::CopyLoc(name) => {
                                    fr.slots.index_of_first_ensures(name);
                                    let after = source_step(fr, arith, ins, s, l);
                                    if after is Running {
                                        let slot = fr.slots.index_of_first(name).unwrap();
                                        assert(l[slot] is Some);
                                        let v2 = v.push(m[slot]);
                                        assert(stack_in_values(s.push(l[slot].unwrap()), shadow.push((n - 1) as nat), v2));
                                    }
                                },
                                InstructionView::StLoc(name) => {
                                    fr.slots.index_of_first_ensures(name);
                                    let after = source_step(fr, arith, ins, s, l);
                                    if after is Running {
                                        let slot = fr.slots.index_of_first(name).unwrap();
                                        let top = shadow.last();
                                        assert(shadow[shadow.len() - 1] == top);
                                        assert(v[top as int] == s.last());
                                        let v2 = v.push(v[top as int]);
                                        assert(stack_in_values(s.drop_last(), shadow.drop_last(), v2)) by {
                                            assert forall|k: int| 0 <= k < shadow.drop_last().len() implies (
                                            #[trigger] shadow.drop_last()[k]) < v2.len() && v2[shadow.drop_last()[k] as int]
                                                == s.drop_last()[k] by {
                                                assert(shadow.drop_last()[k] == shadow[k]);
                                            }
                                        }
                                        assert(locals_in_memory(
                                            l.update(slot, Some(s.last())),
                                            m.update(slot, v[top as int]),
                                        ));
                                    }
                                },
                                InstructionView::Ret => {
                                    let after = source_step(fr, arith, ins, s, l);
                                    if after is Returned {
                                        assert(s.len() == fr.arity);
                                        assert(s.subrange(0, s.len() as int) =~= s);
                                        assert(Seq::new(shadow.len(), |k: int| v[shadow[k] as int]) =~= s);
                                        assert(next.len() == n);
                                    }
                                },
                                InstructionView::Branch(label) => {
                                    fr.labels.index_of_first_ensures(label);
                                    assert(next.len() == n);
                                },
                                _ => {
                                    let after = source_step(fr, arith, ins, s, l);
                                    if after is Running {
                                        let a = shadow[shadow.len() - 2];
                                        let b = shadow[shadow.len() - 1];
                                        assert(v[a as int] == s[s.len() - 2]);
                                        assert(v[b as int] == s[s.len() - 1]);
                                        let op = operation(ins).unwrap();
                                        let value = arith(op, v[a as int], v[b as int]);
                                        let v2 = v.push(value);
                                        let s2 = s.drop_last().drop_last().push(value);
                                        let shadow2 = shadow.drop_last().drop_last().push((n - 1) as nat);
                                        assert(stack_in_values(s2, shadow2, v2)) by {
                                            assert forall|k: int| 0 <= k < shadow2.len() implies (#[trigger] shadow2[k])
                                                < v2.len() && v2[shadow2[k] as int] == s2[k] by {
                                                if k < shadow2.len() - 1 {
                                                    assert(shadow2[k] == shadow[k]);
                                                }
                                            }
                                        }
                                    }
                                },
                            }
                        },
                        _ => {},
                    }
                },
                _ => {},
            }
        },
        _ => {},
    }
}

/// After each prefix of a block that is lowered, the two machines agree.
proof fn lemma_prefix_simulates(
    fr: Frame,
    arith: spec_fn(BinaryOp, int, int) -> int,
    code: Seq<InstructionView>,
    n: int,
    locals: Seq<Option<int>>,
    memory: Seq<int>,
)
    requires
        0 <= n <= code.len(),
        locals_in_memory(locals, memory),
        !(lower_prefix(fr, code, code.len() as int) is Failed),
    ensures
        simulated(fr, arith, code, n, locals, memory),
    decreases n,
{
    if n > 0 {
        lemma_prefix_simulates(fr, arith, code, n - 1, locals, memory);
        if lower_prefix(fr, code, n) is Failed {
            lemma_prefix_settled(fr, code, n, code.len() as int);
        }
        if lower_prefix(fr, code, n - 1) is Failed {
            lemma_prefix_settled(fr, code, n - 1, code.len() as int);
        }
        if source_prefix(fr, arith, code, n - 1, Seq::empty(), locals) is Running {
            lemma_step_simulates(fr, arith, code, n, locals, memory);
        }
    } else {
        assert(stack_in_values(Seq::empty(), Seq::empty(), Seq::empty()));
    }
}

/// The two machines leave a block that is lowered in the same way.
pub open spec fn same_exit(fr: Frame, source: SourceState, target: TargetState) -> bool {
    match source {
        SourceState::Returned { values } => target == (TargetState::Returned { values }),
        SourceState::Jumped { target: to, stack, locals } => match target {
            TargetState::Jumped { target: t, memory } => {
                &&& t == to
                &&& t < fr.labels.len()
                &&& stack.len() == 0
                &&& locals_in_memory(locals, memory)
            },
            _ => false,
        },
        _ => true,
    }
}

/// A block and its lowering are left in the same way, where the stack
/// machine leaves the block at all.
pub proof fn lemma_block_simulates(
    fr: Frame,
    arith: spec_fn(BinaryOp, int, int) -> int,
    code: Seq<InstructionView>,
    locals: Seq<Option<int>>,
    memory: Seq<int>,
)
    requires
        fr.block < fr.labels.len(),
        lower_block_spec(fr, code) is Ok,
        locals_in_memory(locals, memory),
    ensures
        same_exit(
            fr,
            source_block(fr, arith, code, Seq::empty(), locals),
            target_block(arith, lower_block_spec(fr, code)->Ok_0, memory),
        ),
{
    let n = code.len() as int;
    lemma_prefix_simulates(fr, arith, code, n, locals, memory);
    match lower_prefix(fr, code, n) {
        Progress::Open { code: out, stack: shadow } => {
            let last = if !fr.last() {
                SsaView::Jump { target: fr.block + 1 }
            } else {
                SsaView::Return { values: Seq::empty() }
            };
            let next = out.push(last);
            match source_prefix(fr, arith, code, n, Seq::empty(), locals) {
                SourceState::Running { stack: s, locals: l } => {
                    lemma_target_prefix_push(arith, out, last, n, memory);
                    assert(next[n] == last);
                    assert(next.len() == n + 1);
                    match target_prefix(arith, out, n, memory) {
                        TargetState::Running { values: v, memory: m } => {
                            assert(target_prefix(arith, next, n + 1, memory) == target_step(arith, last, v, m));
                            if fr.last() {
                                assert(Seq::new(0, |k: int| v[Seq::<nat>::empty()[k] as int]) =~= Seq::<int>::empty());
                            }
                        },
                        _ => {},
                    }
                },
                _ => {},
            }
        },
        _ => {},
    }
}

/// The block at position `b` of a function that is lowered is the
/// lowering of the function's block at position `b`.
pub proof fn lemma_blocks_index(f: FunctionView, slots: Seq<Seq<char>>, n: int, b: int)
    requires
        0 <= b < n,
        lower_blocks(f, slots, n) is Ok,
    ensures
        lower_blocks(f, slots, n)->Ok_0.len() == n,
        lower_block_spec(frame_of(f, slots, b as nat), f.body.blocks[b].code) is Ok,
        lower_blocks(f, slots, n)->Ok_0[b].code == lower_block_spec(
            frame_of(f, slots, b as nat),
            f.body.blocks[b].code,
        )->Ok_0,
    decreases n,
{
    lemma_blocks_len(f, slots, n);
    lemma_blocks_len(f, slots, n - 1);
    if b < n - 1 {
        lemma_blocks_index(f, slots, n - 1, b);
    }
}

proof fn lemma_blocks_len(f: FunctionView, slots: Seq<Seq<char>>, n: int)
    requires
        0 <= n,
        lower_blocks(f, slots, n) is Ok,
    ensures
        lower_blocks(f, slots, n)->Ok_0.len() == n,
    decreases n,
{
    if n > 0 {
        lemma_blocks_len(f, slots, n - 1);
    }
}

/// From agreeing states at the start of a block, the two machines return
/// the same values.
proof fn lemma_run_simulates(
    f: FunctionView,
    arith: spec_fn(BinaryOp, int, int) -> int,
    block: nat,
    locals: Seq<Option<int>>,
    memory: Seq<int>,
    fuel: nat,
)
    requires
        lower_function_spec(f) is Ok,
        locals_in_memory(locals, memory),
        source_run(f, arith, block, Seq::empty(), locals, fuel) is Some,
    ensures
        target_run(lower_function_spec(f)->Ok_0, arith, block, memory, fuel) == source_run(
            f,
            arith,
            block,
            Seq::empty(),
            locals,
            fuel,
        ),
    decreases fuel,
{
    let l = lower_function_spec(f)->Ok_0;
    let slots = allocate_spec(f)->Ok_0;
    let names = slot_names(slots);
    assert(names =~= f.local_names());
    let count = f.body.blocks.len() as int;
    lemma_blocks_index(f, names, count, block as int);
    let fr = frame_of(f, names, block);
    let code = f.body.blocks[block as int].code;
    lemma_block_simulates(fr, arith, code, locals, memory);
    match source_block(fr, arith, code, Seq::empty(), locals) {
        SourceState::Jumped { target, stack: s, locals: next } => {
            match target_block(arith, l.blocks[block as int].code, memory) {
                TargetState::Jumped { target: t, memory: m } => {
                    assert(s =~= Seq::empty());
                    lemma_run_simulates(f, arith, target, next, m, (fuel - 1) as nat);
                },
                _ => {},
            }
        },
        _ => {},
    }
}

/// Lowering keeps the meaning of a function. Whatever the arithmetic
/// operations compute and whatever the slots of the declared locals hold at
/// entry: if a call of the function returns on the stack machine, the call
/// of the lowered function with the same arguments returns the same values,
/// through as many blocks.
///
/// A call that gets stuck on the stack machine, as one that reads a local
/// after it was moved out, has no meaning to keep.
pub proof fn theorem_lowering_preserves_meaning(
    f: FunctionView,
    arith: spec_fn(BinaryOp, int, int) -> int,
    args: Seq<int>,
    junk: Seq<int>,
    fuel: nat,
)
    requires
        lower_function_spec(f) is Ok,
        source_call(f, arith, args, fuel) is Some,
    ensures
        target_call(lower_function_spec(f)->Ok_0, arith, args, junk, fuel) == source_call(f, arith, args, fuel),
{
    let l = lower_function_spec(f)->Ok_0;
    let locals = entry_locals(f, args);
    let memory = entry_memory(l, args, junk);
    assert(locals_in_memory(locals, memory));
    lemma_run_simulates(f, arith, 0, locals, memory, fuel);
}

} // verus!
