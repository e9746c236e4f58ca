//! Laws of the lowering that relate several of its parts.

use vstd::prelude::*;
use crate::bytecode::{FunctionView, InstructionView, ModuleView};
use crate::error::ErrorView;
use crate::ingest::{block_ok, function_ok, ingest_spec, instruction_ok, module_ok};
use crate::locals::{allocate_spec, lemma_no_duplicate_distinct, slot_names};
use crate::lowered::LoweredView;
use crate::lowering::{frame_of, lemma_prefix_settled, lower_block_spec, lower_blocks, lower_function_spec, lower_prefix, lower_step, Frame, Progress};
use crate::lowered::BinaryOp;
use crate::pipeline::lower_module_spec;
use crate::semantics::{source_step, SourceState};
use crate::signature::lower_signature_spec;

verus! {

/// Where a block is lowered, the shadow stack holds, when a return is
/// reached, exactly as many values as the function returns.
pub proof fn law_depth_at_return(fr: Frame, code: Seq<InstructionView>, n: int)
    requires
        0 <= n < code.len(),
        code[n] is Ret,
        lower_prefix(fr, code, n) is Open,
        lower_block_spec(fr, code) is Ok,
    ensures
        lower_prefix(fr, code, n)->stack.len() == fr.arity,
{
    let stack = lower_prefix(fr, code, n)->stack;
    if stack.len() != fr.arity {
        assert(lower_step(fr, code[n], n as nat, stack) is Err);
        assert(lower_prefix(fr, code, n + 1) is Failed);
        lemma_prefix_settled(fr, code, n + 1, code.len() as int);
    }
}

/// A return that is reached with fewer values on the shadow stack than the
/// function returns is refused as a stack underflow at that return; no
/// block is lowered.
pub proof fn law_underflow_at_return(fr: Frame, code: Seq<InstructionView>, n: int)
    requires
        0 <= n < code.len(),
        code[n] is Ret,
        lower_prefix(fr, code, n) is Open,
        lower_prefix(fr, code, n)->stack.len() < fr.arity,
    ensures
        lower_block_spec(fr, code) == Err::<Seq<crate::lowered::SsaView>, ErrorView>(fr.underflow(n as nat)),
{
    let stack = lower_prefix(fr, code, n)->stack;
    assert(lower_step(fr, code[n], n as nat, stack) is Err);
    assert(lower_prefix(fr, code, n + 1) == Progress::Failed { error: fr.underflow(n as nat) });
    lemma_prefix_settled(fr, code, n + 1, code.len() as int);
}

/// The instruction with a move taken for a copy.
pub open spec fn as_copy(ins: InstructionView) -> InstructionView {
    match ins {
        InstructionView::MoveLoc(x) => InstructionView::CopyLoc(x),
        other => other,
    }
}

/// Lowering does not tell a move from a copy: whether a local is read
/// again after it was moved is not checked here, and a block lowers to the
/// same code whichever of the two reads it. That a moved local is not read
/// before it is stored again is left to the front end.
pub proof fn law_move_lowers_as_copy(fr: Frame, code: Seq<InstructionView>, n: int)
    requires
        0 <= n <= code.len(),
    ensures
        lower_prefix(fr, code.map_values(|i: InstructionView| as_copy(i)), n) == lower_prefix(fr, code, n),
        n == code.len() ==> lower_block_spec(fr, code.map_values(|i: InstructionView| as_copy(i)))
            == lower_block_spec(fr, code),
    decreases n,
{
    if n > 0 {
        law_move_lowers_as_copy(fr, code, n - 1);
    }
}

/// The stack machine is stuck on the instruction in every state that the
/// state `state` can be followed by; a state that is not running has none.
pub open spec fn then_stuck(
    fr: Frame,
    arith: spec_fn(BinaryOp, int, int) -> int,
    state: SourceState,
    ins: InstructionView,
) -> bool {
    match state {
        SourceState::Running { stack, locals } => source_step(fr, arith, ins, stack, locals) is Stuck,
        _ => false,
    }
}

/// The stack machine goes on running with the instruction from the state `state`.
pub open spec fn then_runs(
    fr: Frame,
    arith: spec_fn(BinaryOp, int, int) -> int,
    state: SourceState,
    ins: InstructionView,
) -> bool {
    match state {
        SourceState::Running { stack, locals } => source_step(fr, arith, ins, stack, locals) is Running,
        _ => false,
    }
}

/// On the stack machine a copy leaves the local bound, so that it can be
/// read again, by a copy or by a move. A move unbinds the local: the
/// machine is stuck when the local is read again, by a copy or by a move,
/// and goes on when it is stored to.
pub proof fn law_copy_keeps_and_move_unbinds(
    fr: Frame,
    arith: spec_fn(BinaryOp, int, int) -> int,
    x: Seq<char>,
    stack: Seq<int>,
    locals: Seq<Option<int>>,
)
    requires
        fr.slots.index_of_first(x) is Some,
        fr.slots.index_of_first(x).unwrap() < locals.len(),
        locals[fr.slots.index_of_first(x).unwrap()] is Some,
    ensures
        then_runs(fr, arith, source_step(fr, arith, InstructionView::CopyLoc(x), stack, locals), InstructionView::CopyLoc(x)),
        then_runs(fr, arith, source_step(fr, arith, InstructionView::CopyLoc(x), stack, locals), InstructionView::MoveLoc(x)),
        then_stuck(fr, arith, source_step(fr, arith, InstructionView::MoveLoc(x), stack, locals), InstructionView::CopyLoc(x)),
        then_stuck(fr, arith, source_step(fr, arith, InstructionView::MoveLoc(x), stack, locals), InstructionView::MoveLoc(x)),
        then_runs(fr, arith, source_step(fr, arith, InstructionView::MoveLoc(x), stack, locals), InstructionView::StLoc(x)),
{
    fr.slots.index_of_first_ensures(x);
}

/// The frame under another function name.
pub open spec fn renamed(fr: Frame, function: Seq<char>) -> Frame {
    Frame { function, ..fr }
}

/// Two outcomes agree but for the function name in an error.
pub open spec fn same_progress(p: Progress, q: Progress) -> bool {
    match p {
        Progress::Failed { .. } => q is Failed,
        _ => q == p,
    }
}

proof fn lemma_prefix_ignores_name(fr: Frame, function: Seq<char>, code: Seq<InstructionView>, n: int)
    requires
        0 <= n <= code.len(),
    ensures
        same_progress(lower_prefix(fr, code, n), lower_prefix(renamed(fr, function), code, n)),
    decreases n,
{
    if n > 0 {
        lemma_prefix_ignores_name(fr, function, code, n - 1);
    }
}

proof fn lemma_blocks_ignore_name(f: FunctionView, g: FunctionView, slots: Seq<Seq<char>>, n: int)
    requires
        f.signature == g.signature,
        f.body == g.body,
        0 <= n <= f.body.blocks.len(),
    ensures
        match lower_blocks(f, slots, n) {
            Ok(blocks) => lower_blocks(g, slots, n) == Ok::<Seq<crate::lowered::LoweredBlockView>, ErrorView>(blocks),
            Err(_) => lower_blocks(g, slots, n) is Err,
        },
    decreases n,
{
    if n > 0 {
        lemma_blocks_ignore_name(f, g, slots, n - 1);
        let fr = frame_of(f, slots, (n - 1) as nat);
        let code = f.body.blocks[n - 1].code;
        assert(frame_of(g, slots, (n - 1) as nat) == renamed(fr, g.name));
        lemma_prefix_ignores_name(fr, g.name, code, code.len() as int);
    }
}

/// A function is lowered without regard to its name: two functions with the
/// same signature and the same body lower to functions that differ in
/// their names only, each with slots of its own, numbered from zero.
pub proof fn law_lowering_ignores_name(f: FunctionView, g: FunctionView)
    requires
        f.signature == g.signature,
        f.body == g.body,
    ensures
        match lower_function_spec(f) {
            Ok(l) => lower_function_spec(g) == Ok::<LoweredView, ErrorView>(LoweredView { name: g.name, ..l }),
            Err(_) => lower_function_spec(g) is Err,
        },
{
    assert(f.local_names() == g.local_names());
    if f.body.blocks.len() > 0 && lower_signature_spec(f.name, f.signature) is Ok && allocate_spec(f) is Ok {
        let slots = allocate_spec(f)->Ok_0;
        assert(allocate_spec(g) == Ok::<Seq<crate::lowered::SlotView>, ErrorView>(slots));
        lemma_blocks_ignore_name(f, g, slot_names(slots), f.body.blocks.len() as int);
    }
}

/// The slots of a function do not alias: where the locals are allocated,
/// no two slots carry one name, and each local's name resolves to the one
/// slot that carries it.
pub proof fn law_slots_do_not_alias(f: FunctionView, i: int, j: int)
    requires
        allocate_spec(f) is Ok,
        0 <= i < f.local_names().len(),
        0 <= j < f.local_names().len(),
    ensures
        allocate_spec(f)->Ok_0.len() == f.local_names().len(),
        allocate_spec(f)->Ok_0[i].name == f.local_names()[i],
        i != j ==> allocate_spec(f)->Ok_0[i].name != allocate_spec(f)->Ok_0[j].name,
        slot_names(allocate_spec(f)->Ok_0).index_of_first(f.local_names()[i]) == Some(i),
{
    let names = f.local_names();
    let slots = allocate_spec(f)->Ok_0;
    assert(slot_names(slots) =~= names);
    if names[i] == names[j] {
        lemma_no_duplicate_distinct(names, names.len() as int, i, j);
    }
    names.index_of_first_ensures(names[i]);
    let first = names.index_of_first(names[i]);
    assert(first is Some);
    lemma_no_duplicate_distinct(names, names.len() as int, i, first.unwrap());
}

/// A module in which a function branches to a label that none of its
/// blocks carries is refused by ingest as malformed, and so is refused
/// before any of its functions is lowered.
pub proof fn law_undefined_branch_refused(m: ModuleView, k: int, b: int, i: int)
    requires
        0 <= k < m.functions.len(),
        0 <= b < m.functions[k].body.blocks.len(),
        0 <= i < m.functions[k].body.blocks[b].code.len(),
        m.functions[k].body.blocks[b].code[i] matches InstructionView::Branch(label)
            && !m.functions[k].labels().contains(label),
    ensures
        ingest_spec(m) matches Err(ErrorView::MalformedModule { .. }),
        lower_module_spec(m) == Err::<Seq<LoweredView>, ErrorView>(ingest_spec(m)->Err_0),
{
    let f = m.functions[k];
    assert(!instruction_ok(f, f.body.blocks[b].code[i]));
    assert(!block_ok(f, b));
    assert(!function_ok(f));
    assert(!module_ok(m));
}

} // verus!
