//! Module ingest: the structural check that a module has to pass before
//! any of its functions is lowered.

use vstd::prelude::*;
use crate::bytecode::{CompiledModule, FunctionDefinition, FunctionView, Instruction, InstructionView, ModuleDefinition, ModuleView};
use crate::error::{ErrorView, TranslateError};

verus! {

/// An instruction is sound in a function when the local it names is one of
/// the function's locals, or the label it names is that of one of its blocks.
pub open spec fn instruction_ok(f: FunctionView, ins: InstructionView) -> bool {
    match ins {
        InstructionView::MoveLoc(x) => f.local_names().contains(x),
        InstructionView::CopyLoc(x) => f.local_names().contains(x),
        InstructionView::StLoc(x) => f.local_names().contains(x),
        InstructionView::Branch(l) => f.labels().contains(l),
        _ => true,
    }
}

/// Every instruction of block `b` before position `n` is sound.
pub open spec fn block_ok_upto(f: FunctionView, b: int, n: int) -> bool {
    forall|i: int| 0 <= i < n ==> instruction_ok(f, #[trigger] f.body.blocks[b].code[i])
}

/// Block `b` of the function holds sound instructions only.
pub open spec fn block_ok(f: FunctionView, b: int) -> bool {
    block_ok_upto(f, b, f.body.blocks[b].code.len() as int)
}

/// The body holds at least one instruction.
pub open spec fn body_nonempty(f: FunctionView) -> bool {
    exists|b: int| 0 <= b < f.body.blocks.len() && (#[trigger] f.body.blocks[b]).code.len() > 0
}

/// A function is sound when its body is not empty and each of its
/// instructions is sound.
pub open spec fn function_ok(f: FunctionView) -> bool {
    &&& body_nonempty(f)
    &&& forall|b: int| 0 <= b < f.body.blocks.len() ==> #[trigger] block_ok(f, b)
}

/// A module is sound when it has a function and each of its functions is sound.
pub open spec fn module_ok(m: ModuleView) -> bool {
    &&& m.functions.len() > 0
    &&& forall|k: int| 0 <= k < m.functions.len() ==> function_ok(#[trigger] m.functions[k])
}

/// Function `k` is the first one of the module that is not sound.
pub open spec fn first_malformed(m: ModuleView, k: int) -> bool {
    &&& 0 <= k < m.functions.len()
    &&& !function_ok(m.functions[k])
    &&& forall|j: int| 0 <= j < k ==> function_ok(#[trigger] m.functions[j])
}

/// What ingest answers: nothing to object to in a sound module; for an
/// empty module an error without a function name; else an error with the
/// name of the first function that is not sound.
pub open spec fn ingest_spec(m: ModuleView) -> Result<(), ErrorView> {
    if m.functions.len() == 0 {
        Err(ErrorView::MalformedModule { function: None })
    } else if module_ok(m) {
        Ok(())
    } else {
        let k = choose|k: int| first_malformed(m, k);
        Err(ErrorView::MalformedModule { function: Some(m.functions[k].name) })
    }
}

fn check_instruction(f: &FunctionDefinition, ins: &Instruction) -> (ok: bool)
    ensures
        ok == instruction_ok(f@, ins@),
{
    match ins {
        Instruction::MoveLoc(x) => f.has_local(x),
        Instruction::CopyLoc(x) => f.has_local(x),
        Instruction::StLoc(x) => f.has_local(x),
        Instruction::Branch(l) => f.has_block(l),
        _ => true,
    }
}

/// Checks one function: its body holds an instruction, and every local and
/// every branch target that an instruction names is defined in the function.
pub fn check_function(f: &FunctionDefinition) -> (ok: bool)
    ensures
        ok == function_ok(f@),
{
    let mut nonempty = false;
    let mut b: usize = 0;
    while b < f.body.blocks.len()
        invariant
            b <= f.body.blocks.len(),
            f@.body.blocks.len() == f.body.blocks.len(),
            nonempty == exists|c: int| 0 <= c < b && (#[trigger] f@.body.blocks[c]).code.len() > 0,
            forall|c: int| 0 <= c < b ==> #[trigger] block_ok(f@, c),
        decreases f.body.blocks.len() - b,
    {
        let block = &f.body.blocks[b];
        assert(f@.body.blocks[b as int] == block@);
        let mut i: usize = 0;
        while i < block.code.len()
            invariant
                i <= block.code.len(),
                b < f.body.blocks.len(),
                f@.body.blocks[b as int] == block@,
                block@.code.len() == block.code.len(),
                block_ok_upto(f@, b as int, i as int),
            decreases block.code.len() - i,
        {
            assert(block@.code[i as int] == block.code[i as int]@);
            if !check_instruction(f, &block.code[i]) {
                assert(!block_ok(f@, b as int));
                return false;
            }
            i += 1;
        }
        if block.code.len() > 0 {
            nonempty = true;
        }
        b += 1;
    }
    nonempty
}

/// Module ingest. A sound module yields the worklist of its functions, in
/// the order in which the module declares them; any other module is
/// refused as malformed, with the name of the first function that is not
/// sound. The modules in `deps` are not read.
pub fn ingest<'a>(module: &'a ModuleDefinition, deps: &Vec<&CompiledModule>) -> (worklist: Result<
    Vec<&'a FunctionDefinition>,
    TranslateError,
>)
    ensures
        module_ok(module@) <==> worklist is Ok,
        worklist matches Ok(w) ==> w@.len() == module.functions@.len() && forall|k: int|
            0 <= k < w@.len() ==> *w@[k] == module.functions@[k],
        worklist matches Err(e) ==> ingest_spec(module@) == Err::<(), ErrorView>(e@),
{
    if module.functions.len() == 0 {
        return Err(TranslateError::MalformedModule { function: None });
    }
    let mut worklist: Vec<&'a FunctionDefinition> = Vec::new();
    let mut k: usize = 0;
    while k < module.functions.len()
        invariant
            k <= module.functions.len(),
            module@.functions.len() == module.functions.len(),
            worklist@.len() == k,
            forall|j: int| 0 <= j < k ==> *worklist@[j] == module.functions@[j],
            forall|j: int| 0 <= j < k ==> function_ok(#[trigger] module@.functions[j]),
        decreases module.functions.len() - k,
    {
        let f = &module.functions[k];
        assert(module@.functions[k as int] == f@);
        if !check_function(f) {
            proof {
                assert(first_malformed(module@, k as int));
                let c = choose|c: int| first_malformed(module@, c);
                assert(c == k);
            }
            return Err(TranslateError::MalformedModule { function: Some(f.name.clone()) });
        }
        worklist.push(f);
        k += 1;
    }
    Ok(worklist)
}

} // verus!
