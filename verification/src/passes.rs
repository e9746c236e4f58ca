//! The optimizer pipeline: the cleanup passes that run on every function
//! that passed the checks, and their order.

use vstd::prelude::*;
use inkwell::passes::PassManager;
use inkwell::values::FunctionValue;
use crate::llvm;

verus! {

/// A cleanup pass of LLVM that does not depend on the target.
#[derive(Clone, Copy, Debug, PartialEq, Eq, Structural)]
pub enum Pass {
    /// Combines instructions into simpler ones.
    InstructionCombining,
    /// Reorders commutative expressions.
    Reassociate,
    /// Numbers values globally and removes what is computed twice.
    GlobalValueNumbering,
    /// Simplifies the control-flow graph.
    CfgSimplification,
    /// The basic alias analysis.
    BasicAliasAnalysis,
    /// Promotes storage slots to registers.
    PromoteMemoryToRegister,
}

/// The passes of the pipeline, in the order in which they run.
pub open spec fn pipeline_spec() -> Seq<Pass> {
    seq![
        Pass::InstructionCombining,
        Pass::Reassociate,
        Pass::GlobalValueNumbering,
        Pass::CfgSimplification,
        Pass::BasicAliasAnalysis,
        Pass::PromoteMemoryToRegister,
        Pass::InstructionCombining,
        Pass::Reassociate,
    ]
}

/// The passes of the pipeline, in the order in which they run.
pub fn pipeline() -> (passes: Vec<Pass>)
    ensures
        passes@ == pipeline_spec(),
{
    let mut passes: Vec<Pass> = Vec::new();
    passes.push(Pass::InstructionCombining);
    passes.push(Pass::Reassociate);
    passes.push(Pass::GlobalValueNumbering);
    passes.push(Pass::CfgSimplification);
    passes.push(Pass::BasicAliasAnalysis);
    passes.push(Pass::PromoteMemoryToRegister);
    passes.push(Pass::InstructionCombining);
    passes.push(Pass::Reassociate);
    assert(passes@ =~= pipeline_spec());
    passes
}

/// Adds one pass to the manager.
pub fn add_pass<'ctx>(manager: &PassManager<FunctionValue<'ctx>>, pass: Pass) {
    match pass {
        Pass::InstructionCombining => llvm::add_instruction_combining_pass(manager),
        Pass::Reassociate => llvm::add_reassociate_pass(manager),
        Pass::GlobalValueNumbering => llvm::add_gvn_pass(manager),
        Pass::CfgSimplification => llvm::add_cfg_simplification_pass(manager),
        Pass::BasicAliasAnalysis => llvm::add_basic_alias_analysis_pass(manager),
        Pass::PromoteMemoryToRegister => llvm::add_promote_memory_to_register_pass(manager),
    }
}

/// Adds the passes of the pipeline to the manager, in their order, and
/// readies the manager to run them.
pub fn install_pipeline<'ctx>(manager: &PassManager<FunctionValue<'ctx>>) {
    let passes = pipeline();
    let mut i: usize = 0;
    while i < passes.len()
        invariant
            i <= passes.len(),
        decreases passes.len() - i,
    {
        add_pass(manager, passes[i]);
        i += 1;
    }
    llvm::initialize_passes(manager);
}

} // verus!
