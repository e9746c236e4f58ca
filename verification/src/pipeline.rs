//! The lowering of a whole module: ingest, then, for each function in the
//! order of declaration, lowering and the structural check.

use vstd::prelude::*;
use crate::bytecode::{CompiledModule, FunctionDefinition, ModuleDefinition, ModuleView};
use crate::error::{ErrorView, TranslateError};
use crate::ingest::{ingest, ingest_spec};
use crate::lowered::{LoweredFunction, LoweredView};
use crate::lowering::{lower_function, lower_function_spec};
use crate::soundness::theorem_lowering_well_formed;
use crate::wellformed::verify_function;

verus! {

/// The lowered function with the mark of the structural check.
pub open spec fn marked(l: LoweredView) -> LoweredView {
    LoweredView { verified: true, ..l }
}

/// The first `n` functions of the module, lowered and marked, or the error
/// of the first one that is refused.
pub open spec fn lower_functions(m: ModuleView, n: int) -> Result<Seq<LoweredView>, ErrorView>
    decreases n,
{
    if n <= 0 {
        Ok(Seq::empty())
    } else {
        match lower_functions(m, n - 1) {
            Err(e) => Err(e),
            Ok(done) => match lower_function_spec(m.functions[n - 1]) {
                Err(e) => Err(e),
                Ok(l) => Ok(done.push(marked(l))),
            },
        }
    }
}

/// The lowering of a module. A module that ingest refuses is refused
/// before any of its functions is lowered.
pub open spec fn lower_module_spec(m: ModuleView) -> Result<Seq<LoweredView>, ErrorView> {
    match ingest_spec(m) {
        Err(e) => Err(e),
        Ok(_) => lower_functions(m, m.functions.len() as int),
    }
}

/// Once a function is refused, the functions that follow change nothing.
pub proof fn lemma_functions_settled(m: ModuleView, n: int, k: int)
    requires
        n <= k,
        lower_functions(m, n) is Err,
    ensures
        lower_functions(m, k) == lower_functions(m, n),
    decreases k - n,
{
    if n < k {
        lemma_functions_settled(m, n, k - 1);
    }
}

/// A module that is lowered has as many lowered functions as functions.
pub proof fn lemma_functions_len(m: ModuleView, n: int)
    requires
        0 <= n,
        lower_functions(m, n) is Ok,
    ensures
        lower_functions(m, n)->Ok_0.len() == n,
    decreases n,
{
    if n > 0 {
        lemma_functions_len(m, n - 1);
    }
}

/// Each function of a module is lowered on its own: what stands at position
/// `k` of the lowered module is the lowering of the function at position `k`
/// and of nothing else.
pub proof fn lemma_functions_index(m: ModuleView, n: int, k: int)
    requires
        0 <= k < n,
        lower_functions(m, n) is Ok,
    ensures
        lower_functions(m, n)->Ok_0.len() == n,
        lower_function_spec(m.functions[k]) is Ok,
        lower_functions(m, n)->Ok_0[k] == marked(lower_function_spec(m.functions[k])->Ok_0),
    decreases n,
{
    lemma_functions_len(m, n);
    lemma_functions_len(m, n - 1);
    if k < n - 1 {
        lemma_functions_index(m, n - 1, k);
    }
}

/// The views of lowered functions.
pub open spec fn lowered_views(fs: Seq<LoweredFunction>) -> Seq<LoweredView> {
    fs.map_values(|f: LoweredFunction| f@)
}

/// Lowers a module: every function of a sound module, in the order of
/// declaration, each on its own. The modules in `deps` are not read.
pub fn lower_module(module: &ModuleDefinition, deps: &Vec<&CompiledModule>) -> (lowered: Result<
    Vec<LoweredFunction>,
    TranslateError,
>)
    ensures
        match lower_module_spec(module@) {
            Ok(ls) => lowered matches Ok(x) && lowered_views(x@) == ls,
            Err(e) => lowered matches Err(x) && x@ == e,
        },
{
    let worklist = match ingest(module, deps) {
        Ok(worklist) => worklist,
        Err(e) => {
            return Err(e);
        },
    };
    let mut lowered: Vec<LoweredFunction> = Vec::new();
    let mut k: usize = 0;
    assert(lowered_views(lowered@) =~= Seq::empty());
    while k < worklist.len()
        invariant
            k <= worklist.len(),
            worklist@.len() == module@.functions.len(),
            forall|j: int| 0 <= j < worklist@.len() ==> (#[trigger] worklist@[j])@ == module@.functions[j],
            ingest_spec(module@) is Ok,
            lower_functions(module@, k as int) == Ok::<Seq<LoweredView>, ErrorView>(lowered_views(lowered@)),
        decreases worklist.len() - k,
    {
        let f: &FunctionDefinition = worklist[k];
        assert(f@ == module@.functions[k as int]);
        let ghost done = lowered_views(lowered@);
        match lower_function(f) {
            Err(e) => {
                proof {
                    assert(lower_functions(module@, k + 1) == Err::<Seq<LoweredView>, ErrorView>(e@));
                    lemma_functions_settled(module@, k + 1, module@.functions.len() as int);
                }
                return Err(e);
            },
            Ok(l) => {
                proof {
                    theorem_lowering_well_formed(f@);
                }
                match verify_function(l) {
                    Ok(checked) => {
                        lowered.push(checked);
                        assert(lowered_views(lowered@) =~= done.push(checked@));
                    },
                    Err(e) => {
                        return Err(e);
                    },
                }
            },
        }
        k += 1;
    }
    Ok(lowered)
}

} // verus!
