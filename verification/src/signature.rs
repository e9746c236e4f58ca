//! Signature lowering: from the formals and the return arity of a function
//! to its target type.

use vstd::prelude::*;
use crate::bytecode::{FormalView, FunctionSignature, SignatureView, ValueType};
use crate::error::{ErrorView, TranslateError};
use crate::lowered::{TargetType, TargetTypeView};

verus! {

/// The types that have a target representation: the unsigned integers.
pub open spec fn type_supported(t: ValueType) -> bool {
    t is U8 || t is U64 || t is U128
}

/// The position of the first formal among the first `n` whose type has no
/// target representation.
pub open spec fn first_unsupported(formals: Seq<FormalView>, n: int) -> Option<int>
    decreases n,
{
    if n <= 0 {
        None
    } else {
        match first_unsupported(formals, n - 1) {
            Some(k) => Some(k),
            None => if type_supported(formals[n - 1].ty) {
                None
            } else {
                Some(n - 1)
            },
        }
    }
}

/// The target type of a function named `function` with signature `sig`:
/// a parameter for each formal, in order and under the formal's name, and
/// the declared number of results; or the first formal that has no target
/// representation.
pub open spec fn lower_signature_spec(function: Seq<char>, sig: SignatureView) -> Result<
    TargetTypeView,
    ErrorView,
> {
    match first_unsupported(sig.formals, sig.formals.len() as int) {
        Some(k) => Err(ErrorView::UnsupportedSignature { function, formal: k as nat }),
        None => Ok(
            TargetTypeView {
                params: sig.formals.map_values(|f: FormalView| f.name),
                results: sig.return_arity,
            },
        ),
    }
}

/// Once a formal without representation is found it stays the first one.
pub proof fn lemma_first_unsupported_stays(formals: Seq<FormalView>, n: int, m: int)
    requires
        n <= m,
        first_unsupported(formals, n) is Some,
    ensures
        first_unsupported(formals, m) == first_unsupported(formals, n),
    decreases m - n,
{
    if n < m {
        lemma_first_unsupported_stays(formals, n, m - 1);
    }
}

/// Whether the type has a target representation.
pub fn is_supported(t: ValueType) -> (ok: bool)
    ensures
        ok == type_supported(t),
{
    match t {
        ValueType::U8 => true,
        ValueType::U64 => true,
        ValueType::U128 => true,
        _ => false,
    }
}

/// Signature lowering.
pub fn lower_signature(function: &String, sig: &FunctionSignature) -> (ty: Result<
    TargetType,
    TranslateError,
>)
    ensures
        match lower_signature_spec(function@, sig@) {
            Ok(t) => ty matches Ok(x) && x@ == t,
            Err(e) => ty matches Err(x) && x@ == e,
        },
{
    let ghost formals = sig@.formals;
    let mut params: Vec<String> = Vec::new();
    let mut i: usize = 0;
    while i < sig.formals.len()
        invariant
            i <= sig.formals.len(),
            formals == sig@.formals,
            formals.len() == sig.formals.len(),
            first_unsupported(formals, i as int) is None,
            params@.len() == i,
            forall|j: int| 0 <= j < i ==> (#[trigger] params@[j])@ == formals[j].name,
        decreases sig.formals.len() - i,
    {
        let formal = &sig.formals[i];
        assert(formals[i as int] == formal@);
        if !is_supported(formal.ty) {
            proof {
                lemma_first_unsupported_stays(formals, i + 1, formals.len() as int);
            }
            return Err(TranslateError::UnsupportedSignature { function: function.clone(), formal: i });
        }
        params.push(formal.name.clone());
        i += 1;
    }
    let ty = TargetType { params, results: sig.return_arity };
    assert(ty@.params =~= formals.map_values(|f: FormalView| f.name));
    Ok(ty)
}

} // verus!
