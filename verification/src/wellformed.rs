//! The structural check of a lowered function.

use vstd::prelude::*;
use crate::error::TranslateError;
use crate::error::ErrorView;
use crate::lowered::{code_well_formed, code_well_formed_upto, defined_before, instruction_in_place, instruction_well_formed, slot_well_formed, well_formed, LoweredFunction, LoweredView, Shape, SsaInstruction, SsaView};
use crate::lowering::code_view;

verus! {

fn is_terminator(ins: &SsaInstruction) -> (r: bool)
    ensures
        r == ins@.is_terminator(),
{
    match ins {
        SsaInstruction::Return { .. } => true,
        SsaInstruction::Jump { .. } => true,
        _ => false,
    }
}

fn is_defined_before(code: &Vec<SsaInstruction>, v: usize, at: usize) -> (r: bool)
    ensures
        r == defined_before(code_view(code@), v as nat, at as int),
{
    if v < at && v < code.len() {
        match &code[v] {
            SsaInstruction::Load { .. } => true,
            SsaInstruction::Binary { .. } => true,
            _ => false,
        }
    } else {
        false
    }
}

fn check_instruction(slots: usize, blocks: usize, results: usize, code: &Vec<SsaInstruction>, at: usize) -> (r:
    bool)
    requires
        at < code.len(),
    ensures
        r == instruction_well_formed(
            Shape { slots: slots as nat, blocks: blocks as nat, results: results as nat },
            code_view(code@),
            at as int,
        ),
{
    let ghost view = code_view(code@);
    assert(view[at as int] == code[at as int]@);
    match &code[at] {
        SsaInstruction::Load { slot } => *slot < slots,
        SsaInstruction::Store { slot, value } => *slot < slots && is_defined_before(code, *value, at),
        SsaInstruction::Binary { op, lhs, rhs } => is_defined_before(code, *lhs, at) && is_defined_before(
            code,
            *rhs,
            at,
        ),
        SsaInstruction::Return { values } => {
            if values.len() != results {
                return false;
            }
            let ghost vals = values@.map_values(|v: usize| v as nat);
            let mut k: usize = 0;
            while k < values.len()
                invariant
                    k <= values.len(),
                    at < code.len(),
                    view == code_view(code@),
                    vals == values@.map_values(|v: usize| v as nat),
                    view[at as int] == (SsaView::Return { values: vals }),
                    vals.len() == results,
                    forall|j: int| 0 <= j < k ==> defined_before(view, #[trigger] vals[j], at as int),
                decreases values.len() - k,
            {
                if !is_defined_before(code, values[k], at) {
                    assert(!defined_before(view, vals[k as int], at as int));
                    return false;
                }
                k += 1;
            }
            true
        },
        SsaInstruction::Jump { target } => *target < blocks,
    }
}

fn check_code(slots: usize, blocks: usize, results: usize, code: &Vec<SsaInstruction>) -> (r: bool)
    ensures
        r == code_well_formed(
            Shape { slots: slots as nat, blocks: blocks as nat, results: results as nat },
            code_view(code@),
        ),
{
    let ghost shape = Shape { slots: slots as nat, blocks: blocks as nat, results: results as nat };
    let ghost view = code_view(code@);
    if code.len() == 0 {
        return false;
    }
    let mut i: usize = 0;
    while i < code.len()
        invariant
            i <= code.len(),
            view == code_view(code@),
            shape == (Shape { slots: slots as nat, blocks: blocks as nat, results: results as nat }),
            code_well_formed_upto(shape, view, i as int),
        decreases code.len() - i,
    {
        assert(view[i as int] == code[i as int]@);
        let last = i == code.len() - 1;
        let sound = check_instruction(slots, blocks, results, code, i);
        let ends = is_terminator(&code[i]);
        assert(sound == instruction_well_formed(shape, view, i as int));
        assert(ends == view[i as int].is_terminator());
        assert(last == (i == view.len() - 1));
        if !sound || ends != last {
            assert(!instruction_in_place(shape, view, i as int));
            return false;
        }
        i += 1;
    }
    true
}

/// Whether the lowered function is well formed.
pub fn is_well_formed(f: &LoweredFunction) -> (r: bool)
    ensures
        r == well_formed(f@),
{
    if f.blocks.len() == 0 {
        return false;
    }
    let slots = f.slots.len();
    let blocks = f.blocks.len();
    let results = f.ty.results;
    let params = f.ty.params.len();
    let mut b: usize = 0;
    while b < f.blocks.len()
        invariant
            b <= f.blocks.len(),
            slots == f.slots.len(),
            blocks == f.blocks.len(),
            results == f.ty.results,
            f@.shape() == (Shape { slots: slots as nat, blocks: blocks as nat, results: results as nat }),
            forall|c: int| 0 <= c < b ==> code_well_formed(f@.shape(), #[trigger] f@.blocks[c].code),
        decreases f.blocks.len() - b,
    {
        assert(f@.blocks[b as int].code == code_view(f.blocks[b as int].code@));
        if !check_code(slots, blocks, results, &f.blocks[b].code) {
            return false;
        }
        b += 1;
    }
    let mut s: usize = 0;
    while s < f.slots.len()
        invariant
            s <= f.slots.len(),
            params == f.ty.params.len(),
            f@.slots.len() == f.slots.len(),
            forall|t: int| 0 <= t < s ==> #[trigger] slot_well_formed(f@, t),
        decreases f.slots.len() - s,
    {
        assert(f@.slots[s as int] == f.slots[s as int]@);
        match f.slots[s].init {
            Some(k) => {
                if k >= params {
                    assert(!slot_well_formed(f@, s as int));
                    return false;
                }
            },
            None => {},
        }
        s += 1;
    }
    true
}

/// The verifier. A well-formed function comes back unchanged but for the
/// mark that makes it eligible for optimization; any other is discarded.
pub fn verify_function(f: LoweredFunction) -> (checked: Result<LoweredFunction, TranslateError>)
    ensures
        well_formed(f@) ==> (checked matches Ok(g) && g@ == (LoweredView { verified: true, ..f@ })),
        !well_formed(f@) ==> (checked matches Err(e) && e@ == (ErrorView::InvalidGeneratedFunction {
            function: f@.name,
        })),
{
    if is_well_formed(&f) {
        let mut g = f;
        g.verified = true;
        Ok(g)
    } else {
        Err(TranslateError::InvalidGeneratedFunction { function: f.name })
    }
}

} // verus!
