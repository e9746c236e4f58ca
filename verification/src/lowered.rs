//! The explicit-value form that functions are lowered to: storage slots for
//! the locals, and blocks of instructions that name their operands.
//!
//! An instruction that yields a value (a load or an arithmetic operation) is
//! referred to by its position in its block; no value outlives its block.

use vstd::prelude::*;

verus! {

#[derive(Clone, Copy, Debug, PartialEq, Eq, Structural)]
pub enum BinaryOp {
    Add,
    Sub,
    Mul,
    Div,
}

/// One instruction of a lowered block. Operands are positions of earlier
/// instructions of the same block.
#[derive(Clone, Debug, PartialEq, Eq)]
pub enum SsaInstruction {
    /// Read the slot; the instruction stands for the value read.
    Load { slot: usize },
    /// Write the value of instruction `value` to the slot.
    Store { slot: usize, value: usize },
    /// Apply `op` to the values of `lhs` and `rhs`.
    Binary { op: BinaryOp, lhs: usize, rhs: usize },
    /// Leave the function with the given values, first return value first.
    Return { values: Vec<usize> },
    /// Continue at the start of block `target`.
    Jump { target: usize },
}

#[derive(Clone, Debug, PartialEq, Eq)]
pub struct LoweredBlock {
    pub label: String,
    pub code: Vec<SsaInstruction>,
}

/// The storage of one local. A slot with `init == Some(k)` receives the
/// `k`-th argument when the function is entered; any other slot starts
/// without a defined value.
#[derive(Clone, Debug, PartialEq, Eq)]
pub struct Slot {
    pub name: String,
    pub init: Option<usize>,
}

/// The target type of a function: one parameter per formal, under the
/// formal's name, and the number of values returned. Every parameter and
/// every returned value has the one numeric representation of the target.
#[derive(Clone, Debug, PartialEq, Eq)]
pub struct TargetType {
    pub params: Vec<String>,
    pub results: usize,
}

/// A lowered function. `verified` is set once the structural check has
/// accepted it; only then is it eligible for optimization.
#[derive(Clone, Debug, PartialEq, Eq)]
pub struct LoweredFunction {
    pub name: String,
    pub ty: TargetType,
    pub slots: Vec<Slot>,
    pub blocks: Vec<LoweredBlock>,
    pub verified: bool,
}

pub enum SsaView {
    Load { slot: nat },
    Store { slot: nat, value: nat },
    Binary { op: BinaryOp, lhs: nat, rhs: nat },
    Return { values: Seq<nat> },
    Jump { target: nat },
}

pub struct LoweredBlockView {
    pub label: Seq<char>,
    pub code: Seq<SsaView>,
}

pub struct SlotView {
    pub name: Seq<char>,
    pub init: Option<nat>,
}

pub struct TargetTypeView {
    pub params: Seq<Seq<char>>,
    pub results: nat,
}

pub struct LoweredView {
    pub name: Seq<char>,
    pub ty: TargetTypeView,
    pub slots: Seq<SlotView>,
    pub blocks: Seq<LoweredBlockView>,
    pub verified: bool,
}

impl View for SsaInstruction {
    type V = SsaView;

    open spec fn view(&self) -> SsaView {
        match self {
            SsaInstruction::Load { slot } => SsaView::Load { slot: *slot as nat },
            SsaInstruction::Store { slot, value } => SsaView::Store { slot: *slot as nat, value: *value as nat },
            SsaInstruction::Binary { op, lhs, rhs } => SsaView::Binary {
                op: *op,
                lhs: *lhs as nat,
                rhs: *rhs as nat,
            },
            SsaInstruction::Return { values } => SsaView::Return { values: values@.map_values(|v: usize| v as nat) },
            SsaInstruction::Jump { target } => SsaView::Jump { target: *target as nat },
        }
    }
}

impl View for LoweredBlock {
    type V = LoweredBlockView;

    open spec fn view(&self) -> LoweredBlockView {
        LoweredBlockView { label: self.label@, code: self.code@.map_values(|i: SsaInstruction| i@) }
    }
}

impl View for Slot {
    type V = SlotView;

    open spec fn view(&self) -> SlotView {
        SlotView {
            name: self.name@,
            init: match self.init {
                Some(k) => Some(k as nat),
                None => None,
            },
        }
    }
}

impl View for TargetType {
    type V = TargetTypeView;

    open spec fn view(&self) -> TargetTypeView {
        TargetTypeView { params: self.params@.map_values(|x: String| x@), results: self.results as nat }
    }
}

impl View for LoweredFunction {
    type V = LoweredView;

    open spec fn view(&self) -> LoweredView {
        LoweredView {
            name: self.name@,
            ty: self.ty@,
            slots: self.slots@.map_values(|s: Slot| s@),
            blocks: self.blocks@.map_values(|b: LoweredBlock| b@),
            verified: self.verified,
        }
    }
}

impl SsaView {
    /// Whether the instruction ends its block.
    pub open spec fn is_terminator(self) -> bool {
        self is Return || self is Jump
    }

    /// Whether the instruction stands for a value.
    pub open spec fn yields_value(self) -> bool {
        self is Load || self is Binary
    }
}

/// Instruction `v` of `code` stands for a value and comes before position `at`.
pub open spec fn defined_before(code: Seq<SsaView>, v: nat, at: int) -> bool {
    v < at && v < code.len() && code[v as int].yields_value()
}

/// The sizes against which the instructions of a function are checked.
pub struct Shape {
    /// The number of storage slots.
    pub slots: nat,
    /// The number of blocks.
    pub blocks: nat,
    /// The number of values that the function returns.
    pub results: nat,
}

impl LoweredView {
    pub open spec fn shape(self) -> Shape {
        Shape { slots: self.slots.len(), blocks: self.blocks.len(), results: self.ty.results }
    }
}

/// Instruction `at` of `code` names only slots and blocks that the function
/// has and only values that are defined before it, and returns as many
/// values as the function's type says.
pub open spec fn instruction_well_formed(shape: Shape, code: Seq<SsaView>, at: int) -> bool {
    match code[at] {
        SsaView::Load { slot } => slot < shape.slots,
        SsaView::Store { slot, value } => slot < shape.slots && defined_before(code, value, at),
        SsaView::Binary { op, lhs, rhs } => defined_before(code, lhs, at) && defined_before(code, rhs, at),
        SsaView::Return { values } => values.len() == shape.results && forall|k: int|
            0 <= k < values.len() ==> defined_before(code, #[trigger] values[k], at),
        SsaView::Jump { target } => target < shape.blocks,
    }
}

/// Instruction `at` of `code` is well formed, and it is a terminator if and
/// only if it is the last instruction of `code`.
pub open spec fn instruction_in_place(shape: Shape, code: Seq<SsaView>, at: int) -> bool {
    &&& instruction_well_formed(shape, code, at)
    &&& code[at].is_terminator() <==> at == code.len() - 1
}

/// Each of the first `n` instructions of `code` is well formed and in place.
pub open spec fn code_well_formed_upto(shape: Shape, code: Seq<SsaView>, n: int) -> bool {
    forall|i: int| 0 <= i < n ==> #[trigger] instruction_in_place(shape, code, i)
}

/// A block is well formed when it ends in a terminator, holds no other
/// terminator, and each of its instructions is well formed.
pub open spec fn code_well_formed(shape: Shape, code: Seq<SsaView>) -> bool {
    &&& code.len() > 0
    &&& code_well_formed_upto(shape, code, code.len() as int)
}

/// Slot `s` is initialized, if at all, from an argument that the function has.
pub open spec fn slot_well_formed(f: LoweredView, s: int) -> bool {
    f.slots[s].init matches Some(k) ==> k < f.ty.params.len()
}

/// A lowered function is well formed when it has a block, every block is
/// terminated and well formed, and every slot is well formed.
pub open spec fn well_formed(f: LoweredView) -> bool {
    &&& f.blocks.len() > 0
    &&& forall|b: int| 0 <= b < f.blocks.len() ==> code_well_formed(f.shape(), #[trigger] f.blocks[b].code)
    &&& forall|s: int| 0 <= s < f.slots.len() ==> #[trigger] slot_well_formed(f, s)
}

} // verus!
