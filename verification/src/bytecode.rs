//! The stack-machine form of a module: functions with a signature and a
//! body of labelled blocks, whose instructions work on an implicit operand
//! stack and on named locals.

use vstd::prelude::*;

verus! {

/// The type of a formal parameter.
#[derive(Clone, Copy, Debug, PartialEq, Eq, Structural)]
pub enum ValueType {
    U8,
    U64,
    U128,
    Bool,
    Address,
    Signer,
    Vector,
    Struct,
    Reference,
    TypeParameter,
}

/// One instruction of the stack machine.
#[derive(Clone, Debug, PartialEq, Eq)]
pub enum Instruction {
    /// Push the value bound to the local and invalidate the binding.
    MoveLoc(String),
    /// Push the value bound to the local; the binding stays.
    CopyLoc(String),
    /// Pop one value and bind it to the local.
    StLoc(String),
    /// Pop the right operand, then the left one, and push `left + right`.
    Add,
    /// Pop the right operand, then the left one, and push `left - right`.
    Sub,
    /// Pop the right operand, then the left one, and push `left * right`.
    Mul,
    /// Pop the right operand, then the left one, and push `left / right`.
    Div,
    /// Pop as many values as the function returns and return them.
    Ret,
    /// Continue at the start of the block with the given label.
    Branch(String),
}

/// A block: a label and the instructions that run when control reaches it.
#[derive(Clone, Debug, PartialEq, Eq)]
pub struct Block {
    pub label: String,
    pub code: Vec<Instruction>,
}

/// A formal parameter.
#[derive(Clone, Debug, PartialEq, Eq)]
pub struct Formal {
    pub name: String,
    pub ty: ValueType,
}

/// The formals of a function, in calling order, and the number of values it returns.
#[derive(Clone, Debug, PartialEq, Eq)]
pub struct FunctionSignature {
    pub formals: Vec<Formal>,
    pub return_arity: usize,
}

/// The locals a function declares besides its formals, and its blocks.
/// Control enters at the first block and falls from the end of a block
/// into the next one.
#[derive(Clone, Debug, PartialEq, Eq)]
pub struct FunctionBody {
    pub locals: Vec<String>,
    pub blocks: Vec<Block>,
}

#[derive(Clone, Debug, PartialEq, Eq)]
pub struct FunctionDefinition {
    pub name: String,
    pub signature: FunctionSignature,
    pub body: FunctionBody,
}

#[derive(Clone, Debug, PartialEq, Eq)]
pub struct ModuleDefinition {
    pub name: String,
    pub functions: Vec<FunctionDefinition>,
}

/// A module that was compiled earlier and against which names could be
/// resolved. Lowering reads nothing from it.
#[derive(Clone, Debug, PartialEq, Eq)]
pub struct CompiledModule {
    pub name: String,
}

pub enum InstructionView {
    MoveLoc(Seq<char>),
    CopyLoc(Seq<char>),
    StLoc(Seq<char>),
    Add,
    Sub,
    Mul,
    Div,
    Ret,
    Branch(Seq<char>),
}

pub struct BlockView {
    pub label: Seq<char>,
    pub code: Seq<InstructionView>,
}

pub struct FormalView {
    pub name: Seq<char>,
    pub ty: ValueType,
}

pub struct SignatureView {
    pub formals: Seq<FormalView>,
    pub return_arity: nat,
}

pub struct BodyView {
    pub locals: Seq<Seq<char>>,
    pub blocks: Seq<BlockView>,
}

pub struct FunctionView {
    pub name: Seq<char>,
    pub signature: SignatureView,
    pub body: BodyView,
}

pub struct ModuleView {
    pub name: Seq<char>,
    pub functions: Seq<FunctionView>,
}

impl View for Instruction {
    type V = InstructionView;

    open spec fn view(&self) -> InstructionView {
        match self {
            Instruction::MoveLoc(x) => InstructionView::MoveLoc(x@),
            Instruction::CopyLoc(x) => InstructionView::CopyLoc(x@),
            Instruction::StLoc(x) => InstructionView::StLoc(x@),
            Instruction::Add => InstructionView::Add,
            Instruction::Sub => InstructionView::Sub,
            Instruction::Mul => InstructionView::Mul,
            Instruction::Div => InstructionView::Div,
            Instruction::Ret => InstructionView::Ret,
            Instruction::Branch(l) => InstructionView::Branch(l@),
        }
    }
}

impl View for Block {
    type V = BlockView;

    open spec fn view(&self) -> BlockView {
        BlockView { label: self.label@, code: self.code@.map_values(|i: Instruction| i@) }
    }
}

impl View for Formal {
    type V = FormalView;

    open spec fn view(&self) -> FormalView {
        FormalView { name: self.name@, ty: self.ty }
    }
}

impl View for FunctionSignature {
    type V = SignatureView;

    open spec fn view(&self) -> SignatureView {
        SignatureView {
            formals: self.formals@.map_values(|f: Formal| f@),
            return_arity: self.return_arity as nat,
        }
    }
}

impl View for FunctionBody {
    type V = BodyView;

    open spec fn view(&self) -> BodyView {
        BodyView {
            locals: self.locals@.map_values(|x: String| x@),
            blocks: self.blocks@.map_values(|b: Block| b@),
        }
    }
}

impl View for FunctionDefinition {
    type V = FunctionView;

    open spec fn view(&self) -> FunctionView {
        FunctionView { name: self.name@, signature: self.signature@, body: self.body@ }
    }
}

impl View for ModuleDefinition {
    type V = ModuleView;

    open spec fn view(&self) -> ModuleView {
        ModuleView { name: self.name@, functions: self.functions@.map_values(|f: FunctionDefinition| f@) }
    }
}

impl FunctionView {
    /// The names of the function's locals: its formals in calling order,
    /// then the locals its body declares. A local's position in this
    /// sequence is the number of its storage slot.
    pub open spec fn local_names(self) -> Seq<Seq<char>> {
        self.signature.formals.map_values(|f: FormalView| f.name) + self.body.locals
    }

    /// The labels of the function's blocks, in order.
    pub open spec fn labels(self) -> Seq<Seq<char>> {
        self.body.blocks.map_values(|b: BlockView| b.label)
    }
}

/// Whether `name` stands in `names`.
pub fn has_name(names: &Vec<String>, name: &String) -> (found: bool)
    ensures
        found == names@.map_values(|x: String| x@).contains(name@),
{
    let ghost views = names@.map_values(|x: String| x@);
    let mut i: usize = 0;
    while i < names.len()
        invariant
            i <= names.len(),
            views == names@.map_values(|x: String| x@),
            forall|j: int| 0 <= j < i ==> views[j] != name@,
        decreases names.len() - i,
    {
        if names[i] == *name {
            assert(views[i as int] == name@);
            return true;
        }
        i += 1;
    }
    false
}

impl FunctionDefinition {
    /// Whether the function has a formal or a declared local of that name.
    pub fn has_local(&self, name: &String) -> (found: bool)
        ensures
            found == self@.local_names().contains(name@),
    {
        let ghost formals = self@.signature.formals.map_values(|f: FormalView| f.name);
        let ghost all = self@.local_names();
        let mut i: usize = 0;
        while i < self.signature.formals.len()
            invariant
                i <= self.signature.formals.len(),
                formals == self@.signature.formals.map_values(|f: FormalView| f.name),
                all == formals + self@.body.locals,
                formals.len() == self.signature.formals.len(),
                forall|j: int| 0 <= j < i ==> formals[j] != name@,
            decreases self.signature.formals.len() - i,
        {
            if self.signature.formals[i].name == *name {
                assert(formals[i as int] == name@);
                assert(all[i as int] == name@);
                return true;
            }
            i += 1;
        }
        let declared = has_name(&self.body.locals, name);
        proof {
            if declared {
                let k = choose|k: int| 0 <= k < self@.body.locals.len() && self@.body.locals[k] == name@;
                assert(all[formals.len() + k] == name@);
            }
        }
        declared
    }

    /// The first block with that label.
    pub fn find_block(&self, label: &String) -> (block: Option<usize>)
        ensures
            match self@.labels().index_of_first(label@) {
                Some(k) => block matches Some(b) && b == k && 0 <= k < self.body.blocks.len(),
                None => block is None,
            },
    {
        let ghost labels = self@.labels();
        let mut i: usize = 0;
        while i < self.body.blocks.len()
            invariant
                i <= self.body.blocks.len(),
                labels == self@.labels(),
                labels.len() == self.body.blocks.len(),
                forall|j: int| 0 <= j < i ==> labels[j] != label@,
            decreases self.body.blocks.len() - i,
        {
            if self.body.blocks[i].label == *label {
                proof {
                    assert(labels[i as int] == label@);
                    labels.index_of_first_ensures(label@);
                }
                return Some(i);
            }
            i += 1;
        }
        proof {
            labels.index_of_first_ensures(label@);
        }
        None
    }

    /// Whether the function has a block with that label.
    pub fn has_block(&self, label: &String) -> (found: bool)
        ensures
            found == self@.labels().contains(label@),
    {
        let ghost labels = self@.labels();
        let mut i: usize = 0;
        while i < self.body.blocks.len()
            invariant
                i <= self.body.blocks.len(),
                labels == self@.labels(),
                labels.len() == self.body.blocks.len(),
                forall|j: int| 0 <= j < i ==> labels[j] != label@,
            decreases self.body.blocks.len() - i,
        {
            if self.body.blocks[i].label == *label {
                assert(labels[i as int] == label@);
                return true;
            }
            i += 1;
        }
        false
    }
}

} // verus!
