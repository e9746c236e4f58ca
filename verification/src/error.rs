//! The ways in which lowering a module can fail.

use vstd::prelude::*;

verus! {

/// Why a module, or one of its functions, could not be lowered.
///
/// Every variant names the function it arose in, and the variants that
/// concern one instruction name its block and its offset in that block.
#[derive(Clone, Debug, PartialEq, Eq)]
pub enum TranslateError {
    /// The module has no function, or the named function has no instruction,
    /// reads or writes a local it does not declare, or branches to a block
    /// it does not define.
    MalformedModule { function: Option<String> },
    /// The formal at position `formal` has no target representation. The
    /// position one past the last formal stands for the returned values.
    UnsupportedSignature { function: String, formal: usize },
    /// The local at position `local` (formals first, then declared locals)
    /// repeats the name of an earlier one.
    DuplicateLocal { function: String, local: usize },
    /// The instruction needs more operands than the operand stack holds.
    StackUnderflow { function: String, block: usize, offset: usize },
    /// The operand stack is not at the depth that the instruction, or the
    /// end of the block, demands.
    UnbalancedStack { function: String, block: usize, offset: usize },
    /// The generated function did not pass the structural check.
    InvalidGeneratedFunction { function: String },
    /// A tool of the native toolchain could not be run or reported failure.
    BackendToolFailure { tool: String, stderr: String },
}

/// The mathematical value of a [`TranslateError`].
pub enum ErrorView {
    MalformedModule { function: Option<Seq<char>> },
    UnsupportedSignature { function: Seq<char>, formal: nat },
    DuplicateLocal { function: Seq<char>, local: nat },
    StackUnderflow { function: Seq<char>, block: nat, offset: nat },
    UnbalancedStack { function: Seq<char>, block: nat, offset: nat },
    InvalidGeneratedFunction { function: Seq<char> },
    BackendToolFailure { tool: Seq<char>, stderr: Seq<char> },
}

impl View for TranslateError {
    type V = ErrorView;

    open spec fn view(&self) -> ErrorView {
        match self {
            TranslateError::MalformedModule { function } => ErrorView::MalformedModule {
                function: match function {
                    Some(name) => Some(name@),
                    None => None,
                },
            },
            TranslateError::UnsupportedSignature { function, formal } => ErrorView::UnsupportedSignature {
                function: function@,
                formal: *formal as nat,
            },
            TranslateError::DuplicateLocal { function, local } => ErrorView::DuplicateLocal {
                function: function@,
                local: *local as nat,
            },
            TranslateError::StackUnderflow { function, block, offset } => ErrorView::StackUnderflow {
                function: function@,
                block: *block as nat,
                offset: *offset as nat,
            },
            TranslateError::UnbalancedStack { function, block, offset } => ErrorView::UnbalancedStack {
                function: function@,
                block: *block as nat,
                offset: *offset as nat,
            },
            TranslateError::InvalidGeneratedFunction { function } => ErrorView::InvalidGeneratedFunction {
                function: function@,
            },
            TranslateError::BackendToolFailure { tool, stderr } => ErrorView::BackendToolFailure {
                tool: tool@,
                stderr: stderr@,
            },
        }
    }
}

} // verus!
