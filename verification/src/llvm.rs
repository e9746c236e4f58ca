//! The calls into LLVM, through `inkwell`. The functions that make a call
//! are not proved: each hands its arguments to one function of `inkwell`, and
//! its contract, where it has one, is taken on trust from that function's
//! source.
//!
//! The handles that `inkwell` gives out are opaque here, and what a call does
//! to the LLVM module behind them is not described. Some calls of `inkwell`
//! panic on a handle of the wrong kind. The handles that reach such a call
//! are kept in types of this file whose field cannot be set from outside it,
//! so that each of them is known by its type to be of the right kind.

use vstd::prelude::*;
use inkwell::basic_block::BasicBlock;
use inkwell::builder::{Builder, BuilderError};
use inkwell::context::Context;
use inkwell::module::{Linkage, Module};
use inkwell::passes::PassManager;
use inkwell::types::{BasicMetadataTypeEnum, FloatType, FunctionType};
use inkwell::values::{BasicValueEnum, FloatValue, FunctionValue, InstructionValue, PointerValue};

verus! {

#[verifier::external_type_specification]
#[verifier::external_body]
pub struct ExContext(Context);

#[verifier::external_type_specification]
#[verifier::external_body]
pub struct ExModule<'ctx>(Module<'ctx>);

#[verifier::external_type_specification]
#[verifier::external_body]
pub struct ExBuilder<'ctx>(Builder<'ctx>);

#[verifier::external_type_specification]
#[verifier::external_body]
pub struct ExBuilderError(BuilderError);

#[verifier::external_type_specification]
#[verifier::external_body]
#[verifier::reject_recursive_types(T)]
pub struct ExPassManager<T>(PassManager<T>);

#[verifier::external_type_specification]
#[verifier::external_body]
pub struct ExFunctionValue<'ctx>(FunctionValue<'ctx>);

#[verifier::external_type_specification]
#[verifier::external_body]
pub struct ExPointerValue<'ctx>(PointerValue<'ctx>);

#[verifier::external_type_specification]
#[verifier::external_body]
pub struct ExFloatValue<'ctx>(FloatValue<'ctx>);

#[verifier::external_type_specification]
#[verifier::external_body]
pub struct ExInstructionValue<'ctx>(InstructionValue<'ctx>);

#[verifier::external_type_specification]
#[verifier::external_body]
pub struct ExBasicBlock<'ctx>(BasicBlock<'ctx>);

#[verifier::external_type_specification]
#[verifier::external_body]
pub struct ExFloatType<'ctx>(FloatType<'ctx>);

#[verifier::external_type_specification]
#[verifier::external_body]
pub struct ExFunctionType<'ctx>(FunctionType<'ctx>);

#[verifier::external_type_specification]
#[verifier::external_body]
pub struct ExBasicMetadataTypeEnum<'ctx>(BasicMetadataTypeEnum<'ctx>);

#[verifier::external_type_specification]
#[verifier::external_body]
pub struct ExLinkage(Linkage);

/// The type of a parameter that is a number. Only [`parameter_type`] makes one.
#[derive(Clone, Copy, Debug, PartialEq, Eq)]
pub struct NumberParameter<'ctx> {
    inner: BasicMetadataTypeEnum<'ctx>,
}

/// The type of a function whose parameters are numbers and which returns a
/// number. Only [`function_type`] makes one.
#[derive(Clone, Copy, Debug, PartialEq, Eq)]
pub struct NumberSignature<'ctx> {
    inner: FunctionType<'ctx>,
}

/// A function of LLVM whose parameters are numbers and which returns a
/// number. Only [`add_function`] makes one.
#[derive(Clone, Copy, Debug, PartialEq, Eq)]
pub struct NumberFunction<'ctx> {
    inner: FunctionValue<'ctx>,
}

/// A pointer to the stack allocation of one number. Only [`build_alloca`] makes one.
#[derive(Clone, Copy, Debug, PartialEq, Eq)]
pub struct NumberSlot<'ctx> {
    inner: PointerValue<'ctx>,
}

impl<'ctx> NumberFunction<'ctx> {
    /// The handle of LLVM that stands for the function.
    pub closed spec fn handle(self) -> FunctionValue<'ctx> {
        self.inner
    }

    /// The handle of LLVM that stands for the function.
    pub fn value(&self) -> (v: FunctionValue<'ctx>)
        ensures
            v == self.handle(),
    {
        self.inner
    }
}

/// `Context::create`: a new LLVM context.
#[verifier::external_body]
pub(crate) fn create_context() -> Context {
    Context::create()
}

/// `Context::create_module`: a new, empty module of the context.
#[verifier::external_body]
pub(crate) fn create_module<'ctx>(context: &'ctx Context, name: &str) -> Module<'ctx> {
    context.create_module(name)
}

/// `Context::create_builder`: a new builder of the context, without a position.
#[verifier::external_body]
pub(crate) fn create_builder<'ctx>(context: &'ctx Context) -> Builder<'ctx> {
    context.create_builder()
}

/// `Context::f64_type`: the context's type of 64-bit floating-point numbers.
#[verifier::external_body]
pub(crate) fn number_type<'ctx>(context: &'ctx Context) -> FloatType<'ctx> {
    context.f64_type()
}

/// `BasicMetadataTypeEnum::from`: the type, as the type of a parameter.
#[verifier::external_body]
pub(crate) fn parameter_type<'ctx>(ty: FloatType<'ctx>) -> NumberParameter<'ctx> {
    NumberParameter { inner: BasicMetadataTypeEnum::from(ty) }
}

/// `FloatType::fn_type`: the type of functions that take `params` and return
/// `ty`, with or without variable arguments. `inkwell` hands LLVM the number
/// of parameters as a `u32`, so longer lists are left out.
#[verifier::external_body]
pub(crate) fn function_type<'ctx>(
    ty: FloatType<'ctx>,
    params: &Vec<NumberParameter<'ctx>>,
    is_var_args: bool,
) -> NumberSignature<'ctx>
    requires
        params.len() <= u32::MAX,
{
    let types: Vec<BasicMetadataTypeEnum<'ctx>> = params.iter().map(|p| p.inner).collect();
    NumberSignature { inner: ty.fn_type(types.as_slice(), is_var_args) }
}

/// `Module::add_function`: declares a function of the given type in the
/// module; without a linkage, LLVM gives its default.
#[verifier::external_body]
pub(crate) fn add_function<'ctx>(
    module: &Module<'ctx>,
    name: &str,
    ty: NumberSignature<'ctx>,
    linkage: Option<Linkage>,
) -> NumberFunction<'ctx> {
    NumberFunction { inner: module.add_function(name, ty.inner, linkage) }
}

/// `FunctionValue::get_nth_param`: the parameter at position `nth`, if the
/// function has one there. `inkwell` adds one to `nth` before it compares,
/// so the largest `u32` is left out. It also sorts the parameter by its
/// type and panics on a type that is not that of a value; the parameters of
/// a [`NumberFunction`] are numbers.
#[verifier::external_body]
pub(crate) fn number_parameter<'ctx>(function: NumberFunction<'ctx>, nth: u32) -> Option<FloatValue<'ctx>>
    requires
        nth < u32::MAX,
{
    match function.inner.get_nth_param(nth) {
        Some(BasicValueEnum::FloatValue(value)) => Some(value),
        _ => None,
    }
}

/// `FloatValue::set_name`: names the value.
#[verifier::external_body]
pub(crate) fn set_value_name<'ctx>(value: FloatValue<'ctx>, name: &str) {
    value.set_name(name)
}

/// `Context::append_basic_block`: a new block at the end of the function.
#[verifier::external_body]
pub(crate) fn append_block<'ctx>(context: &'ctx Context, function: FunctionValue<'ctx>, name: &str) -> BasicBlock<
    'ctx,
> {
    context.append_basic_block(function, name)
}

/// `FunctionValue::get_first_basic_block`: the function's first block, if it has one.
#[verifier::external_body]
pub(crate) fn first_block<'ctx>(function: FunctionValue<'ctx>) -> Option<BasicBlock<'ctx>> {
    function.get_first_basic_block()
}

/// `BasicBlock::get_first_instruction`: the block's first instruction, if it has one.
#[verifier::external_body]
pub(crate) fn first_instruction<'ctx>(block: BasicBlock<'ctx>) -> Option<InstructionValue<'ctx>> {
    block.get_first_instruction()
}

/// `Builder::position_at_end`: what the builder builds next goes to the end of the block.
#[verifier::external_body]
pub(crate) fn position_at_end<'ctx>(builder: &Builder<'ctx>, block: BasicBlock<'ctx>) {
    builder.position_at_end(block)
}

/// `Builder::position_before`: what the builder builds next goes before the instruction.
#[verifier::external_body]
pub(crate) fn position_before<'ctx>(builder: &Builder<'ctx>, instruction: &InstructionValue<'ctx>) {
    builder.position_before(instruction)
}

/// `Builder::build_alloca`: a stack allocation of one value of the type.
/// Fails when the builder has no position.
#[verifier::external_body]
pub(crate) fn build_alloca<'ctx>(builder: &Builder<'ctx>, ty: FloatType<'ctx>, name: &str) -> Result<
    NumberSlot<'ctx>,
    BuilderError,
> {
    match builder.build_alloca(ty, name) {
        Ok(pointer) => Ok(NumberSlot { inner: pointer }),
        Err(e) => Err(e),
    }
}

/// `Builder::build_store`: a store of the value to the slot.
/// Fails when the builder has no position.
#[verifier::external_body]
pub(crate) fn build_store<'ctx>(builder: &Builder<'ctx>, slot: NumberSlot<'ctx>, value: FloatValue<'ctx>) -> Result<
    InstructionValue<'ctx>,
    BuilderError,
> {
    builder.build_store(slot.inner, value)
}

/// `Builder::build_load`: a load from the slot. Fails when the builder has
/// no position. `inkwell` sorts what is loaded by its type and panics on a
/// type that is not that of a value; what a [`NumberSlot`] points to is a
/// number.
#[verifier::external_body]
pub(crate) fn build_load<'ctx>(builder: &Builder<'ctx>, slot: NumberSlot<'ctx>, name: &str) -> Result<
    Option<FloatValue<'ctx>>,
    BuilderError,
> {
    match builder.build_load(slot.inner, name) {
        Ok(BasicValueEnum::FloatValue(value)) => Ok(Some(value)),
        Ok(_) => Ok(None),
        Err(e) => Err(e),
    }
}

/// `Builder::build_float_add`: the sum of two numbers.
/// Fails when the builder has no position.
#[verifier::external_body]
pub(crate) fn build_float_add<'ctx>(
    builder: &Builder<'ctx>,
    lhs: FloatValue<'ctx>,
    rhs: FloatValue<'ctx>,
    name: &str,
) -> Result<FloatValue<'ctx>, BuilderError> {
    builder.build_float_add(lhs, rhs, name)
}

/// `Builder::build_float_sub`: the difference of two numbers.
/// Fails when the builder has no position.
#[verifier::external_body]
pub(crate) fn build_float_sub<'ctx>(
    builder: &Builder<'ctx>,
    lhs: FloatValue<'ctx>,
    rhs: FloatValue<'ctx>,
    name: &str,
) -> Result<FloatValue<'ctx>, BuilderError> {
    builder.build_float_sub(lhs, rhs, name)
}

/// `Builder::build_float_mul`: the product of two numbers.
/// Fails when the builder has no position.
#[verifier::external_body]
pub(crate) fn build_float_mul<'ctx>(
    builder: &Builder<'ctx>,
    lhs: FloatValue<'ctx>,
    rhs: FloatValue<'ctx>,
    name: &str,
) -> Result<FloatValue<'ctx>, BuilderError> {
    builder.build_float_mul(lhs, rhs, name)
}

/// `Builder::build_float_div`: the quotient of two numbers.
/// Fails when the builder has no position.
#[verifier::external_body]
pub(crate) fn build_float_div<'ctx>(
    builder: &Builder<'ctx>,
    lhs: FloatValue<'ctx>,
    rhs: FloatValue<'ctx>,
    name: &str,
) -> Result<FloatValue<'ctx>, BuilderError> {
    builder.build_float_div(lhs, rhs, name)
}

/// `Builder::build_return`: a return of the value.
/// Fails when the builder has no position.
#[verifier::external_body]
pub(crate) fn build_return<'ctx>(builder: &Builder<'ctx>, value: FloatValue<'ctx>) -> Result<
    InstructionValue<'ctx>,
    BuilderError,
> {
    builder.build_return(Some(&value))
}

/// `Builder::build_unconditional_branch`: a branch to the block.
/// Fails when the builder has no position.
#[verifier::external_body]
pub(crate) fn build_branch<'ctx>(builder: &Builder<'ctx>, target: BasicBlock<'ctx>) -> Result<
    InstructionValue<'ctx>,
    BuilderError,
> {
    builder.build_unconditional_branch(target)
}

/// `FunctionValue::verify`: whether LLVM finds the function valid. With
/// `print`, LLVM writes what it finds wrong to the standard error stream.
#[verifier::external_body]
pub(crate) fn function_is_valid<'ctx>(function: FunctionValue<'ctx>, print: bool) -> bool {
    function.verify(print)
}

/// `PassManager::create`: a manager of function passes for the module, without passes.
#[verifier::external_body]
pub(crate) fn create_pass_manager<'ctx>(module: &Module<'ctx>) -> PassManager<FunctionValue<'ctx>> {
    PassManager::create(module)
}

/// `PassManager::add_instruction_combining_pass`.
#[verifier::external_body]
pub(crate) fn add_instruction_combining_pass<'ctx>(manager: &PassManager<FunctionValue<'ctx>>) {
    manager.add_instruction_combining_pass()
}

/// `PassManager::add_reassociate_pass`.
#[verifier::external_body]
pub(crate) fn add_reassociate_pass<'ctx>(manager: &PassManager<FunctionValue<'ctx>>) {
    manager.add_reassociate_pass()
}

/// `PassManager::add_gvn_pass`.
#[verifier::external_body]
pub(crate) fn add_gvn_pass<'ctx>(manager: &PassManager<FunctionValue<'ctx>>) {
    manager.add_gvn_pass()
}

/// `PassManager::add_cfg_simplification_pass`.
#[verifier::external_body]
pub(crate) fn add_cfg_simplification_pass<'ctx>(manager: &PassManager<FunctionValue<'ctx>>) {
    manager.add_cfg_simplification_pass()
}

/// `PassManager::add_basic_alias_analysis_pass`.
#[verifier::external_body]
pub(crate) fn add_basic_alias_analysis_pass<'ctx>(manager: &PassManager<FunctionValue<'ctx>>) {
    manager.add_basic_alias_analysis_pass()
}

/// `PassManager::add_promote_memory_to_register_pass`.
#[verifier::external_body]
pub(crate) fn add_promote_memory_to_register_pass<'ctx>(manager: &PassManager<FunctionValue<'ctx>>) {
    manager.add_promote_memory_to_register_pass()
}

/// `PassManager::initialize`: readies the passes; whether one of them changed the module.
#[verifier::external_body]
pub(crate) fn initialize_passes<'ctx>(manager: &PassManager<FunctionValue<'ctx>>) -> bool {
    manager.initialize()
}

/// `PassManager::run_on`: runs the passes on the function; whether one of them changed it.
#[verifier::external_body]
pub(crate) fn run_passes<'ctx>(manager: &PassManager<FunctionValue<'ctx>>, function: &FunctionValue<'ctx>) -> bool {
    manager.run_on(function)
}

/// `Module::print_to_string`: the module as textual IR.
#[verifier::external_body]
pub(crate) fn module_text<'ctx>(module: &Module<'ctx>) -> String {
    module.print_to_string().to_string()
}

/// `AnyValue::print_to_string`, on a function: the function as textual IR.
#[verifier::external_body]
pub(crate) fn function_text<'ctx>(function: FunctionValue<'ctx>) -> String {
    inkwell::values::AnyValue::print_to_string(&function).to_string()
}

} // verus!
