//! Emission of lowered functions as LLVM IR: each slot becomes a stack
//! allocation at the start of the function's entry block, each lowered block
//! a block of LLVM, each lowered instruction one instruction of LLVM.
//!
//! What LLVM makes of the calls is outside what is proved here. What is
//! proved is that the calls are made in a way that cannot go wrong on this
//! side: every operand is looked up where a value was stored before, and
//! every failure that LLVM reports is handed on.

use vstd::prelude::*;
use inkwell::basic_block::BasicBlock;
use inkwell::builder::{Builder, BuilderError};
use inkwell::context::Context;
use inkwell::module::Module;
use inkwell::passes::PassManager;
use inkwell::module::Linkage;
use inkwell::values::{FloatValue, FunctionValue};
use crate::bytecode::{CompiledModule, FunctionDefinition, FunctionSignature, ModuleDefinition, ModuleView, SignatureView};
use crate::error::{ErrorView, TranslateError};
use crate::llvm;
use crate::llvm::{NumberFunction, NumberParameter, NumberSlot};
use crate::lowered::{code_well_formed, defined_before, instruction_in_place, slot_well_formed, well_formed, BinaryOp, LoweredFunction, LoweredView, Shape, Slot, SsaInstruction};
use crate::lowering::{code_view, lower_function, lower_function_spec};
use crate::passes::install_pipeline;
use crate::pipeline::{lemma_functions_index, lemma_functions_len, lower_module, lower_module_spec, lowered_views, marked};
use crate::signature::{lower_signature, lower_signature_spec};
use crate::soundness::theorem_lowering_well_formed;
use crate::wellformed::verify_function;

verus! {

/// The state of the emission of one module.
pub struct Translator<'a, 'ctx> {
    pub context: &'ctx Context,
    pub builder: &'a Builder<'ctx>,
    pub fpm: &'a PassManager<FunctionValue<'ctx>>,
    pub module: &'a Module<'ctx>,
    /// The stack allocations of the function that is being emitted, in slot order.
    pub variables: Vec<NumberSlot<'ctx>>,
    /// The function that is being emitted.
    pub fn_value_opt: Option<NumberFunction<'ctx>>,
    pub move_mod: &'a ModuleDefinition,
}

/// What the emitter cannot express of a signature that lowering accepts,
/// as the position that the error names: LLVM counts parameters in 32
/// bits, so the formal at position `u32::MAX` is one too many; and a
/// function has to return exactly one value, for which the position one
/// past the last formal stands.
pub open spec fn emission_limit(sig: SignatureView) -> Option<nat> {
    if sig.formals.len() > u32::MAX {
        Some(u32::MAX as nat)
    } else if sig.return_arity != 1 {
        Some(sig.formals.len())
    } else {
        None
    }
}

/// The error that stands for a refusal by LLVM.
pub open spec fn refusal(function: Seq<char>) -> ErrorView {
    ErrorView::InvalidGeneratedFunction { function }
}

/// What the emission of a function answers, as far as this side decides
/// it: the error of lowering; else the limit of the emitter; else a
/// function, unless LLVM refuses.
pub open spec fn emission_outcome<T>(f: crate::bytecode::FunctionView, r: Result<T, TranslateError>) -> bool {
    match lower_function_spec(f) {
        Err(e) => r matches Err(x) && x@ == e,
        Ok(_) => match emission_limit(f.signature) {
            Some(k) => r matches Err(x) && x@ == (ErrorView::UnsupportedSignature { function: f.name, formal: k }),
            None => r matches Err(x) ==> x@ == refusal(f.name),
        },
    }
}

/// Hands on what the builder built; a failure of the builder is a refusal
/// of the function.
pub fn built<T>(outcome: Result<T, BuilderError>, function: &String) -> (r: Result<T, TranslateError>)
    ensures
        outcome matches Ok(v) ==> r == Ok::<T, TranslateError>(v),
        outcome is Err ==> (r matches Err(e) && e@ == refusal(function@)),
{
    match outcome {
        Ok(v) => Ok(v),
        Err(_) => Err(TranslateError::InvalidGeneratedFunction { function: function.clone() }),
    }
}

/// Hands on what LLVM was asked for and gave; where it gave nothing, the
/// function is refused.
pub fn present<T>(found: Option<T>, function: &String) -> (r: Result<T, TranslateError>)
    ensures
        found matches Some(v) ==> r == Ok::<T, TranslateError>(v),
        found is None ==> (r matches Err(e) && e@ == refusal(function@)),
{
    match found {
        Some(v) => Ok(v),
        None => Err(TranslateError::InvalidGeneratedFunction { function: function.clone() }),
    }
}

/// Decides on a function from LLVM's verdict on it: a valid function
/// stands, any other is refused.
pub fn conclude(valid: bool, function: &String) -> (r: Result<(), TranslateError>)
    ensures
        valid ==> r is Ok,
        !valid ==> (r matches Err(e) && e@ == refusal(function@)),
{
    if valid {
        Ok(())
    } else {
        Err(TranslateError::InvalidGeneratedFunction { function: function.clone() })
    }
}

/// The name under which the result of an operation is emitted.
pub fn result_name(op: BinaryOp) -> (name: &'static str)
    ensures
        name@ == match op {
            BinaryOp::Add => "tmpadd"@,
            BinaryOp::Sub => "tmpsub"@,
            BinaryOp::Mul => "tmpmul"@,
            BinaryOp::Div => "tmpdiv"@,
        },
{
    match op {
        BinaryOp::Add => "tmpadd",
        BinaryOp::Sub => "tmpsub",
        BinaryOp::Mul => "tmpmul",
        BinaryOp::Div => "tmpdiv",
    }
}

/// Emits one arithmetic instruction.
fn emit_binary<'ctx>(builder: &Builder<'ctx>, op: BinaryOp, lhs: FloatValue<'ctx>, rhs: FloatValue<'ctx>) -> Result<
    FloatValue<'ctx>,
    BuilderError,
> {
    let name = result_name(op);
    match op {
        BinaryOp::Add => llvm::build_float_add(builder, lhs, rhs, name),
        BinaryOp::Sub => llvm::build_float_sub(builder, lhs, rhs, name),
        BinaryOp::Mul => llvm::build_float_mul(builder, lhs, rhs, name),
        BinaryOp::Div => llvm::build_float_div(builder, lhs, rhs, name),
    }
}

/// Emits the instructions of one lowered block at the builder's position.
/// The function answers `Ok` unless LLVM refuses an instruction.
fn emit_block<'ctx>(
    builder: &Builder<'ctx>,
    variables: &Vec<NumberSlot<'ctx>>,
    blocks: &Vec<BasicBlock<'ctx>>,
    slots: &Vec<Slot>,
    code: &Vec<SsaInstruction>,
    function: &String,
) -> (r: Result<(), TranslateError>)
    requires
        variables.len() == slots.len(),
        code_well_formed(
            Shape { slots: slots.len() as nat, blocks: blocks.len() as nat, results: 1 },
            code_view(code@),
        ),
    ensures
        r matches Err(e) ==> e@ == refusal(function@),
{
    let ghost shape = Shape { slots: slots.len() as nat, blocks: blocks.len() as nat, results: 1 };
    let ghost view = code_view(code@);
    let mut values: Vec<Option<FloatValue<'ctx>>> = Vec::new();
    let mut i: usize = 0;
    while i < code.len()
        invariant
            i <= code.len(),
            variables.len() == slots.len(),
            view == code_view(code@),
            shape == (Shape { slots: slots.len() as nat, blocks: blocks.len() as nat, results: 1 }),
            code_well_formed(shape, view),
            values.len() == i,
            forall|j: int| 0 <= j < i && view[j].yields_value() ==> (#[trigger] values@[j]) is Some,
        decreases code.len() - i,
    {
        assert(view[i as int] == code[i as int]@);
        assert(instruction_in_place(shape, view, i as int));
        match &code[i] {
            SsaInstruction::Load { slot } => {
                let loaded = built(llvm::build_load(builder, variables[*slot], slots[*slot].name.as_str()), function)?;
                let value = present(loaded, function)?;
                values.push(Some(value));
            },
            SsaInstruction::Store { slot, value } => {
                assert(defined_before(view, *value as nat, i as int));
                let stored: FloatValue<'ctx> = values[*value].unwrap();
                built(llvm::build_store(builder, variables[*slot], stored), function)?;
                values.push(None);
            },
            SsaInstruction::Binary { op, lhs, rhs } => {
                assert(defined_before(view, *lhs as nat, i as int));
                assert(defined_before(view, *rhs as nat, i as int));
                let left: FloatValue<'ctx> = values[*lhs].unwrap();
                let right: FloatValue<'ctx> = values[*rhs].unwrap();
                let value = built(emit_binary(builder, *op, left, right), function)?;
                values.push(Some(value));
            },
            SsaInstruction::Return { values: returned } => {
                let ghost vals = returned@.map_values(|v: usize| v as nat);
                assert(vals.len() == 1);
                assert(defined_before(view, vals[0], i as int));
                let value: FloatValue<'ctx> = values[returned[0]].unwrap();
                built(llvm::build_return(builder, value), function)?;
                values.push(None);
            },
            SsaInstruction::Jump { target } => {
                built(llvm::build_branch(builder, blocks[*target]), function)?;
                values.push(None);
            },
        }
        i += 1;
    }
    Ok(())
}

impl<'a, 'ctx> Translator<'a, 'ctx> {
    /// A stack allocation for one number, placed before everything that the
    /// entry block of the current function holds so far.
    fn create_stack_alloc(&self, name: &str, function: &String) -> (r: Result<NumberSlot<'ctx>, TranslateError>)
        requires
            self.fn_value_opt is Some,
        ensures
            r matches Err(e) ==> e@ == refusal(function@),
    {
        let builder = llvm::create_builder(self.context);
        let entry = present(llvm::first_block(self.fn_value_opt.unwrap().value()), function)?;
        match llvm::first_instruction(entry) {
            Some(first) => llvm::position_before(&builder, &first),
            None => llvm::position_at_end(&builder, entry),
        }
        built(llvm::build_alloca(&builder, llvm::number_type(self.context), name), function)
    }

    /// Signature lowering, into the module: declares a function named
    /// `fn_name` that takes one number for each formal, under the formal's
    /// name, and returns one number.
    ///
    /// A signature that lowering refuses is refused with the same error;
    /// one beyond the limits of the emitter is refused as unsupported.
    ///
    /// A signature without formals that is within those limits is always
    /// declared: nothing is asked of LLVM that it could refuse.
    pub fn translate_function_sig(&self, fn_name: &str, sig: &FunctionSignature) -> (r: Result<
        NumberFunction<'ctx>,
        TranslateError,
    >)
        ensures
            match lower_signature_spec(fn_name@, sig@) {
                Err(e) => r matches Err(x) && x@ == e,
                Ok(_) => match emission_limit(sig@) {
                    Some(k) => r matches Err(x) && x@ == (ErrorView::UnsupportedSignature {
                        function: fn_name@,
                        formal: k,
                    }),
                    None => r matches Err(x) ==> x@ == refusal(fn_name@),
                },
            },
            lower_signature_spec(fn_name@, sig@) is Ok && emission_limit(sig@) is None && sig@.formals.len() == 0
                ==> r is Ok,
    {
        let name = fn_name.to_owned();
        let ty = lower_signature(&name, sig)?;
        let n = sig.formals.len();
        if n > u32::MAX as usize {
            return Err(TranslateError::UnsupportedSignature { function: name, formal: u32::MAX as usize });
        }
        if sig.return_arity != 1 {
            return Err(TranslateError::UnsupportedSignature { function: name, formal: n });
        }
        let number = llvm::number_type(self.context);
        let mut params: Vec<NumberParameter<'ctx>> = Vec::new();
        let mut i: usize = 0;
        while i < n
            invariant
                i <= n,
                params.len() == i,
            decreases n - i,
        {
            params.push(llvm::parameter_type(number));
            i += 1;
        }
        let linkage: Option<Linkage> = None;
        let fn_val = llvm::add_function(self.module, fn_name, llvm::function_type(number, &params, false), linkage);
        assert(ty@.params.len() == ty.params@.len());
        let mut k: usize = 0;
        while k < n
            invariant
                k <= n,
                n <= u32::MAX,
                n == sig@.formals.len(),
                ty.params.len() == n,
                name@ == fn_name@,
                lower_signature_spec(fn_name@, sig@) is Ok,
                emission_limit(sig@) is None,
            decreases n - k,
        {
            match llvm::number_parameter(fn_val, k as u32) {
                Some(param) => llvm::set_value_name(param, ty.params[k].as_str()),
                None => {
                    return Err(TranslateError::InvalidGeneratedFunction { function: name });
                },
            }
            k += 1;
        }
        Ok(fn_val)
    }

    /// Emits the lowered form `l` of the function `f` into the module.
    fn emit_function(&mut self, f: &FunctionDefinition, l: &LoweredFunction) -> (r: Result<
        NumberFunction<'ctx>,
        TranslateError,
    >)
        requires
            lower_function_spec(f@) is Ok,
            l@ == marked(lower_function_spec(f@)->Ok_0),
        ensures
            emission_outcome(f@, r),
            r matches Ok(v) ==> final(self).fn_value_opt == Some(v) && final(self).variables.len()
                == f@.local_names().len(),
    {
        proof {
            theorem_lowering_well_formed(f@);
        }
        let function = self.translate_function_sig(f.name.as_str(), &f.signature)?;
        let entry = llvm::append_block(self.context, function.value(), "entry");
        llvm::position_at_end(self.builder, entry);
        self.fn_value_opt = Some(function);
        self.variables = Vec::new();
        let mut s: usize = 0;
        while s < l.slots.len()
            invariant
                s <= l.slots.len(),
                self.fn_value_opt == Some(function),
                self.variables.len() == s,
                well_formed(l@),
                l@.slots.len() == l.slots.len(),
                l@.ty.params.len() <= u32::MAX,
                lower_function_spec(f@) is Ok,
                emission_limit(f@.signature) is None,
            decreases l.slots.len() - s,
        {
            let slot = &l.slots[s];
            assert(l@.slots[s as int] == slot@);
            assert(slot_well_formed(l@, s as int));
            let alloca = self.create_stack_alloc(slot.name.as_str(), &f.name)?;
            match slot.init {
                Some(k) => {
                    match llvm::number_parameter(function, k as u32) {
                        Some(argument) => {
                            built(llvm::build_store(self.builder, alloca, argument), &f.name)?;
                        },
                        None => {
                            return Err(TranslateError::InvalidGeneratedFunction { function: f.name.clone() });
                        },
                    }
                },
                None => {},
            }
            self.variables.push(alloca);
            s += 1;
        }
        let mut blocks: Vec<BasicBlock<'ctx>> = Vec::new();
        let mut b: usize = 0;
        while b < l.blocks.len()
            invariant
                b <= l.blocks.len(),
                blocks.len() == b,
            decreases l.blocks.len() - b,
        {
            blocks.push(llvm::append_block(self.context, function.value(), l.blocks[b].label.as_str()));
            b += 1;
        }
        built(llvm::build_branch(self.builder, blocks[0]), &f.name)?;
        let mut c: usize = 0;
        while c < l.blocks.len()
            invariant
                c <= l.blocks.len(),
                blocks.len() == l.blocks.len(),
                self.fn_value_opt == Some(function),
                self.variables.len() == l.slots.len(),
                well_formed(l@),
                l@.slots.len() == l.slots.len(),
                l@.blocks.len() == l.blocks.len(),
                l@.ty.results == 1,
                lower_function_spec(f@) is Ok,
                emission_limit(f@.signature) is None,
            decreases l.blocks.len() - c,
        {
            assert(l@.blocks[c as int].code == code_view(l.blocks[c as int].code@));
            assert(code_well_formed(l@.shape(), l@.blocks[c as int].code));
            llvm::position_at_end(self.builder, blocks[c]);
            emit_block(self.builder, &self.variables, &blocks, &l.slots, &l.blocks[c].code, &f.name)?;
            c += 1;
        }
        conclude(llvm::function_is_valid(function.value(), true), &f.name)?;
        let handle = function.value();
        llvm::run_passes(self.fpm, &handle);
        Ok(function)
    }

    /// Lowers one function and emits it into the module: the signature
    /// first, then a stack allocation for each local, each formal's
    /// initialized from its argument, then the blocks. A function that LLVM
    /// finds valid is optimized and returned; any other is refused.
    ///
    /// The allocations of an earlier function are not kept.
    pub fn translate_function(&mut self, f: &FunctionDefinition) -> (r: Result<NumberFunction<'ctx>, TranslateError>)
        ensures
            emission_outcome(f@, r),
            r matches Ok(v) ==> final(self).fn_value_opt == Some(v) && final(self).variables.len()
                == f@.local_names().len(),
    {
        let lowered = lower_function(f)?;
        proof {
            theorem_lowering_well_formed(f@);
        }
        let checked = verify_function(lowered)?;
        self.emit_function(f, &checked)
    }

    /// Lowers the module and emits each of its functions, in the order of
    /// declaration. Nothing is emitted for a module that lowering refuses.
    pub fn translate(
        context: &'ctx Context,
        builder: &'a Builder<'ctx>,
        pass_manager: &'a PassManager<FunctionValue<'ctx>>,
        module: &'a Module<'ctx>,
        move_mod: &'a ModuleDefinition,
    ) -> (r: Result<Vec<NumberFunction<'ctx>>, TranslateError>)
        ensures
            module_outcome(move_mod@, r),
    {
        let deps: Vec<&CompiledModule> = Vec::new();
        let lowered = lower_module(move_mod, &deps)?;
        let mut tr = Translator {
            context,
            builder,
            fpm: pass_manager,
            module,
            variables: Vec::new(),
            fn_value_opt: None,
            move_mod,
        };
        let mut functions: Vec<NumberFunction<'ctx>> = Vec::new();
        let mut k: usize = 0;
        proof {
            lemma_functions_len(move_mod@, move_mod@.functions.len() as int);
        }
        while k < lowered.len()
            invariant
                k <= lowered.len(),
                functions.len() == k,
                lowered.len() == move_mod@.functions.len(),
                lower_module_spec(move_mod@) == Ok::<Seq<LoweredView>, ErrorView>(lowered_views(lowered@)),
                forall|j: int| 0 <= j < k ==> emission_limit(#[trigger] move_mod@.functions[j].signature) is None,
            decreases lowered.len() - k,
        {
            proof {
                lemma_functions_index(move_mod@, move_mod@.functions.len() as int, k as int);
            }
            let f = &move_mod.functions[k];
            assert(f@ == move_mod@.functions[k as int]);
            assert(lowered@[k as int]@ == lowered_views(lowered@)[k as int]);
            match tr.emit_function(f, &lowered[k]) {
                Ok(function) => {
                    functions.push(function);
                },
                Err(e) => {
                    assert(emission_stops_at(move_mod@, k as int, e@));
                    return Err(e);
                },
            }
            k += 1;
        }
        Ok(functions)
    }
}

/// What the emission of a module answers, as far as this side decides it:
/// the error of lowering; else one function of LLVM for each function of
/// the module, all of them within the limits of the emitter; else the
/// limit of a function, or the refusal of a function by LLVM.
pub open spec fn module_outcome<T>(m: ModuleView, r: Result<Vec<T>, TranslateError>) -> bool {
    match lower_module_spec(m) {
        Err(e) => r matches Err(x) && x@ == e,
        Ok(_) => match r {
            Ok(v) => v.len() == m.functions.len() && forall|k: int|
                0 <= k < m.functions.len() ==> emission_limit(#[trigger] m.functions[k].signature) is None,
            Err(x) => exists|k: int| #[trigger] emission_stops_at(m, k, x@),
        },
    }
}

/// The emission of the module stops at function `k` with the error: every
/// function before it is within the limits of the emitter, and the error
/// is the limit of function `k` or, where it is within the limits too, its
/// refusal by LLVM.
pub open spec fn emission_stops_at(m: ModuleView, k: int, e: ErrorView) -> bool {
    &&& 0 <= k < m.functions.len()
    &&& emission_refusal(m.functions[k], e)
    &&& forall|j: int| 0 <= j < k ==> emission_limit(#[trigger] m.functions[j].signature) is None
}

/// The error is one that the emitter gives for the function: its limit,
/// where the signature is beyond it, else a refusal by LLVM.
pub open spec fn emission_refusal(f: crate::bytecode::FunctionView, e: ErrorView) -> bool {
    match emission_limit(f.signature) {
        Some(p) => e == (ErrorView::UnsupportedSignature { function: f.name, formal: p }),
        None => e == refusal(f.name),
    }
}

/// One function of an emitted module, as text.
#[derive(Clone, Debug, PartialEq, Eq)]
pub struct EmittedFunction {
    pub name: String,
    /// The function as textual IR, after the optimizer pipeline.
    pub ir: String,
}

/// An emitted module, as text.
#[derive(Clone, Debug, PartialEq, Eq)]
pub struct EmittedModule {
    /// The whole module as textual IR: what the backend is run on.
    pub ir: String,
    /// Each function on its own, in the order of declaration.
    pub functions: Vec<EmittedFunction>,
}

/// The emitted module has one entry for each function of the module, in
/// order and under its name.
pub open spec fn emitted_for(m: ModuleView, e: EmittedModule) -> bool {
    &&& e.functions.len() == m.functions.len()
    &&& forall|k: int| 0 <= k < m.functions.len() ==> (#[trigger] e.functions[k]).name@ == m.functions[k].name
}

/// The textual IR of a module, or why there is none.
///
/// The module is lowered first; a module that lowering refuses is refused
/// with the same error before LLVM is called. Then its functions are
/// emitted into a fresh LLVM module named `tmp`, checked by LLVM and run
/// through the optimizer pipeline, and the module and each of its functions
/// are printed. The modules in `deps` are not read.
pub fn translate_module(module: ModuleDefinition, deps: Vec<&CompiledModule>) -> (r: Result<
    EmittedModule,
    TranslateError,
>)
    ensures
        match lower_module_spec(module@) {
            Err(e) => r matches Err(x) && x@ == e,
            Ok(_) => r matches Err(x) ==> exists|k: int| #[trigger] emission_stops_at(module@, k, x@),
        },
        r matches Ok(e) ==> emitted_for(module@, e) && forall|k: int|
            0 <= k < module@.functions.len() ==> emission_limit(#[trigger] module@.functions[k].signature) is None,
{
    match lower_module(&module, &deps) {
        Ok(_) => {},
        Err(e) => {
            return Err(e);
        },
    }
    let context = llvm::create_context();
    let llvm_module = llvm::create_module(&context, "tmp");
    let builder = llvm::create_builder(&context);
    let fpm = llvm::create_pass_manager(&llvm_module);
    install_pipeline(&fpm);
    let emitted = Translator::translate(&context, &builder, &fpm, &llvm_module, &module)?;
    let mut functions: Vec<EmittedFunction> = Vec::new();
    let mut k: usize = 0;
    while k < emitted.len()
        invariant
            k <= emitted.len(),
            emitted.len() == module.functions.len(),
            module@.functions.len() == module.functions.len(),
            functions.len() == k,
            forall|j: int| 0 <= j < k ==> (#[trigger] functions[j]).name@ == module@.functions[j].name,
        decreases emitted.len() - k,
    {
        assert(module@.functions[k as int] == module.functions[k as int]@);
        functions.push(EmittedFunction { name: module.functions[k].name.clone(), ir: llvm::function_text(emitted[k].value()) });
        k += 1;
    }
    Ok(EmittedModule { ir: llvm::module_text(&llvm_module), functions })
}

} // verus!
