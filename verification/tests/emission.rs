use inkwell::context::Context;
use inkwell::passes::PassManager;
use inkwell::values::AnyValue;
use move_llvm_ir::bytecode::{Block, Formal, FunctionBody, FunctionDefinition, FunctionSignature, Instruction, ModuleDefinition, ValueType};
use move_llvm_ir::emit::{built, conclude, present, result_name};
use move_llvm_ir::{translate_module, Translator};
use move_llvm_ir::error::TranslateError;
use move_llvm_ir::lowered::BinaryOp;
use move_llvm_ir::passes::{add_pass, install_pipeline, Pass};

fn func(name: &str, formals: &[&str], locals: &[&str], arity: usize, blocks: Vec<(&str, Vec<Instruction>)>) -> FunctionDefinition {
    FunctionDefinition {
        name: name.to_string(),
        signature: FunctionSignature {
            formals: formals.iter().map(|n| Formal { name: n.to_string(), ty: ValueType::U64 }).collect(),
            return_arity: arity,
        },
        body: FunctionBody {
            locals: locals.iter().map(|n| n.to_string()).collect(),
            blocks: blocks.into_iter().map(|(label, code)| Block { label: label.to_string(), code }).collect(),
        },
    }
}

fn two_operands(name: &str, op: Instruction) -> FunctionDefinition {
    func(
        name,
        &["a", "b"],
        &[],
        1,
        vec![(
            "start",
            vec![Instruction::MoveLoc("a".to_string()), Instruction::MoveLoc("b".to_string()), op, Instruction::Ret],
        )],
    )
}

fn module(functions: Vec<FunctionDefinition>) -> ModuleDefinition {
    ModuleDefinition { name: "m".to_string(), functions }
}

#[test]
fn adder_is_emitted_as_one_addition() {
    let emitted = translate_module(module(vec![two_operands("sum", Instruction::Add)]), vec![]).unwrap();
    assert_eq!(emitted.functions.len(), 1);
    assert_eq!(emitted.functions[0].name, "sum");
    assert!(emitted.functions[0].ir.starts_with("define double @sum(double %a, double %b)"), "{}", emitted.functions[0].ir);
    assert!(!emitted.functions[0].ir.contains("ModuleID"));
    let text = emitted.ir;
    assert!(text.contains("define double @sum(double %a, double %b)"), "{}", text);
    assert!(text.contains("%tmpadd = fadd double %a, %b"), "{}", text);
    assert!(text.contains("ret double %tmpadd"), "{}", text);
    assert!(!text.contains("alloca"), "{}", text);
    assert!(text.contains("ModuleID = 'tmp'"), "{}", text);
}

#[test]
fn operands_keep_their_sides() {
    let text = translate_module(
        module(vec![
            two_operands("difference", Instruction::Sub),
            two_operands("quotient", Instruction::Div),
            two_operands("product", Instruction::Mul),
        ]),
        vec![],
    )
    .unwrap()
    .ir;
    assert!(text.contains("%tmpsub = fsub double %a, %b"), "{}", text);
    assert!(text.contains("%tmpdiv = fdiv double %a, %b"), "{}", text);
    assert!(text.contains("%tmpmul = fmul double %a, %b") || text.contains("%tmpmul = fmul double %b, %a"), "{}", text);
}

#[test]
fn two_names_give_two_functions() {
    let emitted = translate_module(
        module(vec![two_operands("one", Instruction::Add), two_operands("two", Instruction::Add)]),
        vec![],
    )
    .unwrap();
    assert_eq!(emitted.functions.len(), 2);
    assert_eq!(emitted.functions[0].name, "one");
    assert_eq!(emitted.functions[1].name, "two");
    assert_eq!(emitted.functions[0].ir.replace("@one", "@two"), emitted.functions[1].ir);
    let text = emitted.ir;
    assert!(text.contains("define double @one(double %a, double %b)"), "{}", text);
    assert!(text.contains("define double @two(double %a, double %b)"), "{}", text);
    assert_eq!(text.matches("fadd double %a, %b").count(), 2, "{}", text);
}

#[test]
fn blocks_and_declared_locals_are_emitted() {
    let f = func(
        "f",
        &["a", "b"],
        &["t"],
        1,
        vec![
            ("start", vec![Instruction::MoveLoc("a".to_string()), Instruction::StLoc("t".to_string()), Instruction::Branch("exit".to_string())]),
            ("dead", vec![Instruction::MoveLoc("b".to_string()), Instruction::StLoc("t".to_string())]),
            (
                "exit",
                vec![Instruction::MoveLoc("t".to_string()), Instruction::MoveLoc("b".to_string()), Instruction::Sub, Instruction::Ret],
            ),
        ],
    );
    let text = translate_module(module(vec![f]), vec![]).unwrap().ir;
    assert!(text.contains("define double @f(double %a, double %b)"), "{}", text);
    assert!(text.contains("fsub double %a, %b"), "{}", text);
    assert!(!text.contains("alloca"), "{}", text);
}

#[test]
fn lowering_errors_come_before_llvm() {
    let bad = func("bad", &["a"], &[], 1, vec![("b0", vec![Instruction::Ret])]);
    assert_eq!(
        translate_module(module(vec![two_operands("ok", Instruction::Add), bad]), vec![]),
        Err(TranslateError::StackUnderflow { function: "bad".to_string(), block: 0, offset: 0 })
    );
    assert_eq!(translate_module(module(vec![]), vec![]), Err(TranslateError::MalformedModule { function: None }));
}

#[test]
fn only_one_returned_value_can_be_emitted() {
    let none = func("none", &["a"], &[], 0, vec![("b0", vec![])]);
    let mut with_code = none.clone();
    with_code.body.blocks[0].code = vec![Instruction::CopyLoc("a".to_string()), Instruction::StLoc("a".to_string())];
    assert_eq!(
        translate_module(module(vec![with_code]), vec![]),
        Err(TranslateError::UnsupportedSignature { function: "none".to_string(), formal: 1 })
    );
    let pair = func(
        "pair",
        &["a", "b"],
        &[],
        2,
        vec![("b0", vec![Instruction::MoveLoc("a".to_string()), Instruction::MoveLoc("b".to_string()), Instruction::Ret])],
    );
    assert_eq!(
        translate_module(module(vec![pair]), vec![]),
        Err(TranslateError::UnsupportedSignature { function: "pair".to_string(), formal: 2 })
    );
}

#[test]
fn signature_is_declared_with_named_parameters() {
    let context = Context::create();
    let llvm_module = context.create_module("sig");
    let builder = context.create_builder();
    let fpm = PassManager::create(&llvm_module);
    let source = module(vec![two_operands("sum", Instruction::Add)]);
    let tr = Translator {
        context: &context,
        builder: &builder,
        fpm: &fpm,
        module: &llvm_module,
        variables: vec![],
        fn_value_opt: None,
        move_mod: &source,
    };
    let function = tr.translate_function_sig("sum", &source.functions[0].signature).unwrap().value();
    assert_eq!(function.count_params(), 2);
    assert_eq!(function.get_name().to_str().unwrap(), "sum");
    let text = function.print_to_string().to_string();
    assert!(text.contains("declare double @sum(double"), "{}", text);
    let mut unsupported = source.functions[0].signature.clone();
    unsupported.formals[0].ty = ValueType::Bool;
    assert_eq!(
        tr.translate_function_sig("g", &unsupported).err(),
        Some(TranslateError::UnsupportedSignature { function: "g".to_string(), formal: 0 })
    );
}

#[test]
fn signature_without_formals_is_always_declared() {
    let context = Context::create();
    let llvm_module = context.create_module("sig");
    let builder = context.create_builder();
    let fpm = PassManager::create(&llvm_module);
    let source = module(vec![]);
    let tr = Translator {
        context: &context,
        builder: &builder,
        fpm: &fpm,
        module: &llvm_module,
        variables: vec![],
        fn_value_opt: None,
        move_mod: &source,
    };
    let sig = FunctionSignature { formals: vec![], return_arity: 1 };
    let function = tr.translate_function_sig("k", &sig).unwrap().value();
    assert_eq!(function.get_name().to_str().unwrap(), "k");
    assert_eq!(function.count_params(), 0);
    assert_eq!(function.get_type().get_return_type(), Some(context.f64_type().into()));
    assert!(!function.get_type().is_var_arg());
    assert_eq!(function.print_to_string().to_string().trim(), "declare double @k()");
}

#[test]
fn emission_stops_at_the_first_function_beyond_the_limits() {
    let pair = |name: &str| {
        func(
            name,
            &["a", "b"],
            &[],
            2,
            vec![("b0", vec![Instruction::MoveLoc("a".to_string()), Instruction::MoveLoc("b".to_string()), Instruction::Ret])],
        )
    };
    assert_eq!(
        translate_module(module(vec![pair("first"), two_operands("second", Instruction::Add), pair("third")]), vec![]),
        Err(TranslateError::UnsupportedSignature { function: "first".to_string(), formal: 2 })
    );
    assert_eq!(
        translate_module(module(vec![two_operands("first", Instruction::Add), pair("second"), pair("third")]), vec![]),
        Err(TranslateError::UnsupportedSignature { function: "second".to_string(), formal: 2 })
    );
}

#[test]
fn translate_function_keeps_the_allocations_of_the_current_function_only() {
    let context = Context::create();
    let llvm_module = context.create_module("one");
    let builder = context.create_builder();
    let fpm = PassManager::create(&llvm_module);
    install_pipeline(&fpm);
    let source = module(vec![
        two_operands("sum", Instruction::Add),
        func("id", &["x"], &["t", "u"], 1, vec![("b0", vec![Instruction::MoveLoc("x".to_string()), Instruction::Ret])]),
    ]);
    let mut tr = Translator {
        context: &context,
        builder: &builder,
        fpm: &fpm,
        module: &llvm_module,
        variables: vec![],
        fn_value_opt: None,
        move_mod: &source,
    };
    let first = tr.translate_function(&source.functions[0]).unwrap();
    assert_eq!(tr.variables.len(), 2);
    assert_eq!(tr.fn_value_opt, Some(first));
    let second = tr.translate_function(&source.functions[1]).unwrap();
    assert_eq!(tr.variables.len(), 3);
    assert_eq!(tr.fn_value_opt, Some(second));
    assert!(first.value().verify(false) && second.value().verify(false));
    let bad = func("bad", &["a"], &[], 1, vec![("b0", vec![Instruction::Add])]);
    assert_eq!(
        tr.translate_function(&bad).err(),
        Some(TranslateError::StackUnderflow { function: "bad".to_string(), block: 0, offset: 0 })
    );
}

#[test]
fn translate_emits_every_function_in_order() {
    let context = Context::create();
    let llvm_module = context.create_module("all");
    let builder = context.create_builder();
    let fpm = PassManager::create(&llvm_module);
    install_pipeline(&fpm);
    let source = module(vec![two_operands("first", Instruction::Add), two_operands("second", Instruction::Mul)]);
    let functions = Translator::translate(&context, &builder, &fpm, &llvm_module, &source).unwrap();
    assert_eq!(functions.len(), 2);
    assert_eq!(functions[0].value().get_name().to_str().unwrap(), "first");
    assert_eq!(functions[1].value().get_name().to_str().unwrap(), "second");
    assert!(llvm_module.verify().is_ok());
}

#[test]
fn without_passes_the_slots_stand_at_the_start_of_the_entry_block() {
    let context = Context::create();
    let llvm_module = context.create_module("raw");
    let builder = context.create_builder();
    let fpm = PassManager::create(&llvm_module);
    fpm.initialize();
    let source = module(vec![func(
        "f",
        &["a"],
        &["t"],
        1,
        vec![("body", vec![Instruction::MoveLoc("a".to_string()), Instruction::StLoc("t".to_string()), Instruction::MoveLoc("t".to_string()), Instruction::Ret])],
    )]);
    let functions = Translator::translate(&context, &builder, &fpm, &llvm_module, &source).unwrap();
    let text = functions[0].value().print_to_string().to_string();
    let lines: Vec<&str> = text.lines().map(|l| l.trim()).filter(|l| !l.is_empty()).collect();
    assert_eq!(
        lines,
        vec![
            "define double @f(double %a) {",
            "entry:",
            "%t = alloca double, align 8",
            "%a1 = alloca double, align 8",
            "store double %a, double* %a1, align 8",
            "br label %body",
            "body:                                             ; preds = %entry",
            "%a2 = load double, double* %a1, align 8",
            "store double %a2, double* %t, align 8",
            "%t3 = load double, double* %t, align 8",
            "ret double %t3",
            "}",
        ],
        "{}",
        text
    );
}

#[test]
fn running_the_pipeline_again_changes_nothing() {
    let context = Context::create();
    let llvm_module = context.create_module("twice");
    let builder = context.create_builder();
    let fpm = PassManager::create(&llvm_module);
    install_pipeline(&fpm);
    let source = module(vec![func(
        "f",
        &["a", "b"],
        &["t"],
        1,
        vec![(
            "body",
            vec![
                Instruction::CopyLoc("a".to_string()),
                Instruction::CopyLoc("b".to_string()),
                Instruction::Mul,
                Instruction::StLoc("t".to_string()),
                Instruction::MoveLoc("t".to_string()),
                Instruction::MoveLoc("a".to_string()),
                Instruction::Add,
                Instruction::Ret,
            ],
        )],
    )]);
    let functions = Translator::translate(&context, &builder, &fpm, &llvm_module, &source).unwrap();
    let once = functions[0].value().print_to_string().to_string();
    fpm.run_on(&functions[0].value());
    let twice = functions[0].value().print_to_string().to_string();
    assert_eq!(once, twice);
    fpm.run_on(&functions[0].value());
    assert_eq!(functions[0].value().print_to_string().to_string(), once);
    assert!(!once.contains("alloca"), "{}", once);
}

#[test]
fn one_pass_can_be_added_alone() {
    let context = Context::create();
    let llvm_module = context.create_module("single");
    let builder = context.create_builder();
    let fpm = PassManager::create(&llvm_module);
    add_pass(&fpm, Pass::PromoteMemoryToRegister);
    fpm.initialize();
    let source = module(vec![two_operands("sum", Instruction::Add)]);
    let functions = Translator::translate(&context, &builder, &fpm, &llvm_module, &source).unwrap();
    let text = functions[0].value().print_to_string().to_string();
    assert!(!text.contains("alloca"), "{}", text);
    assert!(text.contains("fadd double %a, %b"), "{}", text);
}

#[test]
fn llvm_verdict_decides() {
    assert_eq!(conclude(true, &"f".to_string()), Ok(()));
    assert_eq!(
        conclude(false, &"f".to_string()),
        Err(TranslateError::InvalidGeneratedFunction { function: "f".to_string() })
    );
}

#[test]
fn builder_failure_is_a_refusal() {
    let context = Context::create();
    let builder = context.create_builder();
    let unpositioned = builder.build_alloca(context.f64_type(), "x");
    assert!(unpositioned.is_err());
    assert_eq!(
        built(unpositioned, &"f".to_string()).err(),
        Some(TranslateError::InvalidGeneratedFunction { function: "f".to_string() })
    );
    assert_eq!(built(Ok(7), &"f".to_string()), Ok(7));
}

#[test]
fn what_llvm_does_not_give_is_a_refusal() {
    assert_eq!(present(Some(7), &"f".to_string()), Ok(7));
    assert_eq!(
        present(None::<u8>, &"f".to_string()),
        Err(TranslateError::InvalidGeneratedFunction { function: "f".to_string() })
    );
}

#[test]
fn results_are_named_after_their_operation() {
    assert_eq!(result_name(BinaryOp::Add), "tmpadd");
    assert_eq!(result_name(BinaryOp::Sub), "tmpsub");
    assert_eq!(result_name(BinaryOp::Mul), "tmpmul");
    assert_eq!(result_name(BinaryOp::Div), "tmpdiv");
}
