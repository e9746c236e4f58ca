use move_llvm_ir::bytecode::{Block, CompiledModule, Formal, FunctionBody, FunctionDefinition, FunctionSignature, Instruction, ModuleDefinition, ValueType};
use move_llvm_ir::error::TranslateError;
use move_llvm_ir::ingest::{check_function, ingest};

fn function(name: &str, formals: &[&str], locals: &[&str], blocks: Vec<(&str, Vec<Instruction>)>) -> FunctionDefinition {
    FunctionDefinition {
        name: name.to_string(),
        signature: FunctionSignature {
            formals: formals.iter().map(|n| Formal { name: n.to_string(), ty: ValueType::U64 }).collect(),
            return_arity: 1,
        },
        body: FunctionBody {
            locals: locals.iter().map(|n| n.to_string()).collect(),
            blocks: blocks.into_iter().map(|(label, code)| Block { label: label.to_string(), code }).collect(),
        },
    }
}

fn module(functions: Vec<FunctionDefinition>) -> ModuleDefinition {
    ModuleDefinition { name: "m".to_string(), functions }
}

fn mv(name: &str) -> Instruction {
    Instruction::MoveLoc(name.to_string())
}

#[test]
fn empty_module_is_malformed_without_a_function_name() {
    let m = module(vec![]);
    assert_eq!(ingest(&m, &vec![]), Err(TranslateError::MalformedModule { function: None }));
}

#[test]
fn sound_module_yields_its_functions_in_order() {
    let m = module(vec![
        function("first", &["a"], &[], vec![("b0", vec![mv("a"), Instruction::Ret])]),
        function("second", &["x"], &["t"], vec![("b0", vec![mv("x"), Instruction::StLoc("t".to_string()), mv("t"), Instruction::Ret])]),
    ]);
    let worklist = ingest(&m, &vec![]).unwrap();
    assert_eq!(worklist.len(), 2);
    assert_eq!(worklist[0].name, "first");
    assert_eq!(worklist[1].name, "second");
    assert_eq!(*worklist[1], m.functions[1]);
}

#[test]
fn dependencies_are_not_read() {
    let m = module(vec![function("f", &["a"], &[], vec![("b0", vec![mv("a"), Instruction::Ret])])]);
    let dep = CompiledModule { name: "dep".to_string() };
    let with = ingest(&m, &vec![&dep]).unwrap().len();
    let without = ingest(&m, &vec![]).unwrap().len();
    assert_eq!(with, without);
}

#[test]
fn undefined_branch_target_is_refused_before_lowering() {
    let m = module(vec![
        function("good", &["a"], &[], vec![("b0", vec![mv("a"), Instruction::Ret])]),
        function("bad", &["a"], &[], vec![("b0", vec![Instruction::Branch("nowhere".to_string())])]),
    ]);
    assert_eq!(ingest(&m, &vec![]), Err(TranslateError::MalformedModule { function: Some("bad".to_string()) }));
    assert_eq!(
        move_llvm_ir::pipeline::lower_module(&m, &vec![]),
        Err(TranslateError::MalformedModule { function: Some("bad".to_string()) })
    );
    assert_eq!(
        move_llvm_ir::emit::translate_module(m, vec![]).err(),
        Some(TranslateError::MalformedModule { function: Some("bad".to_string()) })
    );
}

#[test]
fn defined_branch_target_is_accepted() {
    let f = function(
        "f",
        &["a"],
        &[],
        vec![("b0", vec![Instruction::Branch("b1".to_string())]), ("b1", vec![mv("a"), Instruction::Ret])],
    );
    assert!(check_function(&f));
}

#[test]
fn undefined_local_is_refused() {
    for ins in [mv("zz"), Instruction::CopyLoc("zz".to_string()), Instruction::StLoc("zz".to_string())] {
        let f = function("f", &["a"], &["t"], vec![("b0", vec![mv("a"), ins, Instruction::Ret])]);
        assert!(!check_function(&f));
    }
}

#[test]
fn declared_local_and_formal_are_both_known() {
    let f = function(
        "f",
        &["a"],
        &["t"],
        vec![("b0", vec![Instruction::CopyLoc("a".to_string()), Instruction::StLoc("t".to_string()), mv("t"), Instruction::Ret])],
    );
    assert!(check_function(&f));
    assert!(f.has_local(&"a".to_string()));
    assert!(f.has_local(&"t".to_string()));
    assert!(!f.has_local(&"b0".to_string()));
    assert!(f.has_block(&"b0".to_string()));
    assert!(!f.has_block(&"a".to_string()));
    assert_eq!(f.find_block(&"b0".to_string()), Some(0));
    assert_eq!(f.find_block(&"b9".to_string()), None);
}

#[test]
fn body_without_instruction_is_refused() {
    assert!(!check_function(&function("f", &[], &[], vec![])));
    assert!(!check_function(&function("f", &[], &[], vec![("b0", vec![]), ("b1", vec![])])));
    assert!(check_function(&function("f", &[], &[], vec![("b0", vec![]), ("b1", vec![Instruction::Ret])])));
}

#[test]
fn first_malformed_function_is_named() {
    let m = module(vec![
        function("ok", &["a"], &[], vec![("b0", vec![mv("a"), Instruction::Ret])]),
        function("bad1", &[], &[], vec![]),
        function("bad2", &[], &[], vec![("b0", vec![mv("q")])]),
    ]);
    assert_eq!(ingest(&m, &vec![]), Err(TranslateError::MalformedModule { function: Some("bad1".to_string()) }));
}
