use move_llvm_ir::bytecode::{Block, Formal, FunctionBody, FunctionDefinition, FunctionSignature, Instruction, ModuleDefinition, ValueType};
use move_llvm_ir::error::TranslateError;
use move_llvm_ir::locals::{allocate_locals, slot_of};
use move_llvm_ir::lowered::{BinaryOp, LoweredBlock, LoweredFunction, Slot, SsaInstruction, TargetType};
use move_llvm_ir::lowering::{lower_block, lower_function};
use move_llvm_ir::pipeline::lower_module;
use move_llvm_ir::signature::{is_supported, lower_signature};
use move_llvm_ir::wellformed::{is_well_formed, verify_function};

fn func(name: &str, formals: &[&str], locals: &[&str], arity: usize, blocks: Vec<(&str, Vec<Instruction>)>) -> FunctionDefinition {
    FunctionDefinition {
        name: name.to_string(),
        signature: FunctionSignature {
            formals: formals.iter().map(|n| Formal { name: n.to_string(), ty: ValueType::U64 }).collect(),
            return_arity: arity,
        },
        body: FunctionBody {
            locals: locals.iter().map(|n| n.to_string()).collect(),
            blocks: blocks.into_iter().map(|(label, code)| Block { label: label.to_string(), code }).collect(),
        },
    }
}

fn mov(name: &str) -> Instruction {
    Instruction::MoveLoc(name.to_string())
}

fn cpy(name: &str) -> Instruction {
    Instruction::CopyLoc(name.to_string())
}

fn st(name: &str) -> Instruction {
    Instruction::StLoc(name.to_string())
}

fn br(label: &str) -> Instruction {
    Instruction::Branch(label.to_string())
}

fn adder(name: &str) -> FunctionDefinition {
    func(name, &["a", "b"], &[], 1, vec![("entry", vec![mov("a"), mov("b"), Instruction::Add, Instruction::Ret])])
}

fn underflow(f: &str, block: usize, offset: usize) -> TranslateError {
    TranslateError::StackUnderflow { function: f.to_string(), block, offset }
}

fn unbalanced(f: &str, block: usize, offset: usize) -> TranslateError {
    TranslateError::UnbalancedStack { function: f.to_string(), block, offset }
}

// A small machine for the stack form, on floating-point numbers.
fn run_source(f: &FunctionDefinition, args: &[f64]) -> Option<Vec<f64>> {
    let mut names: Vec<String> = f.signature.formals.iter().map(|x| x.name.clone()).collect();
    names.extend(f.body.locals.iter().cloned());
    let mut locals: Vec<Option<f64>> = names.iter().enumerate().map(|(i, _)| args.get(i).copied()).collect();
    let mut stack: Vec<f64> = vec![];
    let mut block = 0;
    for _ in 0..1000 {
        let code = &f.body.blocks.get(block)?.code;
        let mut next = block + 1;
        let mut jumped = false;
        for ins in code {
            match ins {
                Instruction::MoveLoc(x) => {
                    let s = names.iter().position(|n| n == x)?;
                    stack.push(locals[s].take()?);
                }
                Instruction::CopyLoc(x) => {
                    let s = names.iter().position(|n| n == x)?;
                    stack.push(locals[s]?);
                }
                Instruction::StLoc(x) => {
                    let s = names.iter().position(|n| n == x)?;
                    locals[s] = Some(stack.pop()?);
                }
                Instruction::Ret => {
                    if stack.len() < f.signature.return_arity {
                        return None;
                    }
                    return Some(stack.split_off(stack.len() - f.signature.return_arity));
                }
                Instruction::Branch(l) => {
                    next = f.body.blocks.iter().position(|b| &b.label == l)?;
                    jumped = true;
                    break;
                }
                op => {
                    let r = stack.pop()?;
                    let l = stack.pop()?;
                    stack.push(match op {
                        Instruction::Add => l + r,
                        Instruction::Sub => l - r,
                        Instruction::Mul => l * r,
                        _ => l / r,
                    });
                }
            }
        }
        if !jumped && next >= f.body.blocks.len() {
            return if f.signature.return_arity == 0 { Some(vec![]) } else { None };
        }
        block = next;
    }
    None
}

// A small machine for the lowered form, on floating-point numbers.
fn run_lowered(f: &LoweredFunction, args: &[f64]) -> Option<Vec<f64>> {
    let mut memory: Vec<f64> = f.slots.iter().map(|s| s.init.map(|k| args[k]).unwrap_or(f64::NAN)).collect();
    let mut block = 0;
    for _ in 0..1000 {
        let mut values: Vec<f64> = vec![];
        let mut next = None;
        for ins in &f.blocks.get(block)?.code {
            match ins {
                SsaInstruction::Load { slot } => values.push(memory[*slot]),
                SsaInstruction::Store { slot, value } => {
                    memory[*slot] = values[*value];
                    values.push(values[*value]);
                }
                SsaInstruction::Binary { op, lhs, rhs } => {
                    let (l, r) = (values[*lhs], values[*rhs]);
                    values.push(match op {
                        BinaryOp::Add => l + r,
                        BinaryOp::Sub => l - r,
                        BinaryOp::Mul => l * r,
                        BinaryOp::Div => l / r,
                    });
                }
                SsaInstruction::Return { values: returned } => {
                    return Some(returned.iter().map(|v| values[*v]).collect());
                }
                SsaInstruction::Jump { target } => {
                    next = Some(*target);
                    break;
                }
            }
        }
        block = next?;
    }
    None
}

#[test]
fn adder_lowers_to_two_loads_an_addition_and_a_return() {
    let lowered = lower_function(&adder("sum")).unwrap();
    assert_eq!(
        lowered,
        LoweredFunction {
            name: "sum".to_string(),
            ty: TargetType { params: vec!["a".to_string(), "b".to_string()], results: 1 },
            slots: vec![
                Slot { name: "a".to_string(), init: Some(0) },
                Slot { name: "b".to_string(), init: Some(1) },
            ],
            blocks: vec![LoweredBlock {
                label: "entry".to_string(),
                code: vec![
                    SsaInstruction::Load { slot: 0 },
                    SsaInstruction::Load { slot: 1 },
                    SsaInstruction::Binary { op: BinaryOp::Add, lhs: 0, rhs: 1 },
                    SsaInstruction::Return { values: vec![2] },
                ],
            }],
            verified: false,
        }
    );
}

#[test]
fn adder_adds() {
    let lowered = lower_function(&adder("sum")).unwrap();
    assert_eq!(run_lowered(&lowered, &[3.0, 4.0]), Some(vec![7.0]));
    assert_eq!(run_lowered(&lowered, &[-1.0, 1.0]), Some(vec![0.0]));
    assert_eq!(run_source(&adder("sum"), &[3.0, 4.0]), Some(vec![7.0]));
    assert_eq!(run_source(&adder("sum"), &[-1.0, 1.0]), Some(vec![0.0]));
}

#[test]
fn first_pop_is_the_right_operand() {
    for (op, expected) in [
        (Instruction::Sub, 10.0 - 4.0),
        (Instruction::Div, 10.0 / 4.0),
        (Instruction::Mul, 40.0),
        (Instruction::Add, 14.0),
    ] {
        let f = func("f", &["a", "b"], &[], 1, vec![("b0", vec![mov("a"), mov("b"), op, Instruction::Ret])]);
        let lowered = lower_function(&f).unwrap();
        assert_eq!(run_lowered(&lowered, &[10.0, 4.0]), Some(vec![expected]));
        assert_eq!(run_source(&f, &[10.0, 4.0]), Some(vec![expected]));
    }
    let f = func("f", &["a", "b"], &[], 1, vec![("b0", vec![mov("a"), mov("b"), Instruction::Sub, Instruction::Ret])]);
    assert_eq!(
        lower_function(&f).unwrap().blocks[0].code[2],
        SsaInstruction::Binary { op: BinaryOp::Sub, lhs: 0, rhs: 1 }
    );
}

#[test]
fn returned_values_come_in_push_order() {
    let f = func("pair", &["a", "b"], &[], 2, vec![("b0", vec![mov("a"), mov("b"), Instruction::Ret])]);
    let lowered = lower_function(&f).unwrap();
    assert_eq!(lowered.blocks[0].code[2], SsaInstruction::Return { values: vec![0, 1] });
    assert_eq!(run_lowered(&lowered, &[1.0, 2.0]), Some(vec![1.0, 2.0]));
    assert_eq!(run_source(&f, &[1.0, 2.0]), Some(vec![1.0, 2.0]));
}

#[test]
fn stack_depth_at_return_is_the_arity() {
    for arity in 0..4usize {
        let mut code: Vec<Instruction> = (0..arity).map(|_| cpy("a")).collect();
        code.push(Instruction::Ret);
        let f = func("f", &["a"], &[], arity, vec![("b0", code)]);
        let lowered = lower_function(&f).unwrap();
        match lowered.blocks[0].code.last().unwrap() {
            SsaInstruction::Return { values } => assert_eq!(values.len(), arity),
            other => panic!("no return: {:?}", other),
        }
    }
}

#[test]
fn store_then_reload_goes_through_the_slot() {
    let f = func(
        "f",
        &["a", "b"],
        &["t"],
        1,
        vec![("b0", vec![mov("a"), mov("b"), Instruction::Mul, st("t"), cpy("t"), cpy("t"), Instruction::Add, Instruction::Ret])],
    );
    let lowered = lower_function(&f).unwrap();
    assert_eq!(lowered.slots[2], Slot { name: "t".to_string(), init: None });
    assert_eq!(lowered.blocks[0].code[3], SsaInstruction::Store { slot: 2, value: 2 });
    assert_eq!(lowered.blocks[0].code[6], SsaInstruction::Binary { op: BinaryOp::Add, lhs: 4, rhs: 5 });
    assert_eq!(run_lowered(&lowered, &[3.0, 5.0]), Some(vec![30.0]));
    assert_eq!(run_source(&f, &[3.0, 5.0]), Some(vec![30.0]));
}

#[test]
fn copy_then_second_use_succeeds() {
    let f = func("twice", &["x"], &[], 1, vec![("b0", vec![cpy("x"), cpy("x"), Instruction::Add, Instruction::Ret])]);
    let lowered = lower_function(&f).unwrap();
    assert_eq!(run_lowered(&lowered, &[21.0]), Some(vec![42.0]));
    assert_eq!(run_source(&f, &[21.0]), Some(vec![42.0]));
}

#[test]
fn move_then_second_use_lowers_like_a_copy_and_is_stuck_on_the_stack_machine() {
    let moved = func("twice", &["x"], &[], 1, vec![("b0", vec![mov("x"), mov("x"), Instruction::Add, Instruction::Ret])]);
    let copied = func("twice", &["x"], &[], 1, vec![("b0", vec![cpy("x"), cpy("x"), Instruction::Add, Instruction::Ret])]);
    assert_eq!(lower_function(&moved), lower_function(&copied));
    assert!(lower_function(&moved).is_ok());
    assert_eq!(run_source(&moved, &[21.0]), None);
}

#[test]
fn move_store_move_is_no_violation() {
    let f = func("f", &["x"], &[], 1, vec![("b0", vec![mov("x"), st("x"), mov("x"), Instruction::Ret])]);
    assert_eq!(run_source(&f, &[5.0]), Some(vec![5.0]));
    assert_eq!(run_lowered(&lower_function(&f).unwrap(), &[5.0]), Some(vec![5.0]));
}

#[test]
fn return_with_too_few_values_underflows() {
    let f = func("f", &["a"], &[], 1, vec![("b0", vec![Instruction::Ret])]);
    assert_eq!(lower_function(&f), Err(underflow("f", 0, 0)));
    let g = func("g", &["a"], &[], 2, vec![("b0", vec![mov("a"), Instruction::Ret])]);
    assert_eq!(lower_function(&g), Err(underflow("g", 0, 1)));
}

#[test]
fn pop_from_empty_stack_underflows() {
    let f = func("f", &["a"], &[], 1, vec![("b0", vec![st("a"), Instruction::Ret])]);
    assert_eq!(lower_function(&f), Err(underflow("f", 0, 0)));
    let g = func("g", &["a"], &[], 1, vec![("b0", vec![mov("a"), Instruction::Add, Instruction::Ret])]);
    assert_eq!(lower_function(&g), Err(underflow("g", 0, 1)));
    let h = func("h", &["a"], &[], 1, vec![("skip", vec![br("b1")]), ("b1", vec![Instruction::Mul])]);
    assert_eq!(lower_function(&h), Err(underflow("h", 1, 0)));
}

#[test]
fn return_with_too_many_values_is_unbalanced() {
    let f = func("f", &["a"], &[], 1, vec![("b0", vec![cpy("a"), cpy("a"), Instruction::Ret])]);
    assert_eq!(lower_function(&f), Err(unbalanced("f", 0, 2)));
}

#[test]
fn end_without_terminator_is_unbalanced_unless_nothing_is_returned() {
    let left_over = func("f", &["a"], &[], 0, vec![("b0", vec![cpy("a")])]);
    assert_eq!(lower_function(&left_over), Err(unbalanced("f", 0, 1)));
    let return_required = func("g", &["a"], &[], 1, vec![("b0", vec![cpy("a"), st("a")])]);
    assert_eq!(lower_function(&return_required), Err(unbalanced("g", 0, 2)));
    let nothing = func("h", &["a"], &[], 0, vec![("b0", vec![cpy("a"), st("a")])]);
    let lowered = lower_function(&nothing).unwrap();
    assert_eq!(lowered.blocks[0].code[2], SsaInstruction::Return { values: vec![] });
    assert_eq!(run_lowered(&lowered, &[1.0]), Some(vec![]));
    assert_eq!(run_source(&nothing, &[1.0]), Some(vec![]));
}

#[test]
fn branch_with_pending_value_is_unbalanced() {
    let f = func("f", &["a"], &[], 1, vec![("b0", vec![cpy("a"), br("b1")]), ("b1", vec![cpy("a"), Instruction::Ret])]);
    assert_eq!(lower_function(&f), Err(unbalanced("f", 0, 1)));
    let g = func("g", &["a"], &[], 1, vec![("b0", vec![cpy("a")]), ("b1", vec![Instruction::Ret])]);
    assert_eq!(lower_function(&g), Err(unbalanced("g", 0, 1)));
}

#[test]
fn nothing_is_emitted_after_a_terminator() {
    let f = func("f", &["a"], &[], 1, vec![("b0", vec![cpy("a"), Instruction::Ret, Instruction::Add, st("zz")])]);
    let lowered = lower_function(&f).unwrap();
    assert_eq!(
        lowered.blocks[0].code,
        vec![SsaInstruction::Load { slot: 0 }, SsaInstruction::Return { values: vec![0] }]
    );
}

#[test]
fn blocks_are_joined_by_jumps() {
    let f = func(
        "f",
        &["a", "b"],
        &["t"],
        1,
        vec![
            ("start", vec![mov("a"), st("t"), br("exit")]),
            ("dead", vec![mov("b"), st("t")]),
            ("exit", vec![mov("t"), mov("b"), Instruction::Sub, Instruction::Ret]),
        ],
    );
    let lowered = lower_function(&f).unwrap();
    assert_eq!(lowered.blocks.len(), 3);
    assert_eq!(lowered.blocks[0].code[2], SsaInstruction::Jump { target: 2 });
    assert_eq!(lowered.blocks[1].code[2], SsaInstruction::Jump { target: 2 });
    assert_eq!(lowered.blocks[2].label, "exit");
    assert!(is_well_formed(&lowered));
    assert_eq!(run_lowered(&lowered, &[9.0, 2.0]), Some(vec![7.0]));
    assert_eq!(run_source(&f, &[9.0, 2.0]), Some(vec![7.0]));
}

#[test]
fn unknown_names_are_malformed_in_lowering_too() {
    let malformed = |f: &str| Err(TranslateError::MalformedModule { function: Some(f.to_string()) });
    assert_eq!(lower_function(&func("f", &["a"], &[], 1, vec![("b0", vec![mov("q"), Instruction::Ret])])), malformed("f"));
    assert_eq!(lower_function(&func("g", &["a"], &[], 1, vec![("b0", vec![br("q")])])), malformed("g"));
    assert_eq!(lower_function(&func("h", &["a"], &[], 1, vec![])), malformed("h"));
    assert_eq!(lower_function(&func("i", &["a"], &[], 1, vec![("b0", vec![cpy("a"), st("q")])])), malformed("i"));
}

#[test]
fn lower_block_lowers_the_block_asked_for() {
    let f = func("f", &["a"], &[], 1, vec![("b0", vec![br("b1")]), ("b1", vec![cpy("a"), Instruction::Ret])]);
    let slots = allocate_locals(&f).unwrap();
    let block = lower_block(&f, &slots, 1).unwrap();
    assert_eq!(block.label, "b1");
    assert_eq!(block.code, vec![SsaInstruction::Load { slot: 0 }, SsaInstruction::Return { values: vec![0] }]);
}

#[test]
fn unsupported_formal_type_is_refused() {
    let sig = FunctionSignature {
        formals: vec![
            Formal { name: "a".to_string(), ty: ValueType::U8 },
            Formal { name: "b".to_string(), ty: ValueType::Address },
            Formal { name: "c".to_string(), ty: ValueType::Bool },
        ],
        return_arity: 1,
    };
    assert_eq!(
        lower_signature(&"f".to_string(), &sig),
        Err(TranslateError::UnsupportedSignature { function: "f".to_string(), formal: 1 })
    );
    let mut f = adder("f");
    f.signature.formals[1].ty = ValueType::Signer;
    assert_eq!(lower_function(&f), Err(TranslateError::UnsupportedSignature { function: "f".to_string(), formal: 1 }));
}

#[test]
fn supported_types_are_the_unsigned_integers() {
    for ty in [ValueType::U8, ValueType::U64, ValueType::U128] {
        assert!(is_supported(ty));
    }
    for ty in [
        ValueType::Bool,
        ValueType::Address,
        ValueType::Signer,
        ValueType::Vector,
        ValueType::Struct,
        ValueType::Reference,
        ValueType::TypeParameter,
    ] {
        assert!(!is_supported(ty));
    }
}

#[test]
fn signature_keeps_order_and_names() {
    let sig = FunctionSignature {
        formals: vec![
            Formal { name: "z".to_string(), ty: ValueType::U128 },
            Formal { name: "a".to_string(), ty: ValueType::U8 },
            Formal { name: "m".to_string(), ty: ValueType::U64 },
        ],
        return_arity: 2,
    };
    assert_eq!(
        lower_signature(&"f".to_string(), &sig),
        Ok(TargetType { params: vec!["z".to_string(), "a".to_string(), "m".to_string()], results: 2 })
    );
}

#[test]
fn duplicate_local_is_refused() {
    let dup = |f: &str, local: usize| Err(TranslateError::DuplicateLocal { function: f.to_string(), local });
    assert_eq!(allocate_locals(&func("f", &["a", "a"], &[], 1, vec![])), dup("f", 1));
    assert_eq!(allocate_locals(&func("g", &["a", "b"], &["c", "b"], 1, vec![])), dup("g", 3));
    assert_eq!(allocate_locals(&func("h", &["a"], &["x", "y", "x", "y"], 1, vec![])), dup("h", 3));
    let f = func("k", &["a", "a"], &[], 1, vec![("b0", vec![mov("a"), Instruction::Ret])]);
    assert_eq!(lower_function(&f), Err(TranslateError::DuplicateLocal { function: "k".to_string(), local: 1 }));
}

#[test]
fn each_local_gets_one_slot_in_order() {
    let f = func("f", &["a", "b"], &["t", "u"], 1, vec![]);
    let slots = allocate_locals(&f).unwrap();
    assert_eq!(
        slots,
        vec![
            Slot { name: "a".to_string(), init: Some(0) },
            Slot { name: "b".to_string(), init: Some(1) },
            Slot { name: "t".to_string(), init: None },
            Slot { name: "u".to_string(), init: None },
        ]
    );
    assert_eq!(slot_of(&slots, &"u".to_string()), Some(3));
    assert_eq!(slot_of(&slots, &"a".to_string()), Some(0));
    assert_eq!(slot_of(&slots, &"v".to_string()), None);
}

#[test]
fn signature_is_checked_before_locals_and_locals_before_the_body() {
    let mut f = func("f", &["a", "a"], &[], 1, vec![("b0", vec![Instruction::Ret])]);
    assert_eq!(lower_function(&f), Err(TranslateError::DuplicateLocal { function: "f".to_string(), local: 1 }));
    f.signature.formals[0].ty = ValueType::Bool;
    assert_eq!(lower_function(&f), Err(TranslateError::UnsupportedSignature { function: "f".to_string(), formal: 0 }));
}

#[test]
fn lowered_function_passes_the_check_and_is_marked() {
    let lowered = lower_function(&adder("sum")).unwrap();
    assert!(!lowered.verified);
    assert!(is_well_formed(&lowered));
    let checked = verify_function(lowered.clone()).unwrap();
    assert!(checked.verified);
    assert_eq!(checked, LoweredFunction { verified: true, ..lowered });
}

fn hand_built(code: Vec<SsaInstruction>) -> LoweredFunction {
    LoweredFunction {
        name: "h".to_string(),
        ty: TargetType { params: vec!["a".to_string()], results: 1 },
        slots: vec![Slot { name: "a".to_string(), init: Some(0) }],
        blocks: vec![LoweredBlock { label: "b0".to_string(), code }],
        verified: false,
    }
}

#[test]
fn malformed_functions_are_discarded() {
    let invalid = Err(TranslateError::InvalidGeneratedFunction { function: "h".to_string() });
    let load = SsaInstruction::Load { slot: 0 };
    let ret = |v: Vec<usize>| SsaInstruction::Return { values: v };
    // no terminator
    assert_eq!(verify_function(hand_built(vec![load.clone()])), invalid);
    // empty block
    assert_eq!(verify_function(hand_built(vec![])), invalid);
    // use before definition
    assert_eq!(verify_function(hand_built(vec![ret(vec![0])])), invalid);
    assert_eq!(verify_function(hand_built(vec![load.clone(), ret(vec![1])])), invalid);
    // operand that is no value
    assert_eq!(
        verify_function(hand_built(vec![load.clone(), SsaInstruction::Store { slot: 0, value: 0 }, ret(vec![1])])),
        invalid
    );
    // wrong number of returned values
    assert_eq!(verify_function(hand_built(vec![load.clone(), ret(vec![])])), invalid);
    assert_eq!(verify_function(hand_built(vec![load.clone(), ret(vec![0, 0])])), invalid);
    // instruction after the terminator
    assert_eq!(verify_function(hand_built(vec![load.clone(), ret(vec![0]), load.clone()])), invalid);
    assert_eq!(verify_function(hand_built(vec![load.clone(), ret(vec![0]), ret(vec![0])])), invalid);
    // slot and block out of range
    assert_eq!(verify_function(hand_built(vec![SsaInstruction::Load { slot: 1 }, ret(vec![0])])), invalid);
    assert_eq!(verify_function(hand_built(vec![SsaInstruction::Jump { target: 1 }])), invalid);
    assert_eq!(
        verify_function(hand_built(vec![load.clone(), SsaInstruction::Binary { op: BinaryOp::Add, lhs: 0, rhs: 1 }, ret(vec![1])])),
        invalid
    );
    // slot initialized from an argument that is not there
    let mut f = hand_built(vec![load.clone(), ret(vec![0])]);
    assert!(is_well_formed(&f));
    f.slots[0].init = Some(1);
    assert_eq!(verify_function(f), invalid);
    // no block at all
    let mut g = hand_built(vec![]);
    g.blocks.clear();
    assert_eq!(verify_function(g), invalid);
    // a jump to itself is well formed
    assert!(is_well_formed(&hand_built(vec![SsaInstruction::Jump { target: 0 }])));
}

#[test]
fn same_body_under_two_names_lowers_to_two_functions_of_their_own() {
    let m = ModuleDefinition { name: "m".to_string(), functions: vec![adder("one"), adder("two")] };
    let lowered = lower_module(&m, &vec![]).unwrap();
    assert_eq!(lowered.len(), 2);
    assert_eq!(lowered[0].name, "one");
    assert_eq!(lowered[1].name, "two");
    assert_eq!(lowered[0].slots, lowered[1].slots);
    assert_eq!(lowered[0].slots.len(), 2);
    assert_eq!(lowered[1], LoweredFunction { name: "two".to_string(), ..lowered[0].clone() });
    assert!(lowered[0].verified && lowered[1].verified);
    assert_eq!(lowered[0], LoweredFunction { verified: true, ..lower_function(&adder("one")).unwrap() });
}

#[test]
fn first_function_that_fails_fails_the_module() {
    let bad1 = func("bad1", &["a"], &[], 1, vec![("b0", vec![Instruction::Ret])]);
    let bad2 = func("bad2", &["a", "a"], &[], 1, vec![("b0", vec![Instruction::Ret])]);
    let m = ModuleDefinition { name: "m".to_string(), functions: vec![adder("ok"), bad1, bad2] };
    assert_eq!(lower_module(&m, &vec![]), Err(underflow("bad1", 0, 0)));
}
