//! Tests of the IR construction API.

use jssat::builder::ProgramBuilder;
use jssat::id::{convert, BlockId, ConstantId, FunctionId, IdCompat, RegisterId};
use jssat::ir::{Callable, ControlFlowInstruction, FFIReturnType, FFIValueType, Instruction};

#[test]
fn constants_are_numbered_in_declaration_order() {
    let mut program = ProgramBuilder::new();
    let a = program.constant("a", vec![1, 2]);
    let b = program.constant("b", vec![3]);
    assert_eq!(a, ConstantId { index: 0 });
    assert_eq!(b, ConstantId { index: 1 });
    let mut main_fn = program.start_function_main();
    let entry = main_fn.start_block_main();
    let done = entry.ret(None);
    main_fn.end_block(done);
    program.end_function(main_fn);
    let ir = program.finish();
    assert_eq!(ir.constants.len(), 2);
    assert_eq!(ir.constants[0].0, a);
    assert_eq!(ir.constants[0].1.payload, vec![1, 2]);
    assert_eq!(ir.constants[1].0, b);
}

#[test]
fn external_functions_keep_their_signature() {
    let mut program = ProgramBuilder::new();
    let print = program.external_function(
        "print",
        [FFIValueType::Runtime, FFIValueType::Any],
        FFIReturnType::Void,
    );
    let mut main_fn = program.start_function_main();
    let entry = main_fn.start_block_main();
    let done = entry.ret(None);
    main_fn.end_block(done);
    program.end_function(main_fn);
    let ir = program.finish();
    assert_eq!(ir.external_functions.len(), 1);
    let (id, ext) = &ir.external_functions[0];
    assert_eq!(*id, print.0);
    assert_eq!(ext.name, "print");
    assert_eq!(ext.parameters, vec![FFIValueType::Runtime, FFIValueType::Any]);
    assert_eq!(ext.return_type, FFIReturnType::Void);
}

#[test]
fn blocks_record_instructions_in_order() {
    let mut program = ProgramBuilder::new();
    let c = program.constant("s", b"hi".to_vec());
    let mut main_fn = program.start_function_main();
    let mut entry = main_fn.start_block_main();
    let r0 = entry.get_runtime();
    let r1 = entry.make_string(c);
    let r2 = entry.make_integer(7);
    let r3 = entry.make_boolean(true);
    let r4 = entry.add(r1, r2);
    let r5 = entry.compare_less_than(r2, r4);
    let _ = (r3, r5);
    let done = entry.ret(Some(r2));
    main_fn.end_block(done);
    program.end_function(main_fn);
    let ir = program.finish();

    let body = &ir.functions[0].1.blocks[0].1;
    assert_eq!(body.instructions.len(), 6);
    assert_eq!(body.instructions[0], Instruction::GetRuntime(r0));
    assert_eq!(body.instructions[1], Instruction::MakeString(r1, c));
    assert_eq!(body.instructions[2], Instruction::MakeInteger(r2, 7));
    assert_eq!(body.instructions[3], Instruction::MakeBoolean(r3, true));
    assert_eq!(body.instructions[4], Instruction::Add(r4, r1, r2));
    assert_eq!(body.instructions[5], Instruction::CompareLessThan(r5, r2, r4));
    assert_eq!(body.end, ControlFlowInstruction::Ret(Some(r2)));
}

#[test]
fn calls_carry_their_targets() {
    let mut program = ProgramBuilder::new();
    let noop = program.external_function("noop", [], FFIReturnType::Void);
    let mut helper = program.start_function::<0>("helper");
    let entry = helper.start_block_main();
    let done = entry.ret(None);
    helper.end_block(done);
    let helper_sig = program.end_function(helper);
    let mut main_fn = program.start_function_main();
    let mut entry = main_fn.start_block_main();
    entry.call(helper_sig, []);
    let r = entry.call_with_result(helper_sig, []);
    entry.call_external_function(noop, []);
    let done = entry.ret(None);
    main_fn.end_block(done);
    program.end_function(main_fn);
    let ir = program.finish();

    let main_body = &ir.functions[1].1.blocks[0].1;
    assert_eq!(
        main_body.instructions[0],
        Instruction::Call(None, Callable::Static(helper_sig.id), vec![])
    );
    assert_eq!(
        main_body.instructions[1],
        Instruction::Call(Some(r), Callable::Static(helper_sig.id), vec![])
    );
    assert_eq!(
        main_body.instructions[2],
        Instruction::Call(None, Callable::External(noop.0), vec![])
    );
}

#[test]
fn function_parameters_occupy_low_registers() {
    let mut program = ProgramBuilder::new();
    let f = program.start_function::<2>("two_args");
    assert_eq!(f.parameter(0), RegisterId { index: 0 });
    assert_eq!(f.parameter(1), RegisterId { index: 1 });
    let mut f = f;
    let entry = f.start_block_main();
    let done = entry.ret(None);
    f.end_block(done);
    program.end_function(f);
    let mut main_fn = program.start_function_main();
    let entry = main_fn.start_block_main();
    let done = entry.ret(None);
    main_fn.end_block(done);
    program.end_function(main_fn);
    let _ = program.finish();
}

#[test]
fn jumps_carry_their_edges() {
    let mut program = ProgramBuilder::new();
    let mut main_fn = program.start_function_main();
    let (target, params) = main_fn.start_block::<1>();
    let target_sig = target.signature();
    assert_eq!(params.len(), 1);
    let done = target.ret(Some(params[0]));
    main_fn.end_block(done);
    let mut entry = main_fn.start_block_main();
    let v = entry.make_integer(3);
    let jump = entry.jmp(target_sig, [v]);
    main_fn.end_block(jump);
    program.end_function(main_fn);
    let ir = program.finish();

    let entry_body = &ir.functions[0].1.blocks[1].1;
    match &entry_body.end {
        ControlFlowInstruction::Jmp(j) => {
            assert_eq!(j.0, target_sig.id);
            assert_eq!(j.1, vec![v]);
        }
        other => panic!("expected a jump, found {:?}", other),
    }
}

#[test]
fn id_conversion_keeps_the_index() {
    let f = FunctionId { index: 12 };
    let b: BlockId = convert(f);
    assert_eq!(b.value(), 12);
    let r = RegisterId::new_with_value(4);
    assert_eq!(r, RegisterId { index: 4 });
}
