//! Tests of the block-exploration engine, from single rules to whole passes.

use jssat::builder::ProgramBuilder;
use jssat::engine::{annotate, annotate_with_config, EngineConfig, EngineError, Side};
use jssat::id::{FunctionId, RegisterId};
use jssat::ir::{FFIReturnType, FFIValueType, IR};
use jssat::lattice::{ReturnType, ValueType};
use jssat::memo::{BlockExecutionKey, ExplorationBranch};

/// The end-to-end sample: one external `print(Runtime, Any, Any) -> Void`,
/// one `main` whose sole block obtains the runtime, makes a string, calls
/// `print`, and returns nothing.
fn sample_program() -> (IR, RegisterId, RegisterId) {
    let mut program = ProgramBuilder::new();
    let print = program.external_function(
        "jssatrt_print",
        [FFIValueType::Runtime, FFIValueType::Any, FFIValueType::Any],
        FFIReturnType::Void,
    );
    let hello = program.constant("hello_world", b"Hello, World!".to_vec());
    let mut main_fn = program.start_function_main();
    let mut entry = main_fn.start_block_main();
    let r0 = entry.get_runtime();
    let r1 = entry.make_string(hello);
    entry.call_external_function(print, [r0, r1, r1]);
    let done = entry.ret(None);
    main_fn.end_block(done);
    program.end_function(main_fn);
    (program.finish(), r0, r1)
}

fn entry_key(ir: &IR) -> BlockExecutionKey {
    let entry_fn = ir
        .functions
        .iter()
        .find(|(id, _)| *id == ir.entrypoint)
        .map(|(_, f)| f)
        .unwrap();
    BlockExecutionKey { id: entry_fn.entry_block, parameters: vec![] }
}

#[test]
fn end_to_end_print_program() {
    let (ir, r0, r1) = sample_program();
    let engine = annotate(&ir).unwrap();
    let root = entry_key(&ir);
    let typed = engine.lookup(&root).unwrap();
    assert_eq!(typed.return_type, ReturnType::Void);
    // exactly one block visited, with zero enqueued successors
    assert_eq!(typed.eval_blocks.len(), 1);
    let (block, args, branch, registers) = &typed.eval_blocks[0];
    assert_eq!(*block, root.id);
    assert!(args.is_empty());
    assert!(matches!(branch, ExplorationBranch::Complete(ReturnType::Void)));
    assert_eq!(registers.get(r0), Some(ValueType::Runtime));
    assert!(matches!(
        registers.get(r1),
        Some(ValueType::ExactString(_))
    ));

    // extraction: exactly one specialized block, with those types
    let blocks = engine.extract(ir).unwrap();
    let sid = blocks.get_block_id(root.id, &vec![]).unwrap();
    assert_eq!(blocks.get_return_type(sid), Some(&ReturnType::Void));
    let annotated = blocks.get_block(sid).unwrap();
    assert!(annotated.args.is_empty());
    assert_eq!(annotated.registers.get(r0), Some(ValueType::Runtime));
    assert_eq!(annotated.block.instructions.len(), 3);
}

#[test]
fn determinism_across_runs() {
    let (ir, r0, r1) = sample_program();
    let root = entry_key(&ir);
    let first = annotate(&ir).unwrap();
    let second = annotate(&ir).unwrap();
    let tf1 = first.lookup(&root).unwrap().clone();
    let tf2 = second.lookup(&root).unwrap().clone();
    assert_eq!(tf1, tf2);
    let b1 = first.extract(ir.clone()).unwrap();
    let b2 = second.extract(ir).unwrap();
    let id1 = b1.get_block_id(root.id, &vec![]).unwrap();
    let id2 = b2.get_block_id(root.id, &vec![]).unwrap();
    assert_eq!(id1, id2);
    assert_eq!(b1.get_return_type(id1), b2.get_return_type(id2));
    let a1 = b1.get_block(id1).unwrap();
    let a2 = b2.get_block(id2).unwrap();
    assert_eq!(a1.registers.get(r0), a2.registers.get(r0));
    assert_eq!(a1.registers.get(r1), a2.registers.get(r1));
}

#[test]
fn dead_branch_elimination() {
    let mut program = ProgramBuilder::new();
    let mut main_fn = program.start_function_main();
    // the false path returns a value, which would conflict if it were taken
    let (bt, _) = main_fn.start_block::<0>();
    let bt_sig = bt.signature();
    let done_true = bt.ret(None);
    main_fn.end_block(done_true);
    let (mut bf, _) = main_fn.start_block::<0>();
    let bf_sig = bf.signature();
    let five = bf.make_integer(5);
    let done_false = bf.ret(Some(five));
    main_fn.end_block(done_false);
    let mut entry = main_fn.start_block_main();
    let cond = entry.make_boolean(true);
    let jump = entry.jmpif(cond, bt_sig, [], bf_sig, []);
    main_fn.end_block(jump);
    program.end_function(main_fn);
    let ir = program.finish();

    let engine = annotate(&ir).unwrap();
    let root = entry_key(&ir);
    let typed = engine.lookup(&root).unwrap();
    // the entry enqueued exactly one successor: the true branch
    let entry_row = typed.find(&root.id, &vec![]).unwrap();
    match entry_row.0 {
        ExplorationBranch::Branch(ks) => {
            assert_eq!(ks.len(), 1);
            assert_eq!(ks[0].id, bt_sig.id);
        }
        ExplorationBranch::Complete(_) => panic!("entry must branch"),
    }
    // the false-branch block was never visited under this call
    assert!(typed.find(&bf_sig.id, &vec![]).is_none());
    assert_eq!(typed.return_type, ReturnType::Void);
}

#[test]
fn self_recursion_resolves_to_never() {
    let mut program = ProgramBuilder::new();
    let mut f = program.start_function::<0>("loops_forever");
    let f_id = f.id;
    let mut body = f.start_block_main();
    let f_entry = body.id;
    let result = body.call_dynargs_with_result(f_id, vec![]);
    let done = body.ret(Some(result));
    f.end_block(done);
    program.end_function(f);
    let mut main_fn = program.start_function_main();
    let mut entry = main_fn.start_block_main();
    entry.call_dynargs(f_id, vec![]);
    let done = entry.ret(None);
    main_fn.end_block(done);
    program.end_function(main_fn);
    let ir = program.finish();

    let engine = annotate(&ir).unwrap();
    let f_key = BlockExecutionKey { id: f_entry, parameters: vec![] };
    let typed = engine.lookup(&f_key).unwrap();
    assert_eq!(typed.return_type, ReturnType::Never);
    // the memo holds one finished entry for the key, not unbounded growth
    assert_eq!(typed.eval_blocks.len(), 1);
}

#[test]
fn memoization_second_call_reuses_the_first() {
    let mut program = ProgramBuilder::new();
    let mut g = program.start_function::<0>("one");
    let g_id = g.id;
    let mut body = g.start_block_main();
    let g_entry = body.id;
    let one = body.make_integer(1);
    let done = body.ret(Some(one));
    g.end_block(done);
    program.end_function(g);
    let mut main_fn = program.start_function_main();
    let mut entry = main_fn.start_block_main();
    let a = entry.call_dynargs_with_result(g_id, vec![]);
    let b = entry.call_dynargs_with_result(g_id, vec![]);
    let sum = entry.add(a, b);
    let done = entry.ret(Some(sum));
    main_fn.end_block(done);
    program.end_function(main_fn);
    let ir = program.finish();

    let engine = annotate(&ir).unwrap();
    let root = entry_key(&ir);
    let typed = engine.lookup(&root).unwrap();
    // both calls resolved to the exact integer; the sum folded
    assert_eq!(
        typed.return_type,
        ReturnType::Value(ValueType::ExactInteger(2))
    );
    // the callee was explored once: one specialized block for its key
    let g_key = BlockExecutionKey { id: g_entry, parameters: vec![] };
    assert_eq!(engine.lookup(&g_key).unwrap().eval_blocks.len(), 1);
}

#[test]
fn depth_guard_aborts_deep_chains() {
    let mut program = ProgramBuilder::new();
    // ten functions, each calling the next; the last returns
    let mut last: Option<FunctionId> = None;
    for _ in 0..10 {
        let mut f = program.start_function::<0>("link");
        let mut body = f.start_block_main();
        if let Some(callee) = last {
            body.call_dynargs(callee, vec![]);
        }
        let done = body.ret(None);
        f.end_block(done);
        let sig = program.end_function(f);
        last = Some(sig.id);
    }
    let mut main_fn = program.start_function_main();
    let mut entry = main_fn.start_block_main();
    entry.call_dynargs(last.unwrap(), vec![]);
    let done = entry.ret(None);
    main_fn.end_block(done);
    program.end_function(main_fn);
    let ir = program.finish();

    // a generous bound lets the chain resolve
    let ok = annotate_with_config(&ir, EngineConfig { depth_limit: 64, fuel: 100_000 });
    assert!(ok.is_ok());
    // a tight bound aborts rather than exhausting the stack
    let abort =
        annotate_with_config(&ir, EngineConfig { depth_limit: 4, fuel: 100_000 }).unwrap_err();
    assert_eq!(abort.error, EngineError::DepthExceeded);
    // the reported call stack is the live chain at the abort
    assert!(abort.callstack.len() >= 3);
}

#[test]
fn fuel_guard_aborts_blocks_whose_shapes_never_repeat() {
    let mut program = ProgramBuilder::new();
    let mut main_fn = program.start_function_main();
    let (mut spin, params) = main_fn.start_block::<1>();
    let spin_sig = spin.signature();
    let one = spin.make_integer(1);
    let next = spin.add(params[0], one);
    let jump = spin.jmp_dynargs(spin_sig.id, vec![next]);
    main_fn.end_block(jump);
    let mut entry = main_fn.start_block_main();
    let zero = entry.make_integer(0);
    let jump = entry.jmp(spin_sig, [zero]);
    main_fn.end_block(jump);
    program.end_function(main_fn);
    let ir = program.finish();

    let abort =
        annotate_with_config(&ir, EngineConfig { depth_limit: 100, fuel: 2_000 }).unwrap_err();
    assert_eq!(abort.error, EngineError::FuelExhausted);
}

#[test]
fn type_errors_name_the_failing_side() {
    // comparing a runtime handle fails on the left side
    let mut program = ProgramBuilder::new();
    let mut main_fn = program.start_function_main();
    let mut entry = main_fn.start_block_main();
    let rt = entry.get_runtime();
    let five = entry.make_integer(5);
    entry.compare_less_than(rt, five);
    let done = entry.ret(None);
    main_fn.end_block(done);
    program.end_function(main_fn);
    let abort = annotate(&program.finish()).unwrap_err();
    assert_eq!(
        abort.error,
        EngineError::NotComparable(Side::Lhs, ValueType::Runtime)
    );

    let mut program = ProgramBuilder::new();
    let mut main_fn = program.start_function_main();
    let mut entry = main_fn.start_block_main();
    let five = entry.make_integer(5);
    let rt = entry.get_runtime();
    entry.add(five, rt);
    let done = entry.ret(None);
    main_fn.end_block(done);
    program.end_function(main_fn);
    let abort = annotate(&program.finish()).unwrap_err();
    assert_eq!(
        abort.error,
        EngineError::NotAddable(Side::Rhs, ValueType::Runtime)
    );
}

#[test]
fn incompatible_addition_is_reported() {
    // an abstract string (from an external call) added to an exact integer
    let mut program = ProgramBuilder::new();
    let name_of = program.external_function(
        "name_of",
        [FFIValueType::Runtime],
        FFIReturnType::Value(FFIValueType::String),
    );
    let mut main_fn = program.start_function_main();
    let mut entry = main_fn.start_block_main();
    let rt = entry.get_runtime();
    let s = entry.call_external_function_with_result(name_of, [rt]);
    let five = entry.make_integer(5);
    entry.add(s, five);
    let done = entry.ret(None);
    main_fn.end_block(done);
    program.end_function(main_fn);
    let abort = annotate(&program.finish()).unwrap_err();
    assert_eq!(
        abort.error,
        EngineError::IncompatibleAddition(ValueType::String, ValueType::ExactInteger(5))
    );
}

#[test]
fn integer_overflow_in_folding_is_reported() {
    let mut program = ProgramBuilder::new();
    let mut main_fn = program.start_function_main();
    let mut entry = main_fn.start_block_main();
    let a = entry.make_integer(i64::MAX);
    let b = entry.make_integer(1);
    entry.add(a, b);
    let done = entry.ret(None);
    main_fn.end_block(done);
    program.end_function(main_fn);
    let abort = annotate(&program.finish()).unwrap_err();
    assert_eq!(abort.error, EngineError::IntegerOverflow);
}

#[test]
fn non_coercible_argument_is_reported() {
    let mut program = ProgramBuilder::new();
    let wants_runtime =
        program.external_function("wants_runtime", [FFIValueType::Runtime], FFIReturnType::Void);
    let mut main_fn = program.start_function_main();
    let mut entry = main_fn.start_block_main();
    let five = entry.make_integer(5);
    entry.call_external_function(wants_runtime, [five]);
    let done = entry.ret(None);
    main_fn.end_block(done);
    program.end_function(main_fn);
    let abort = annotate(&program.finish()).unwrap_err();
    assert_eq!(
        abort.error,
        EngineError::NotCoercible(ValueType::ExactInteger(5), FFIValueType::Runtime)
    );
}

#[test]
fn void_result_binding_is_a_representation_error() {
    let mut program = ProgramBuilder::new();
    let noop = program.external_function("noop", [], FFIReturnType::Void);
    let mut main_fn = program.start_function_main();
    let mut entry = main_fn.start_block_main();
    entry.call_external_function_with_result(noop, []);
    let done = entry.ret(None);
    main_fn.end_block(done);
    program.end_function(main_fn);
    let abort = annotate(&program.finish()).unwrap_err();
    assert_eq!(abort.error, EngineError::VoidAssignment);
}

#[test]
fn bad_condition_is_reported() {
    let mut program = ProgramBuilder::new();
    let mut main_fn = program.start_function_main();
    let (bt, _) = main_fn.start_block::<0>();
    let bt_sig = bt.signature();
    let done_true = bt.ret(None);
    main_fn.end_block(done_true);
    let mut entry = main_fn.start_block_main();
    let five = entry.make_integer(5);
    let jump = entry.jmpif(five, bt_sig, [], bt_sig, []);
    main_fn.end_block(jump);
    program.end_function(main_fn);
    let abort = annotate(&program.finish()).unwrap_err();
    assert_eq!(
        abort.error,
        EngineError::BadCondition(ValueType::ExactInteger(5))
    );
}

#[test]
fn arity_mismatch_is_a_representation_error() {
    let mut program = ProgramBuilder::new();
    let mut main_fn = program.start_function_main();
    let (one_param, _) = main_fn.start_block::<1>();
    let target = one_param.signature();
    let done = one_param.ret(None);
    main_fn.end_block(done);
    let mut entry = main_fn.start_block_main();
    let jump = entry.jmp_dynargs(target.id, vec![]);
    main_fn.end_block(jump);
    program.end_function(main_fn);
    let abort = annotate(&program.finish()).unwrap_err();
    assert_eq!(abort.error, EngineError::ArityMismatch(target.id));
}

#[test]
fn unknown_function_is_a_representation_error() {
    let mut program = ProgramBuilder::new();
    let mut main_fn = program.start_function_main();
    let mut entry = main_fn.start_block_main();
    entry.call_dynargs(FunctionId { index: 999 }, vec![]);
    let done = entry.ret(None);
    main_fn.end_block(done);
    program.end_function(main_fn);
    let abort = annotate(&program.finish()).unwrap_err();
    assert_eq!(
        abort.error,
        EngineError::UnknownFunction(FunctionId { index: 999 })
    );
}

#[test]
fn unknown_register_is_a_representation_error() {
    let mut program = ProgramBuilder::new();
    let mut main_fn = program.start_function_main();
    let mut entry = main_fn.start_block_main();
    let phantom = RegisterId { index: 777 };
    let one = entry.make_integer(1);
    entry.add(phantom, one);
    let done = entry.ret(None);
    main_fn.end_block(done);
    program.end_function(main_fn);
    let abort = annotate(&program.finish()).unwrap_err();
    assert_eq!(abort.error, EngineError::UnknownRegister(phantom));
}

#[test]
fn unify_conflict_between_return_paths() {
    // two return paths of one call with different value types cannot be
    // joined; exercised directly at the lattice level because every branch
    // condition this instruction set can build is exact
    let mut acc = ReturnType::Value(ValueType::ExactInteger(1));
    let err = acc.unify(ReturnType::Void).unwrap_err();
    let jssat::lattice::UnifyError::Incompatible(a, b) = err;
    assert_eq!(a, ReturnType::Value(ValueType::ExactInteger(1)));
    assert_eq!(b, ReturnType::Void);
}

#[test]
fn one_specialized_block_per_distinct_visit() {
    // two calls of one function with different argument shapes: each shape
    // gets its own specialized entry, while an inner block both shapes reach
    // with the same forwarded constant is minted once
    let mut program = ProgramBuilder::new();
    let mut f = program.start_function::<1>("reroute");
    let f_id = f.id;
    let (inner, inner_params) = f.start_block::<1>();
    let inner_sig = inner.signature();
    let done = inner.ret(Some(inner_params[0]));
    f.end_block(done);
    let mut f_entry = f.start_block_main();
    let f_entry_id = f_entry.id;
    let five = f_entry.make_integer(5);
    let jump = f_entry.jmp(inner_sig, [five]);
    f.end_block(jump);
    program.end_function(f);
    let mut main_fn = program.start_function_main();
    let mut entry = main_fn.start_block_main();
    let a1 = entry.make_integer(1);
    let a2 = entry.make_integer(2);
    let c1 = entry.call_dynargs_with_result(f_id, vec![a1]);
    let c2 = entry.call_dynargs_with_result(f_id, vec![a2]);
    let _ = (c1, c2);
    let done = entry.ret(None);
    main_fn.end_block(done);
    program.end_function(main_fn);
    let ir = program.finish();

    let engine = annotate(&ir).unwrap();
    for n in [1, 2] {
        let key = BlockExecutionKey {
            id: f_entry_id,
            parameters: vec![ValueType::ExactInteger(n)],
        };
        let typed = engine.lookup(&key).unwrap();
        assert_eq!(
            typed.return_type,
            ReturnType::Value(ValueType::ExactInteger(5))
        );
    }

    let blocks = engine.extract(ir).unwrap();
    let shared = blocks
        .get_block_id(inner_sig.id, &vec![ValueType::ExactInteger(5)])
        .unwrap();
    assert_eq!(
        blocks.get_return_type(shared),
        Some(&ReturnType::Value(ValueType::ExactInteger(5)))
    );
    let e1 = blocks
        .get_block_id(f_entry_id, &vec![ValueType::ExactInteger(1)])
        .unwrap();
    let e2 = blocks
        .get_block_id(f_entry_id, &vec![ValueType::ExactInteger(2)])
        .unwrap();
    assert_ne!(e1, e2);
    assert_ne!(e1, shared);
    assert_ne!(e2, shared);
}
