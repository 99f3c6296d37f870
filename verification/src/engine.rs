//! The block-exploration engine: a symbolic abstract interpreter over the IR.
//!
//! The driver seeds itself with one root execution key, keeps a per-call FIFO
//! worklist of block keys, evaluates instructions against the lattice, and
//! resolves every static call through the execution memo: a key already being
//! computed on the enclosing chain resolves to `Never` (self-recursion with an
//! unchanging argument shape terminates the inference), a finished key is
//! answered from the memo, and a fresh key becomes a new call frame.
//!
//! All failures are fatal and are reported with the call stack that was live
//! when they struck; the classes of [`EngineError`] stay distinguishable so a
//! caller can tell invalid input from engine incompleteness.
//!
//! No scheduling nondeterminism exists: exploration is single-threaded, the
//! worklists are first-in first-out, and every table is ordered by
//! insertion.  The contracts pin the per-step rules, the memo policy, and
//! the shape of the result; they stop short of a spec-level replay of the
//! whole pass, so end-to-end determinism is shown by this design and by
//! test, not as a theorem.

use vstd::prelude::*;

use crate::id::{BlockId, Counter, ExternalFunctionId, FunctionId, RegisterId};
use crate::ir::{
    find_block_in, BasicBlockJump, Callable, ControlFlowInstruction, ExternalFunction,
    FFIReturnType, FFIValueType, Function, FunctionBlock, Instruction, IR,
};
use crate::lattice::{
    spec_add, spec_can_coerce, spec_ffi_widened, spec_less_than, ffi_value_type_to_value_type,
    FFICoerce, IntoValueType, ReturnType, UnifyError, ValueType,
};
use crate::memo::{
    find_eval, fold_contributions, value_types_eq, BlockExecution, BlockExecutionKey, BlockKey,
    Executions, ExplorationBranch, RegisterMap, TypedBlocks, TypedFunction,
};

verus! {

/// Which operand of a binary operation a type error names.
#[derive(Debug, Clone, Copy, PartialEq, Eq, Structural)]
pub enum Side {
    Lhs,
    Rhs,
}

/// Every way a specialization pass can abort.
///
/// The variants fall into the four classes of failure, kept distinguishable:
/// - type errors, describing invalid source input: `NotComparable`,
///   `NotAddable`, `IncompatibleAddition`, `NotCoercible`, `BadCondition`;
/// - representation errors, describing a bug in the IR-producing stage:
///   `ArityMismatch`, `UnknownRegister`, `UnknownBlock`, `UnknownFunction`,
///   `UnknownExternalFunction`, `VoidAssignment`, `MissingTypedFunction`,
///   and `ExplorationInFlight`, raised by a drain while a call is unresolved;
/// - unsupported features, describing engine incompleteness, not invalid
///   input: `UnifyConflict`, `IntegerOverflow`;
/// - resource exhaustion: `DepthExceeded` (the call-stack depth guard),
///   `FuelExhausted` (the work budget), `IdSpaceExhausted`.
#[derive(Debug, Clone, Copy, PartialEq, Eq, Structural)]
pub enum EngineError {
    NotComparable(Side, ValueType),
    NotAddable(Side, ValueType),
    IncompatibleAddition(ValueType, ValueType),
    NotCoercible(ValueType, FFIValueType),
    BadCondition(ValueType),
    ArityMismatch(BlockId),
    UnknownRegister(RegisterId),
    UnknownBlock(BlockId),
    UnknownFunction(FunctionId),
    UnknownExternalFunction(ExternalFunctionId),
    VoidAssignment,
    MissingTypedFunction(BlockKey),
    ExplorationInFlight,
    ExternArityMismatch(ExternalFunctionId),
    UnifyConflict(ReturnType, ReturnType),
    IntegerOverflow,
    DepthExceeded,
    FuelExhausted,
    IdSpaceExhausted,
}

/// Where evaluation of one block stands; kept per frame so that the stack
/// reported on a fatal abort names the instruction each frame was at.
#[derive(Debug, Clone, Copy, PartialEq, Eq, Structural)]
pub enum CurrentInstruction {
    /// The block frame exists but no instruction ran yet.
    NotStarted,
    /// The instruction with this index is being evaluated.
    Sequential(usize),
    /// The terminator is being evaluated.
    ControlFlow,
    /// The frame's current block is done; the frame is between blocks.
    Completed,
}

/// The result of comparing two register types.
pub open spec fn spec_compare_values(a: ValueType, b: ValueType) -> Result<
    ValueType,
    EngineError,
> {
    match a.spec_comparable() {
        None => Err(EngineError::NotComparable(Side::Lhs, a)),
        Some(ca) => match b.spec_comparable() {
            None => Err(EngineError::NotComparable(Side::Rhs, b)),
            Some(cb) => Ok(spec_less_than(ca, cb).spec_value_type()),
        },
    }
}

/// The result of adding two register types.  Folding two exact integers
/// whose sum leaves the 64-bit domain is engine incompleteness.
pub open spec fn spec_add_values(a: ValueType, b: ValueType) -> Result<ValueType, EngineError> {
    match a.spec_addable() {
        None => Err(EngineError::NotAddable(Side::Lhs, a)),
        Some(xa) => match b.spec_addable() {
            None => Err(EngineError::NotAddable(Side::Rhs, b)),
            Some(xb) => if xa matches crate::lattice::ValueAddable::Num(x)
                && xb matches crate::lattice::ValueAddable::Num(y) && !(i64::MIN <= x + y
                <= i64::MAX) {
                Err(EngineError::IntegerOverflow)
            } else {
                match spec_add(xa, xb) {
                    Ok(v) => Ok(v.spec_value_type()),
                    Err(_) => Err(EngineError::IncompatibleAddition(a, b)),
                }
            },
        },
    }
}

/// What one non-call instruction writes: the destination register and its new
/// type, or the error the instruction raises.
pub open spec fn spec_inst_effect(m: RegisterMap, inst: Instruction) -> Result<
    (RegisterId, ValueType),
    EngineError,
> {
    match inst {
        Instruction::GetRuntime(reg) => Ok((reg, ValueType::Runtime)),
        Instruction::MakeString(reg, c) => Ok((reg, ValueType::ExactString(c))),
        Instruction::MakeInteger(reg, v) => Ok((reg, ValueType::ExactInteger(v))),
        Instruction::MakeBoolean(reg, b) => Ok((reg, ValueType::Bool(b))),
        Instruction::CompareLessThan(reg, lhs, rhs) => match m.spec_get(lhs) {
            None => Err(EngineError::UnknownRegister(lhs)),
            Some(a) => match m.spec_get(rhs) {
                None => Err(EngineError::UnknownRegister(rhs)),
                Some(b) => match spec_compare_values(a, b) {
                    Ok(t) => Ok((reg, t)),
                    Err(e) => Err(e),
                },
            },
        },
        Instruction::Add(reg, lhs, rhs) => match m.spec_get(lhs) {
            None => Err(EngineError::UnknownRegister(lhs)),
            Some(a) => match m.spec_get(rhs) {
                None => Err(EngineError::UnknownRegister(rhs)),
                Some(b) => match spec_add_values(a, b) {
                    Ok(t) => Ok((reg, t)),
                    Err(e) => Err(e),
                },
            },
        },
        Instruction::Call(_, _, _) => arbitrary(),
    }
}

/// Evaluates one constant-materializing, comparison or addition instruction:
/// the destination register receives exactly the type `spec_inst_effect`
/// names, every other register keeps its type, and the map is untouched on
/// an error.
fn exec_inst(types: &mut RegisterMap, inst: &Instruction) -> (r: Result<(), EngineError>)
    requires
        !(inst matches Instruction::Call(_, _, _)),
    ensures
        spec_inst_effect(*old(types), *inst) matches Ok(p) ==> {
            &&& r is Ok
            &&& final(types).spec_get(p.0) == Some(p.1)
            &&& forall|r2: RegisterId|
                r2 != p.0 ==> final(types).spec_get(r2) == old(types).spec_get(r2)
        },
        spec_inst_effect(*old(types), *inst) matches Err(e) ==> r == Err::<(), EngineError>(e)
            && *final(types) == *old(types),
{
    match inst {
        Instruction::GetRuntime(reg) => {
            types.insert(*reg, ValueType::Runtime);
            Ok(())
        },
        Instruction::MakeString(reg, c) => {
            types.insert(*reg, ValueType::ExactString(*c));
            Ok(())
        },
        Instruction::MakeInteger(reg, v) => {
            types.insert(*reg, ValueType::ExactInteger(*v));
            Ok(())
        },
        Instruction::MakeBoolean(reg, b) => {
            types.insert(*reg, ValueType::Bool(*b));
            Ok(())
        },
        Instruction::CompareLessThan(reg, lhs, rhs) => {
            let a = match types.get(*lhs) {
                Some(t) => t,
                None => {
                    return Err(EngineError::UnknownRegister(*lhs));
                },
            };
            let b = match types.get(*rhs) {
                Some(t) => t,
                None => {
                    return Err(EngineError::UnknownRegister(*rhs));
                },
            };
            let ca = match a.is_comparable() {
                Some(c) => c,
                None => {
                    return Err(EngineError::NotComparable(Side::Lhs, a));
                },
            };
            let cb = match b.is_comparable() {
                Some(c) => c,
                None => {
                    return Err(EngineError::NotComparable(Side::Rhs, b));
                },
            };
            let comparison = ca.perform_less_than(&cb);
            types.insert(*reg, comparison.into_value_type());
            Ok(())
        },
        Instruction::Add(reg, lhs, rhs) => {
            let a = match types.get(*lhs) {
                Some(t) => t,
                None => {
                    return Err(EngineError::UnknownRegister(*lhs));
                },
            };
            let b = match types.get(*rhs) {
                Some(t) => t,
                None => {
                    return Err(EngineError::UnknownRegister(*rhs));
                },
            };
            let xa = match a.is_addable() {
                Some(x) => x,
                None => {
                    return Err(EngineError::NotAddable(Side::Lhs, a));
                },
            };
            let xb = match b.is_addable() {
                Some(x) => x,
                None => {
                    return Err(EngineError::NotAddable(Side::Rhs, b));
                },
            };
            let addition = match (xa, xb) {
                (crate::lattice::ValueAddable::Num(x), crate::lattice::ValueAddable::Num(y)) => {
                    let overflows = if y >= 0 {
                        x > i64::MAX - y
                    } else {
                        x < i64::MIN - y
                    };
                    if overflows {
                        return Err(EngineError::IntegerOverflow);
                    }
                    match xa.perform_add(&xb) {
                        Ok(v) => v,
                        Err(_) => {
                            return Err(EngineError::IncompatibleAddition(a, b));
                        },
                    }
                },
                _ => {
                    match xa.perform_add(&xb) {
                        Ok(v) => v,
                        Err(_) => {
                            return Err(EngineError::IncompatibleAddition(a, b));
                        },
                    }
                },
            };
            types.insert(*reg, addition.into_value_type());
            Ok(())
        },
        Instruction::Call(_, _, _) => vstd::pervasive::unreached(),
    }
}

/// The types of the argument registers of a call or jump, in order, or the
/// first register no type is recorded for.
pub open spec fn spec_arg_types(m: RegisterMap, args: Seq<RegisterId>) -> Result<
    Seq<ValueType>,
    EngineError,
>
    decreases args.len(),
{
    if args.len() == 0 {
        Ok(Seq::empty())
    } else {
        match m.spec_get(args[0]) {
            None => Err(EngineError::UnknownRegister(args[0])),
            Some(t) => match spec_arg_types(m, args.drop_first()) {
                Ok(rest) => Ok(seq![t] + rest),
                Err(e) => Err(e),
            },
        }
    }
}

/// Reads the types of the given argument registers out of the map.
fn collect_arg_types(types: &RegisterMap, args: &Vec<RegisterId>) -> (r: Result<
    Vec<ValueType>,
    EngineError,
>)
    ensures
        spec_arg_types(*types, args@) matches Ok(ts) ==> r matches Ok(out) && out@ == ts,
        spec_arg_types(*types, args@) matches Err(e) ==> r == Err::<Vec<ValueType>, EngineError>(
            e,
        ),
{
    let mut out: Vec<ValueType> = Vec::new();
    let n = args.len();
    let mut i: usize = 0;
    proof {
        assert(args@.skip(0) =~= args@);
        assert(out@ + spec_arg_types(*types, args@)->Ok_0 =~= spec_arg_types(*types, args@)->Ok_0)
            by {
            if spec_arg_types(*types, args@) is Ok {
            }
        }
    }
    while i < n
        invariant
            0 <= i <= n,
            n == args@.len(),
            out@.len() == i,
            spec_arg_types(*types, args@.skip(i as int)) matches Ok(rest) ==> spec_arg_types(
                *types,
                args@,
            ) == Ok::<Seq<ValueType>, EngineError>(out@ + rest),
            spec_arg_types(*types, args@.skip(i as int)) matches Err(e) ==> spec_arg_types(
                *types,
                args@,
            ) == Err::<Seq<ValueType>, EngineError>(e),
        decreases n - i,
    {
        proof {
            assert(args@.skip(i as int).drop_first() =~= args@.skip(i + 1));
            assert(args@.skip(i as int)[0] == args@[i as int]);
        }
        match types.get(args[i]) {
            None => {
                return Err(EngineError::UnknownRegister(args[i]));
            },
            Some(t) => {
                let ghost out_old = out@;
                out.push(t);
                proof {
                    let rest_r = spec_arg_types(*types, args@.skip(i + 1));
                    if rest_r is Ok {
                        assert(spec_arg_types(*types, args@.skip(i as int)) == Ok::<
                            Seq<ValueType>,
                            EngineError,
                        >(seq![t] + rest_r->Ok_0));
                        assert(out_old + (seq![t] + rest_r->Ok_0) =~= out@ + rest_r->Ok_0);
                    } else {
                        assert(spec_arg_types(*types, args@.skip(i as int)) == rest_r);
                    }
                }
            },
        }
        i = i + 1;
    }
    proof {
        assert(args@.skip(n as int) =~= Seq::<RegisterId>::empty());
        assert(out@ + Seq::<ValueType>::empty() =~= out@);
    }
    Ok(out)
}

/// Pointwise coercion check of argument types against declared foreign
/// parameter types, in order; both sequences have the same length.
pub open spec fn spec_check_coercions(ts: Seq<ValueType>, ps: Seq<FFIValueType>) -> Result<
    (),
    EngineError,
>
    decreases ts.len(),
{
    if ts.len() == 0 {
        Ok(())
    } else if !spec_can_coerce(ts[0], ps[0]) {
        Err(EngineError::NotCoercible(ts[0], ps[0]))
    } else {
        spec_check_coercions(ts.drop_first(), ps.drop_first())
    }
}

/// Checks that every argument type coerces to the matching foreign parameter.
fn check_coercions(ts: &Vec<ValueType>, ps: &Vec<FFIValueType>) -> (r: Result<(), EngineError>)
    requires
        ts@.len() == ps@.len(),
    ensures
        r == spec_check_coercions(ts@, ps@),
{
    let n = ts.len();
    let mut i: usize = 0;
    proof {
        assert(ts@.skip(0) =~= ts@);
        assert(ps@.skip(0) =~= ps@);
    }
    while i < n
        invariant
            0 <= i <= n,
            n == ts@.len() && n == ps@.len(),
            spec_check_coercions(ts@, ps@) == spec_check_coercions(
                ts@.skip(i as int),
                ps@.skip(i as int),
            ),
        decreases n - i,
    {
        proof {
            assert(ts@.skip(i as int).drop_first() =~= ts@.skip(i + 1));
            assert(ps@.skip(i as int).drop_first() =~= ps@.skip(i + 1));
        }
        if !FFICoerce::can_coerce(&ts[i], &ps[i]) {
            return Err(EngineError::NotCoercible(ts[i], ps[i]));
        }
        i = i + 1;
    }
    Ok(())
}

/// The mathematical shape of an [`ExplorationBranch`]: successor key
/// identities, or a completed contribution.
pub enum BranchSpec {
    Branch(Seq<(BlockId, Seq<ValueType>)>),
    Complete(ReturnType),
}

/// The identity of an exploration branch.
pub open spec fn branch_view(b: ExplorationBranch) -> BranchSpec {
    match b {
        ExplorationBranch::Branch(ks) => BranchSpec::Branch(
            ks@.map_values(|k: BlockExecutionKey| k.skey()),
        ),
        ExplorationBranch::Complete(rt) => BranchSpec::Complete(rt),
    }
}

/// The successor key a jump edge produces: the target block, and the types of
/// the forwarded registers.
pub open spec fn spec_jump_key(m: RegisterMap, j: BasicBlockJump) -> Result<
    (BlockId, Seq<ValueType>),
    EngineError,
> {
    match spec_arg_types(m, j.1@) {
        Ok(ts) => Ok((j.0, ts)),
        Err(e) => Err(e),
    }
}

/// Terminator evaluation.  An unconditional jump produces its one successor
/// key.  A conditional jump on an exact boolean produces only that branch's
/// key — the other branch's block is never visited under this call; on the
/// abstract `Boolean` it produces both keys, true path first; on any other
/// condition type it is a fatal type error.  A return contributes `Value` or
/// `Void` to the call's return-type union.
pub open spec fn spec_terminator(m: RegisterMap, end: ControlFlowInstruction) -> Result<
    BranchSpec,
    EngineError,
> {
    match end {
        ControlFlowInstruction::Jmp(j) => match spec_jump_key(m, j) {
            Ok(k) => Ok(BranchSpec::Branch(seq![k])),
            Err(e) => Err(e),
        },
        ControlFlowInstruction::JmpIf { condition, true_path, false_path } => match m.spec_get(
            condition,
        ) {
            None => Err(EngineError::UnknownRegister(condition)),
            Some(ValueType::Bool(b)) => match spec_jump_key(
                m,
                if b {
                    true_path
                } else {
                    false_path
                },
            ) {
                Ok(k) => Ok(BranchSpec::Branch(seq![k])),
                Err(e) => Err(e),
            },
            Some(ValueType::Boolean) => match spec_jump_key(m, true_path) {
                Err(e) => Err(e),
                Ok(k1) => match spec_jump_key(m, false_path) {
                    Err(e) => Err(e),
                    Ok(k2) => Ok(BranchSpec::Branch(seq![k1, k2])),
                },
            },
            Some(t) => Err(EngineError::BadCondition(t)),
        },
        ControlFlowInstruction::Ret(Some(reg)) => match m.spec_get(reg) {
            None => Err(EngineError::UnknownRegister(reg)),
            Some(t) => Ok(BranchSpec::Complete(ReturnType::Value(t))),
        },
        ControlFlowInstruction::Ret(None) => Ok(BranchSpec::Complete(ReturnType::Void)),
    }
}

/// Dead-branch elimination: a conditional jump whose condition is an exact
/// boolean produces exactly one successor key — the taken branch — provided
/// that branch's forwarded registers resolve.
pub proof fn lemma_dead_branch_elimination(
    m: RegisterMap,
    condition: RegisterId,
    true_path: BasicBlockJump,
    false_path: BasicBlockJump,
    b: bool,
)
    requires
        m.spec_get(condition) == Some(ValueType::Bool(b)),
        spec_jump_key(
            m,
            if b {
                true_path
            } else {
                false_path
            },
        ) is Ok,
    ensures
        spec_terminator(
            m,
            (ControlFlowInstruction::JmpIf { condition, true_path, false_path }),
        ) matches Ok(bs) && bs matches BranchSpec::Branch(ks) && ks.len() == 1 && ks[0]
            == spec_jump_key(
            m,
            if b {
                true_path
            } else {
                false_path
            },
        )->Ok_0,
{
}

/// Builds the successor key of one jump edge.
fn jump_key(types: &RegisterMap, j: &BasicBlockJump) -> (r: Result<BlockExecutionKey, EngineError>)
    ensures
        spec_jump_key(*types, *j) matches Ok(k) ==> r matches Ok(key) && key.skey() == k,
        spec_jump_key(*types, *j) matches Err(e) ==> r == Err::<BlockExecutionKey, EngineError>(e),
{
    match collect_arg_types(types, &j.1) {
        Ok(ts) => Ok(BlockExecutionKey { id: j.0, parameters: ts }),
        Err(e) => Err(e),
    }
}

/// Evaluates a block's terminator into its exploration branch.
fn eval_terminator(types: &RegisterMap, end: &ControlFlowInstruction) -> (r: Result<
    ExplorationBranch,
    EngineError,
>)
    ensures
        spec_terminator(*types, *end) matches Ok(bs) ==> r matches Ok(br) && branch_view(br)
            == bs,
        spec_terminator(*types, *end) matches Err(e) ==> r == Err::<
            ExplorationBranch,
            EngineError,
        >(e),
{
    match end {
        ControlFlowInstruction::Jmp(j) => {
            let k = match jump_key(types, j) {
                Ok(k) => k,
                Err(e) => {
                    return Err(e);
                },
            };
            let ghost ks = seq![k.skey()];
            let mut succ: Vec<BlockExecutionKey> = Vec::new();
            succ.push(k);
            let br = ExplorationBranch::Branch(succ);
            proof {
                assert(branch_view(br)->Branch_0 =~= ks);
            }
            Ok(br)
        },
        ControlFlowInstruction::JmpIf { condition, true_path, false_path } => {
            let cond = match types.get(*condition) {
                Some(t) => t,
                None => {
                    return Err(EngineError::UnknownRegister(*condition));
                },
            };
            match cond {
                ValueType::Bool(b) => {
                    let path = if b {
                        true_path
                    } else {
                        false_path
                    };
                    let k = match jump_key(types, path) {
                        Ok(k) => k,
                        Err(e) => {
                            return Err(e);
                        },
                    };
                    let ghost ks = seq![k.skey()];
                    let mut succ: Vec<BlockExecutionKey> = Vec::new();
                    succ.push(k);
                    let br = ExplorationBranch::Branch(succ);
                    proof {
                        assert(branch_view(br)->Branch_0 =~= ks);
                    }
                    Ok(br)
                },
                ValueType::Boolean => {
                    let k1 = match jump_key(types, true_path) {
                        Ok(k) => k,
                        Err(e) => {
                            return Err(e);
                        },
                    };
                    let k2 = match jump_key(types, false_path) {
                        Ok(k) => k,
                        Err(e) => {
                            return Err(e);
                        },
                    };
                    let ghost ks = seq![k1.skey(), k2.skey()];
                    let mut succ: Vec<BlockExecutionKey> = Vec::new();
                    succ.push(k1);
                    succ.push(k2);
                    let br = ExplorationBranch::Branch(succ);
                    proof {
                        assert(branch_view(br)->Branch_0 =~= ks);
                    }
                    Ok(br)
                },
                t => Err(EngineError::BadCondition(t)),
            }
        },
        ControlFlowInstruction::Ret(Some(reg)) => {
            match types.get(*reg) {
                Some(t) => Ok(ExplorationBranch::Complete(ReturnType::Value(t))),
                None => Err(EngineError::UnknownRegister(*reg)),
            }
        },
        ControlFlowInstruction::Ret(None) => Ok(ExplorationBranch::Complete(ReturnType::Void)),
    }
}

/// What the memo answers for a requested call key.
#[derive(Debug, Clone, Copy, PartialEq, Eq, Structural)]
pub enum CallResolution {
    /// The key needs no new exploration; this is its return type.
    Resolved(ReturnType),
    /// The key was never requested before: explore it.
    New,
}

/// The memo policy for one requested call key.  A key already being resolved
/// by an enclosing frame answers `Never` — self-recursion with an unchanging
/// argument shape terminates the inference, and the key is never re-entered.
/// A finished key is answered from the typed-function table without
/// re-evaluation.  An absent key asks for a fresh exploration.
pub fn resolve_call(
    executions: &Executions,
    typed_blocks: &TypedBlocks,
    key: &BlockExecutionKey,
) -> (r: Result<CallResolution, EngineError>)
    ensures
        executions.spec_get(key.skey()) is None ==> r == Ok::<CallResolution, EngineError>(
            CallResolution::New,
        ),
        executions.spec_get(key.skey()) matches Some(BlockExecution::InProgress(bk)) ==> r
            == Ok::<CallResolution, EngineError>(CallResolution::Resolved(ReturnType::Never)),
        executions.spec_get(key.skey()) matches Some(BlockExecution::Finished(bk))
            ==> match typed_blocks.spec_get(bk) {
            Some(tf) => r == Ok::<CallResolution, EngineError>(
                CallResolution::Resolved(tf.return_type),
            ),
            None => r == Err::<CallResolution, EngineError>(
                EngineError::MissingTypedFunction(bk),
            ),
        },
{
    match executions.get(key) {
        None => Ok(CallResolution::New),
        Some(BlockExecution::InProgress(_)) => Ok(CallResolution::Resolved(ReturnType::Never)),
        Some(BlockExecution::Finished(bk)) => match typed_blocks.get(*bk) {
            Some(tf) => Ok(CallResolution::Resolved(tf.return_type)),
            None => Err(EngineError::MissingTypedFunction(*bk)),
        },
    }
}

/// How a resolved call acts on the calling block.
#[derive(Debug, Clone, Copy, PartialEq, Eq, Structural)]
pub enum CallEffect {
    /// The callee never returns: the rest of the calling block is
    /// unreachable.
    NeverInfected,
    /// Nothing is bound; evaluation continues.
    NoBinding,
    /// The destination register receives the callee's value type.
    Assign(RegisterId, ValueType),
}

/// How a callee's return type lands in the optional result register.
/// Binding a `Void` return to a register is a fatal representation error: a
/// correct front end never emits this shape.
pub open spec fn spec_call_effect(result: Option<RegisterId>, rt: ReturnType) -> Result<
    CallEffect,
    EngineError,
> {
    match rt {
        ReturnType::Never => Ok(CallEffect::NeverInfected),
        ReturnType::Void => match result {
            None => Ok(CallEffect::NoBinding),
            Some(_) => Err(EngineError::VoidAssignment),
        },
        ReturnType::Value(t) => match result {
            Some(r) => Ok(CallEffect::Assign(r, t)),
            None => Ok(CallEffect::NoBinding),
        },
    }
}

/// Computes how a resolved call acts on the calling block.
fn call_effect(result: Option<RegisterId>, rt: ReturnType) -> (r: Result<CallEffect, EngineError>)
    ensures
        r == spec_call_effect(result, rt),
{
    match rt {
        ReturnType::Never => Ok(CallEffect::NeverInfected),
        ReturnType::Void => match result {
            None => Ok(CallEffect::NoBinding),
            Some(_) => Err(EngineError::VoidAssignment),
        },
        ReturnType::Value(t) => match result {
            Some(r) => Ok(CallEffect::Assign(r, t)),
            None => Ok(CallEffect::NoBinding),
        },
    }
}

/// The full rule for a call to an external function: every argument type must
/// coerce to the declared foreign parameter type, and a result register, if
/// present, receives the foreign return type widened into the lattice.
pub open spec fn spec_external_call(
    m: RegisterMap,
    id: ExternalFunctionId,
    ext: ExternalFunction,
    result: Option<RegisterId>,
    args: Seq<RegisterId>,
) -> Result<Option<(RegisterId, ValueType)>, EngineError> {
    match spec_arg_types(m, args) {
        Err(e) => Err(e),
        Ok(ts) => if ts.len() != ext.parameters@.len() {
            Err(EngineError::ExternArityMismatch(id))
        } else {
            match spec_check_coercions(ts, ext.parameters@) {
                Err(e) => Err(e),
                Ok(u) => match (result, ext.return_type) {
                    (Some(_), FFIReturnType::Void) => Err(EngineError::VoidAssignment),
                    (Some(r), FFIReturnType::Value(v)) => Ok(Some((r, spec_ffi_widened(v)))),
                    (None, _) => Ok(None),
                },
            }
        },
    }
}

/// Evaluates a call to an external function against the register map.
fn exec_external_call(
    types: &mut RegisterMap,
    id: ExternalFunctionId,
    ext: &ExternalFunction,
    result: Option<RegisterId>,
    args: &Vec<RegisterId>,
) -> (r: Result<(), EngineError>)
    ensures
        spec_external_call(*old(types), id, *ext, result, args@) matches Ok(eff) ==> {
            &&& r is Ok
            &&& match eff {
                Some(p) => final(types).spec_get(p.0) == Some(p.1) && forall|r2: RegisterId|
                    r2 != p.0 ==> final(types).spec_get(r2) == old(types).spec_get(r2),
                None => *final(types) == *old(types),
            }
        },
        spec_external_call(*old(types), id, *ext, result, args@) matches Err(e) ==> r == Err::<
            (),
            EngineError,
        >(e) && *final(types) == *old(types),
{
    let ts = match collect_arg_types(types, args) {
        Ok(ts) => ts,
        Err(e) => {
            return Err(e);
        },
    };
    if ts.len() != ext.parameters.len() {
        return Err(EngineError::ExternArityMismatch(id));
    }
    match check_coercions(&ts, &ext.parameters) {
        Ok(_) => {},
        Err(e) => {
            return Err(e);
        },
    }
    match (result, &ext.return_type) {
        (Some(_), FFIReturnType::Void) => Err(EngineError::VoidAssignment),
        (Some(r), FFIReturnType::Value(v)) => {
            let widened = ffi_value_type_to_value_type(v);
            types.insert(r, widened);
            Ok(())
        },
        (None, _) => Ok(()),
    }
}

/// A copy of an execution key with the same identity.
fn clone_key(k: &BlockExecutionKey) -> (r: BlockExecutionKey)
    ensures
        r.skey() == k.skey(),
{
    let mut parameters: Vec<ValueType> = Vec::new();
    let n = k.parameters.len();
    let mut i: usize = 0;
    while i < n
        invariant
            0 <= i <= n,
            n == k.parameters@.len(),
            parameters@ == k.parameters@.take(i as int),
        decreases n - i,
    {
        parameters.push(k.parameters[i]);
        proof {
            assert(parameters@ =~= k.parameters@.take(i + 1));
        }
        i = i + 1;
    }
    proof {
        assert(parameters@ =~= k.parameters@);
    }
    BlockExecutionKey { id: k.id, parameters }
}

/// Copies of a list of execution keys, identity-preserving and in order.
fn clone_keys(ks: &Vec<BlockExecutionKey>) -> (r: Vec<BlockExecutionKey>)
    ensures
        r@.len() == ks@.len(),
        forall|i: int| 0 <= i < ks@.len() ==> r@[i].skey() == ks@[i].skey(),
{
    let mut r: Vec<BlockExecutionKey> = Vec::new();
    let n = ks.len();
    let mut i: usize = 0;
    while i < n
        invariant
            0 <= i <= n,
            n == ks@.len(),
            r@.len() == i,
            forall|j: int| 0 <= j < i ==> r@[j].skey() == ks@[j].skey(),
        decreases n - i,
    {
        r.push(clone_key(&ks[i]));
        i = i + 1;
    }
    r
}

/// Whether the call already evaluated the visit `(key.id, key.parameters)`.
fn rows_contains(
    rows: &Vec<(BlockId, Vec<ValueType>, ExplorationBranch, RegisterMap)>,
    key: &BlockExecutionKey,
) -> (r: bool)
    ensures
        r == (find_eval(rows@, key.id, key.parameters@) is Some),
{
    let n = rows.len();
    let mut i: usize = 0;
    proof {
        assert(rows@.skip(0) =~= rows@);
    }
    while i < n
        invariant
            0 <= i <= n,
            n == rows@.len(),
            find_eval(rows@, key.id, key.parameters@) == find_eval(
                rows@.skip(i as int),
                key.id,
                key.parameters@,
            ),
        decreases n - i,
    {
        proof {
            assert(rows@.skip(i as int).drop_first() =~= rows@.skip(i + 1));
        }
        if rows[i].0 == key.id && value_types_eq(&rows[i].1, &key.parameters) {
            return true;
        }
        i = i + 1;
    }
    false
}

/// A visit that is not found matches no row.
proof fn lemma_find_eval_none(
    s: Seq<(BlockId, Vec<ValueType>, ExplorationBranch, RegisterMap)>,
    block: BlockId,
    args: Seq<ValueType>,
)
    requires
        find_eval(s, block, args) is None,
    ensures
        forall|i: int| 0 <= i < s.len() ==> !(s[i].0 == block && s[i].1@ == args),
    decreases s.len(),
{
    if s.len() > 0 {
        lemma_find_eval_none(s.drop_first(), block, args);
        assert forall|i: int| 0 <= i < s.len() implies !(s[i].0 == block && s[i].1@ == args) by {
            if i > 0 {
                assert(s.drop_first()[i - 1] == s[i]);
            }
        }
    }
}

/// Rows with pairwise different `(block, argument types)` visits.
pub open spec fn rows_distinct(
    s: Seq<(BlockId, Vec<ValueType>, ExplorationBranch, RegisterMap)>,
) -> bool {
    forall|i: int, j: int|
        0 <= i < j < s.len() ==> !(s[i].0 == s[j].0 && s[i].1@ == s[j].1@)
}

/// The evaluation state of one block under one call.
struct BlockFrame {
    /// The visit being evaluated.
    key: BlockExecutionKey,
    /// The types inferred for every register written so far.
    types: RegisterMap,
    /// The program counter, reported on a fatal abort.
    inst_on: CurrentInstruction,
    /// While a static call is outstanding: the call's result register.
    pending_call: Option<Option<RegisterId>>,
}

/// One call being explored: its root key, its minted identity, its
/// return-type accumulator seeded at `Never`, its FIFO worklist of block keys
/// scoped to this call only, the rows already visited, and the block under
/// evaluation.
struct CallFrame {
    key: BlockExecutionKey,
    block_key: BlockKey,
    return_type: ReturnType,
    pending: Vec<BlockExecutionKey>,
    eval_blocks: Vec<(BlockId, Vec<ValueType>, ExplorationBranch, RegisterMap)>,
    current: Option<BlockFrame>,
}

/// One recorded visit is linked to the program: either a callee that never
/// returns cut the block short, or the row's branch is exactly the
/// terminator rule applied to the row's own register map and the block's
/// terminator.
pub open spec fn row_linked(
    fns: Seq<(crate::id::FunctionId, Function)>,
    row: (BlockId, Vec<ValueType>, ExplorationBranch, RegisterMap),
) -> bool {
    ||| row.2 == ExplorationBranch::Complete(ReturnType::Never)
    ||| (find_block_in(fns, row.0) matches Some(blk) && spec_terminator(row.3, blk.end) == Ok::<
        BranchSpec,
        EngineError,
    >(branch_view(row.2)))
}

/// Every recorded visit of the rows is linked to the program.
pub open spec fn rows_linked(
    fns: Seq<(crate::id::FunctionId, Function)>,
    rows: Seq<(BlockId, Vec<ValueType>, ExplorationBranch, RegisterMap)>,
) -> bool {
    forall|k: int| 0 <= k < rows.len() ==> row_linked(fns, #[trigger] rows[k])
}

/// Each visit of the call appears on at most one row, the block under
/// evaluation is not a recorded row yet, and the accumulator equals the
/// unify-fold of the rows recorded so far.
spec fn frame_wf(f: CallFrame) -> bool {
    &&& rows_distinct(f.eval_blocks@)
    &&& fold_contributions(f.eval_blocks@) == Ok::<ReturnType, UnifyError>(f.return_type)
    &&& match f.current {
        Some(bf) => find_eval(f.eval_blocks@, bf.key.id, bf.key.parameters@) is None,
        None => true,
    }
}

/// A frame below the top of the stack is suspended on a static call.
spec fn frame_suspended(f: CallFrame) -> bool {
    match f.current {
        Some(bf) => bf.pending_call is Some,
        None => false,
    }
}

/// A fatal abort: the error, and the call stack that was live when it struck,
/// innermost call first, each with the instruction it was at.
#[derive(Debug)]
pub struct EngineAbort {
    pub error: EngineError,
    pub callstack: Vec<(BlockExecutionKey, CurrentInstruction)>,
}

/// Resource bounds of one pass.
#[derive(Debug, Clone, Copy, PartialEq, Eq, Structural)]
pub struct EngineConfig {
    /// Most calls live at once; a deeper chain aborts before the native stack
    /// is exhausted.
    pub depth_limit: usize,
    /// Most driver steps in one pass; a pass that works longer aborts rather
    /// than spin on a block graph whose argument shapes never repeat.
    pub fuel: u64,
}

pub const DEFAULT_DEPTH_LIMIT: usize = 1000;

pub const DEFAULT_FUEL: u64 = 1000000;

/// A declared parameter with its inferred symbolic type, as a specialized
/// signature lists it.
#[derive(Debug, Clone, PartialEq)]
pub struct Parameter {
    pub name: String,
    pub register: RegisterId,
    pub typ: ValueType,
}

/// The resolved state of one pass: the memo of every requested key and the
/// typed function of every finished call, plus the id mint.
#[derive(Debug)]
pub struct SymbolicEngine {
    pub executions: Executions,
    pub typed_blocks: TypedBlocks,
    pub new_fn_ids: Counter,
}

impl SymbolicEngine {
    /// Once a pass returns, every requested key is `Finished` and held once,
    /// its call has a typed function on record, no typed function evaluated
    /// one `(block, argument types)` visit twice, and every recorded return
    /// type is the unify-fold of its call's `Complete` contributions.
    pub open spec fn wf(self) -> bool {
        &&& self.executions.keys_distinct()
        &&& forall|k: (BlockId, Seq<ValueType>)| #[trigger]
            self.executions.spec_get(k) is Some ==> {
                let e = self.executions.spec_get(k)->Some_0;
                &&& e is Finished
                &&& self.typed_blocks.spec_get(e.spec_key()) is Some
                &&& self.typed_blocks.spec_get(e.spec_key())->Some_0.visits_distinct()
                &&& self.typed_blocks.spec_get(e.spec_key())->Some_0.return_consistent()
            }
    }

    /// The typed function of a finished execution key, if any.
    pub fn lookup(&self, key: &BlockExecutionKey) -> (r: Option<&TypedFunction>)
        ensures
            match self.executions.spec_get(key.skey()) {
                Some(BlockExecution::Finished(bk)) => match self.typed_blocks.spec_get(bk) {
                    Some(tf0) => r matches Some(tf) && *tf == tf0,
                    None => r is None,
                },
                _ => r is None,
            },
    {
        match self.executions.get(key) {
            Some(e) => {
                let bk = e.key();
                match e {
                    BlockExecution::Finished(_) => self.typed_blocks.get(bk),
                    BlockExecution::InProgress(_) => None,
                }
            },
            None => None,
        }
    }
}

/// The reported position of one frame: the instruction its current block is
/// at, or `Completed` while the frame is between blocks.
spec fn frame_state(f: CallFrame) -> CurrentInstruction {
    match f.current {
        Some(bf) => bf.inst_on,
        None => CurrentInstruction::Completed,
    }
}

/// Folds a stack of call frames into the abort report: every live frame's
/// key and position, innermost call first.
fn make_abort(error: EngineError, frames: Vec<CallFrame>) -> (r: EngineAbort)
    ensures
        r.error == error,
        r.callstack@.len() == frames@.len(),
        forall|i: int|
            0 <= i < frames@.len() ==> #[trigger] r.callstack@[i] == (
                frames@[frames@.len() - 1 - i].key,
                frame_state(frames@[frames@.len() - 1 - i]),
            ),
{
    let mut callstack: Vec<(BlockExecutionKey, CurrentInstruction)> = Vec::new();
    let mut fs = frames;
    let ghost total = fs@.len();
    let ghost frames0 = fs@;
    proof {
        assert(fs@ =~= frames0.take(fs@.len() as int));
    }
    while fs.len() > 0
        invariant
            callstack@.len() + fs@.len() == total,
            frames0.len() == total,
            fs@ == frames0.take(fs@.len() as int),
            forall|i: int|
                0 <= i < callstack@.len() ==> #[trigger] callstack@[i] == (
                    frames0[total - 1 - i].key,
                    frame_state(frames0[total - 1 - i]),
                ),
        decreases fs@.len(),
    {
        let ghost fs_pre = fs@;
        let f = match fs.pop() {
            Some(f) => f,
            None => vstd::pervasive::unreached(),
        };
        proof {
            assert(fs_pre.last() == frames0[fs_pre.len() - 1]);
            assert(fs@ =~= frames0.take(fs_pre.len() - 1));
        }
        let state = match f.current {
            Some(bf) => bf.inst_on,
            None => CurrentInstruction::Completed,
        };
        callstack.push((f.key, state));
    }
    EngineAbort { error, callstack }
}


/// Every in-progress key of the memo is the key of some live call frame.
spec fn ip_covered(e: Executions, fs: Seq<CallFrame>) -> bool {
    forall|k: (BlockId, Seq<ValueType>)|
        (#[trigger] e.spec_get(k)) matches Some(BlockExecution::InProgress(bk)) ==> exists|i: int|
            0 <= i < fs.len() && (#[trigger] fs[i]).key.skey() == k
}

/// Replacing the top frame by one with the same key keeps every in-progress
/// key covered.
proof fn lemma_ip_replace_top(e: Executions, fs_old: Seq<CallFrame>, fs_new: Seq<CallFrame>)
    requires
        ip_covered(e, fs_old),
        fs_old.len() >= 1,
        fs_new.len() == fs_old.len(),
        forall|i: int| 0 <= i < fs_old.len() - 1 ==> fs_new[i] == fs_old[i],
        fs_new[fs_old.len() - 1].key.skey() == fs_old[fs_old.len() - 1].key.skey(),
    ensures
        ip_covered(e, fs_new),
{
    assert forall|k: (BlockId, Seq<ValueType>)|
        (#[trigger] e.spec_get(k)) matches Some(BlockExecution::InProgress(bk)) implies exists|
        i: int,
    |
        0 <= i < fs_new.len() && (#[trigger] fs_new[i]).key.skey() == k by {
        let i0 = choose|i: int| 0 <= i < fs_old.len() && (#[trigger] fs_old[i]).key.skey() == k;
        assert(fs_new[i0].key.skey() == k);
    }
}

/// Marking a fresh key in progress and pushing its frame keeps every
/// in-progress key covered.
proof fn lemma_ip_spawn(
    e_old: Executions,
    e_new: Executions,
    fs_old: Seq<CallFrame>,
    fs_new: Seq<CallFrame>,
    new_sk: (BlockId, Seq<ValueType>),
)
    requires
        ip_covered(e_old, fs_old),
        fs_old.len() >= 1,
        fs_new.len() == fs_old.len() + 1,
        forall|i: int| 0 <= i < fs_old.len() - 1 ==> fs_new[i] == fs_old[i],
        fs_new[fs_old.len() - 1].key.skey() == fs_old[fs_old.len() - 1].key.skey(),
        fs_new[fs_old.len() as int].key.skey() == new_sk,
        forall|k: (BlockId, Seq<ValueType>)|
            k != new_sk ==> #[trigger] e_new.spec_get(k) == e_old.spec_get(k),
    ensures
        ip_covered(e_new, fs_new),
{
    assert forall|k: (BlockId, Seq<ValueType>)|
        (#[trigger] e_new.spec_get(k)) matches Some(BlockExecution::InProgress(bk)) implies exists|
        i: int,
    |
        0 <= i < fs_new.len() && (#[trigger] fs_new[i]).key.skey() == k by {
        if k == new_sk {
            assert(fs_new[fs_old.len() as int].key.skey() == k);
        } else {
            let i0 = choose|i: int|
                0 <= i < fs_old.len() && (#[trigger] fs_old[i]).key.skey() == k;
            assert(fs_new[i0].key.skey() == k);
        }
    }
}

/// Finishing the top frame's key and dropping the frame keeps every
/// in-progress key covered.
proof fn lemma_ip_finish(
    e_old: Executions,
    e_new: Executions,
    fs_old: Seq<CallFrame>,
    fs_new: Seq<CallFrame>,
    fin_sk: (BlockId, Seq<ValueType>),
)
    requires
        ip_covered(e_old, fs_old),
        fs_old.len() >= 1,
        fs_new == fs_old.drop_last(),
        fs_old[fs_old.len() - 1].key.skey() == fin_sk,
        e_new.spec_get(fin_sk) matches Some(e) && e is Finished,
        forall|k: (BlockId, Seq<ValueType>)|
            k != fin_sk ==> #[trigger] e_new.spec_get(k) == e_old.spec_get(k),
    ensures
        ip_covered(e_new, fs_new),
{
    assert forall|k: (BlockId, Seq<ValueType>)|
        (#[trigger] e_new.spec_get(k)) matches Some(BlockExecution::InProgress(bk)) implies exists|
        i: int,
    |
        0 <= i < fs_new.len() && (#[trigger] fs_new[i]).key.skey() == k by {
        assert(k != fin_sk);
        assert(e_old.spec_get(k) == e_new.spec_get(k));
        let i0 = choose|i: int| 0 <= i < fs_old.len() && (#[trigger] fs_old[i]).key.skey() == k;
        assert(i0 < fs_old.len() - 1);
        assert(fs_new[i0] == fs_old[i0]);
        assert(fs_new[i0].key.skey() == k);
    }
}

/// Explores a whole program from its entrypoint and resolves the call graph.
///
/// The pass runs to completion or aborts fatally; on success every requested
/// execution key is finished and carries a typed function, and no call
/// evaluated the same `(block, argument types)` visit twice.
pub fn annotate_with_config(ir: &IR, config: EngineConfig) -> (r: Result<
    SymbolicEngine,
    EngineAbort,
>)
    ensures
        r matches Ok(engine) ==> {
            &&& engine.wf()
            &&& forall|k: (BlockId, Seq<ValueType>)| #[trigger]
                engine.executions.spec_get(k) is Some ==> rows_linked(
                    ir.functions@,
                    engine.typed_blocks.spec_get(
                        engine.executions.spec_get(k)->Some_0.spec_key(),
                    )->Some_0.eval_blocks@,
                )
            &&& crate::assoc::assoc_find(ir.functions@, ir.entrypoint) matches Some(f)
                ==> match engine.executions.spec_get((f.entry_block, Seq::empty())) {
                    Some(e) => e is Finished && engine.typed_blocks.spec_get(
                        e.spec_key(),
                    ) is Some,
                    None => false,
                }
        },
        crate::assoc::assoc_find(ir.functions@, ir.entrypoint) is None ==> (r matches Err(a)
            && a.error == EngineError::UnknownFunction(ir.entrypoint)),
        crate::assoc::assoc_find(ir.functions@, ir.entrypoint) is Some && config.depth_limit
            == 0 ==> (r matches Err(a) && a.error == EngineError::DepthExceeded),
        crate::assoc::assoc_find(ir.functions@, ir.entrypoint) is Some && config.depth_limit
            >= 1 && config.fuel == 0 ==> (r matches Err(a) && a.error
            == EngineError::FuelExhausted),
{
    let mut executions = Executions::new();
    let mut typed_blocks = TypedBlocks::new();
    let mut new_fn_ids = Counter::new();

    let func = match ir.get_function(ir.entrypoint) {
        Some(f) => f,
        None => {
            return Err(make_abort(EngineError::UnknownFunction(ir.entrypoint), Vec::new()));
        },
    };
    let root_key = BlockExecutionKey { id: func.entry_block, parameters: Vec::new() };
    let ghost root_sk = root_key.skey();
    proof {
        assert(root_sk == (func.entry_block, Seq::<ValueType>::empty())) by {
            assert(root_key.parameters@ =~= Seq::<ValueType>::empty());
        }
    }
    if config.depth_limit < 1 {
        return Err(make_abort(EngineError::DepthExceeded, Vec::new()));
    }
    let root_fn_id: FunctionId = match new_fn_ids.next() {
        Some(id) => id,
        None => {
            return Err(make_abort(EngineError::IdSpaceExhausted, Vec::new()));
        },
    };
    let root_block_key = BlockKey { function: root_fn_id, block: BlockId { index: 0 } };
    let pending0 = clone_key(&root_key);
    executions.insert(clone_key(&root_key), BlockExecution::InProgress(root_block_key));
    let mut pending: Vec<BlockExecutionKey> = Vec::new();
    pending.push(pending0);
    let mut frames: Vec<CallFrame> = Vec::new();
    frames.push(
        CallFrame {
            key: root_key,
            block_key: root_block_key,
            return_type: ReturnType::Never,
            pending,
            eval_blocks: Vec::new(),
            current: None,
        },
    );

    proof {
        assert forall|k: (BlockId, Seq<ValueType>)|
            (#[trigger] executions.spec_get(k)) matches Some(
                BlockExecution::InProgress(bk),
            ) implies exists|i: int|
            0 <= i < frames@.len() && (#[trigger] frames@[i]).key.skey() == k by {
            if k != root_sk {
                assert(executions.spec_get(k) is None);
            }
            assert(frames@[0].key.skey() == root_sk);
        }
    }
    let mut fuel: u64 = config.fuel;
    while frames.len() > 0
        invariant
            forall|i: int| 0 <= i < frames@.len() ==> frame_wf(#[trigger] frames@[i]),
            forall|i: int| 0 <= i < frames@.len() - 1 ==> frame_suspended(#[trigger] frames@[i]),
            forall|k: (BlockId, Seq<ValueType>)|
                (#[trigger] executions.spec_get(k)) matches Some(BlockExecution::Finished(bk))
                    ==> typed_blocks.spec_get(bk) matches Some(tf) && tf.visits_distinct()
                    && tf.return_consistent() && rows_linked(ir.functions@, tf.eval_blocks@),
            forall|i: int|
                0 <= i < frames@.len() ==> rows_linked(
                    ir.functions@,
                    (#[trigger] frames@[i]).eval_blocks@,
                ),
            ip_covered(executions, frames@),
            executions.spec_get(root_sk) is Some,
            executions.keys_distinct(),
            crate::assoc::assoc_find(ir.functions@, ir.entrypoint) is Some,
            config.depth_limit >= 1,
            fuel <= config.fuel,
            frames@.len() > 0 || config.fuel > 0,
        decreases fuel,
    {
        if fuel == 0 {
            return Err(make_abort(EngineError::FuelExhausted, frames));
        }
        fuel = fuel - 1;
        let ghost frames_at_entry = frames@;
        let ghost exec_at_entry = executions;
        let mut frame = match frames.pop() {
            Some(f) => f,
            None => vstd::pervasive::unreached(),
        };
        let ghost frame_key_sk = frame.key.skey();
        let cur = frame.current;
        frame.current = None;
        match cur {
            None => {
                if frame.pending.len() == 0 {
                    // This call is resolved: record it and hand its return
                    // type to the suspended caller, if any.
                    let rt = frame.return_type;
                    let typed = TypedFunction {
                        return_type: frame.return_type,
                        eval_blocks: frame.eval_blocks,
                    };
                    executions.insert(frame.key, BlockExecution::Finished(frame.block_key));
                    typed_blocks.insert(frame.block_key, typed);
                    proof {
                        assert(frames@ =~= frames_at_entry.drop_last());
                        lemma_ip_finish(
                            exec_at_entry,
                            executions,
                            frames_at_entry,
                            frames@,
                            frame_key_sk,
                        );
                    }
                    if frames.len() > 0 {
                        let mut parent = match frames.pop() {
                            Some(f) => f,
                            None => vstd::pervasive::unreached(),
                        };
                        let ghost parent_at_entry = parent;
                        let pcur = parent.current;
                        parent.current = None;
                        match pcur {
                            Some(mut bf) => {
                                match bf.pending_call {
                                    Some(result) => {
                                        bf.pending_call = None;
                                        match call_effect(result, rt) {
                                            Err(e) => {
                                                parent.current = Some(bf);
                                                frames.push(parent);
                                                return Err(make_abort(e, frames));
                                            },
                                            Ok(CallEffect::NeverInfected) => {
                                                // The callee never returns: the rest of this
                                                // block is unreachable; its terminator is
                                                // discarded and the block completes with
                                                // `Never`, which the union absorbs.
                                                let ghost rows_pre = parent.eval_blocks@;
                                                proof {
                                                    assert(frame_wf(
                                                        frames_at_entry[frames_at_entry.len()
                                                            - 2],
                                                    ));
                                                    lemma_find_eval_none(
                                                        parent.eval_blocks@,
                                                        bf.key.id,
                                                        bf.key.parameters@,
                                                    );
                                                }
                                                parent.eval_blocks.push(
                                                    (
                                                        bf.key.id,
                                                        bf.key.parameters,
                                                        ExplorationBranch::Complete(
                                                            ReturnType::Never,
                                                        ),
                                                        bf.types,
                                                    ),
                                                );
                                                proof {
                                                    assert(parent.eval_blocks@.drop_last()
                                                        =~= rows_pre);
                                                    assert(fold_contributions(
                                                        parent.eval_blocks@,
                                                    ) == Ok::<ReturnType, UnifyError>(
                                                        parent.return_type,
                                                    ));
                                                }
                                                frames.push(parent);
                                                proof {
                                                    lemma_ip_replace_top(
                                                        executions,
                                                        frames_at_entry.drop_last(),
                                                        frames@,
                                                    );
                                                }
                                            },
                                            Ok(CallEffect::NoBinding) => {
                                                // the guard only keeps the
                                                // increment free of overflow
                                                match bf.inst_on {
                                                    CurrentInstruction::Sequential(i) => {
                                                        if i < usize::MAX {
                                                            bf.inst_on =
                                                                CurrentInstruction::Sequential(
                                                                i + 1,
                                                            );
                                                        }
                                                    },
                                                    _ => {},
                                                }
                                                parent.current = Some(bf);
                                                frames.push(parent);
                                                proof {
                                                    lemma_ip_replace_top(
                                                        executions,
                                                        frames_at_entry.drop_last(),
                                                        frames@,
                                                    );
                                                }
                                            },
                                            Ok(CallEffect::Assign(reg, t)) => {
                                                bf.types.insert(reg, t);
                                                // the guard only keeps the
                                                // increment free of overflow
                                                match bf.inst_on {
                                                    CurrentInstruction::Sequential(i) => {
                                                        if i < usize::MAX {
                                                            bf.inst_on =
                                                                CurrentInstruction::Sequential(
                                                                i + 1,
                                                            );
                                                        }
                                                    },
                                                    _ => {},
                                                }
                                                parent.current = Some(bf);
                                                frames.push(parent);
                                                proof {
                                                    lemma_ip_replace_top(
                                                        executions,
                                                        frames_at_entry.drop_last(),
                                                        frames@,
                                                    );
                                                }
                                            },
                                        }
                                    },
                                    None => {
                                        // every frame below the top is
                                        // suspended on a call
                                        proof {
                                            assert(frame_suspended(parent_at_entry));
                                        }
                                        vstd::pervasive::unreached::<()>()
                                    },
                                }
                            },
                            None => {
                                // every frame below the top holds the block
                                // whose call suspended it
                                proof {
                                    assert(frame_suspended(parent_at_entry));
                                }
                                vstd::pervasive::unreached::<()>()
                            },
                        }
                    }
                } else {
                    // Take the next key of this call's worklist; a visit
                    // already evaluated under this call is not evaluated
                    // twice.
                    let next = frame.pending.remove(0);
                    if rows_contains(&frame.eval_blocks, &next) {
                        frames.push(frame);
                        proof {
                            lemma_ip_replace_top(executions, frames_at_entry, frames@);
                        }
                    } else {
                        let block = match ir.get_block(next.id) {
                            Some(b) => b,
                            None => {
                                let e = EngineError::UnknownBlock(next.id);
                                frames.push(frame);
                                return Err(make_abort(e, frames));
                            },
                        };
                        if block.parameters.len() != next.parameters.len() {
                            let e = EngineError::ArityMismatch(next.id);
                            frames.push(frame);
                            return Err(make_abort(e, frames));
                        }
                        let mut types = RegisterMap::new();
                        let n = block.parameters.len();
                        let mut j: usize = 0;
                        while j < n
                            invariant
                                0 <= j <= n,
                                n == block.parameters@.len(),
                                n == next.parameters@.len(),
                            decreases n - j,
                        {
                            types.insert(block.parameters[j], next.parameters[j]);
                            j = j + 1;
                        }
                        frame.current = Some(
                            BlockFrame {
                                key: next,
                                types,
                                inst_on: CurrentInstruction::NotStarted,
                                pending_call: None,
                            },
                        );
                        frames.push(frame);
                        proof {
                            lemma_ip_replace_top(executions, frames_at_entry, frames@);
                        }
                    }
                }
            },
            Some(mut bf) => {
                let block = match ir.get_block(bf.key.id) {
                    Some(b) => b,
                    None => {
                        let e = EngineError::UnknownBlock(bf.key.id);
                        frame.current = Some(bf);
                        frames.push(frame);
                        return Err(make_abort(e, frames));
                    },
                };
                match bf.inst_on {
                    CurrentInstruction::NotStarted => {
                        bf.inst_on = CurrentInstruction::Sequential(0);
                        frame.current = Some(bf);
                        frames.push(frame);
                        proof {
                            lemma_ip_replace_top(executions, frames_at_entry, frames@);
                        }
                    },
                    CurrentInstruction::Completed => {
                        frames.push(frame);
                        proof {
                            lemma_ip_replace_top(executions, frames_at_entry, frames@);
                        }
                    },
                    CurrentInstruction::ControlFlow => {
                        match eval_terminator(&bf.types, &block.end) {
                            Err(e) => {
                                frame.current = Some(bf);
                                frames.push(frame);
                                return Err(make_abort(e, frames));
                            },
                            Ok(branch) => {
                                let ghost rows_pre = frame.eval_blocks@;
                                let ghost rt_pre = frame.return_type;
                                let ghost branch_g = branch;
                                proof {
                                    assert(frame_wf(
                                        frames_at_entry[frames_at_entry.len() - 1],
                                    ));
                                    assert(fold_contributions(rows_pre) == Ok::<
                                        ReturnType,
                                        UnifyError,
                                    >(rt_pre));
                                }
                                match &branch {
                                    ExplorationBranch::Branch(ks) => {
                                        let mut copies = clone_keys(ks);
                                        frame.pending.append(&mut copies);
                                    },
                                    ExplorationBranch::Complete(rt) => {
                                        match frame.return_type.unify(*rt) {
                                            Ok(u) => {},
                                            Err(UnifyError::Incompatible(a, b)) => {
                                                let e = EngineError::UnifyConflict(a, b);
                                                frame.current = Some(bf);
                                                frames.push(frame);
                                                return Err(make_abort(e, frames));
                                            },
                                        }
                                    },
                                }
                                proof {
                                    lemma_find_eval_none(
                                        frame.eval_blocks@,
                                        bf.key.id,
                                        bf.key.parameters@,
                                    );
                                }
                                frame.eval_blocks.push(
                                    (bf.key.id, bf.key.parameters, branch, bf.types),
                                );
                                proof {
                                    assert(frame.eval_blocks@.drop_last() =~= rows_pre);
                                    assert(frame.eval_blocks@.last().2 == branch_g);
                                    assert(fold_contributions(frame.eval_blocks@) == Ok::<
                                        ReturnType,
                                        UnifyError,
                                    >(frame.return_type));
                                }
                                frames.push(frame);
                                proof {
                                    lemma_ip_replace_top(executions, frames_at_entry, frames@);
                                }
                            },
                        }
                    },
                    CurrentInstruction::Sequential(i) => {
                        if i >= block.instructions.len() {
                            bf.inst_on = CurrentInstruction::ControlFlow;
                            frame.current = Some(bf);
                            frames.push(frame);
                            proof {
                                lemma_ip_replace_top(executions, frames_at_entry, frames@);
                            }
                        } else {
                            match &block.instructions[i] {
                                Instruction::Call(result, callable, args) => {
                                    match callable {
                                        Callable::External(eid) => {
                                            let ext = match ir.get_external_function(*eid) {
                                                Some(ext) => ext,
                                                None => {
                                                    let e =
                                                        EngineError::UnknownExternalFunction(
                                                        *eid,
                                                    );
                                                    frame.current = Some(bf);
                                                    frames.push(frame);
                                                    return Err(make_abort(e, frames));
                                                },
                                            };
                                            match exec_external_call(
                                                &mut bf.types,
                                                *eid,
                                                ext,
                                                *result,
                                                args,
                                            ) {
                                                Err(e) => {
                                                    frame.current = Some(bf);
                                                    frames.push(frame);
                                                    return Err(make_abort(e, frames));
                                                },
                                                Ok(u) => {
                                                    bf.inst_on = CurrentInstruction::Sequential(
                                                        i + 1,
                                                    );
                                                    frame.current = Some(bf);
                                                    frames.push(frame);
                                                    proof {
                                                        lemma_ip_replace_top(
                                                            executions,
                                                            frames_at_entry,
                                                            frames@,
                                                        );
                                                    }
                                                },
                                            }
                                        },
                                        Callable::Static(fid) => {
                                            let args_ts = match collect_arg_types(
                                                &bf.types,
                                                args,
                                            ) {
                                                Ok(ts) => ts,
                                                Err(e) => {
                                                    frame.current = Some(bf);
                                                    frames.push(frame);
                                                    return Err(make_abort(e, frames));
                                                },
                                            };
                                            let callee_fn = match ir.get_function(*fid) {
                                                Some(f) => f,
                                                None => {
                                                    let e = EngineError::UnknownFunction(*fid);
                                                    frame.current = Some(bf);
                                                    frames.push(frame);
                                                    return Err(make_abort(e, frames));
                                                },
                                            };
                                            let callee_key = BlockExecutionKey {
                                                id: callee_fn.entry_block,
                                                parameters: args_ts,
                                            };
                                            let ghost callee_sk = callee_key.skey();
                                            match resolve_call(
                                                &executions,
                                                &typed_blocks,
                                                &callee_key,
                                            ) {
                                                Err(e) => {
                                                    frame.current = Some(bf);
                                                    frames.push(frame);
                                                    return Err(make_abort(e, frames));
                                                },
                                                Ok(CallResolution::Resolved(rt)) => {
                                                    match call_effect(*result, rt) {
                                                        Err(e) => {
                                                            frame.current = Some(bf);
                                                            frames.push(frame);
                                                            return Err(make_abort(e, frames));
                                                        },
                                                        Ok(CallEffect::NeverInfected) => {
                                                            let ghost rows_pre =
                                                                frame.eval_blocks@;
                                                            proof {
                                                                assert(frame_wf(
                                                                    frames_at_entry[frames_at_entry.len()
                                                                        - 1],
                                                                ));
                                                                lemma_find_eval_none(
                                                                    frame.eval_blocks@,
                                                                    bf.key.id,
                                                                    bf.key.parameters@,
                                                                );
                                                            }
                                                            frame.eval_blocks.push(
                                                                (
                                                                    bf.key.id,
                                                                    bf.key.parameters,
                                                                    ExplorationBranch::Complete(
                                                                        ReturnType::Never,
                                                                    ),
                                                                    bf.types,
                                                                ),
                                                            );
                                                            proof {
                                                                assert(frame.eval_blocks@.drop_last()
                                                                    =~= rows_pre);
                                                                assert(fold_contributions(
                                                                    frame.eval_blocks@,
                                                                ) == Ok::<ReturnType, UnifyError>(
                                                                    frame.return_type,
                                                                ));
                                                            }
                                                            frames.push(frame);
                                                            proof {
                                                                lemma_ip_replace_top(
                                                                    executions,
                                                                    frames_at_entry,
                                                                    frames@,
                                                                );
                                                            }
                                                        },
                                                        Ok(CallEffect::NoBinding) => {
                                                            bf.inst_on =
                                                                CurrentInstruction::Sequential(
                                                                i + 1,
                                                            );
                                                            frame.current = Some(bf);
                                                            frames.push(frame);
                                                            proof {
                                                                lemma_ip_replace_top(
                                                                    executions,
                                                                    frames_at_entry,
                                                                    frames@,
                                                                );
                                                            }
                                                        },
                                                        Ok(CallEffect::Assign(reg, t)) => {
                                                            bf.types.insert(reg, t);
                                                            bf.inst_on =
                                                                CurrentInstruction::Sequential(
                                                                i + 1,
                                                            );
                                                            frame.current = Some(bf);
                                                            frames.push(frame);
                                                            proof {
                                                                lemma_ip_replace_top(
                                                                    executions,
                                                                    frames_at_entry,
                                                                    frames@,
                                                                );
                                                            }
                                                        },
                                                    }
                                                },
                                                Ok(CallResolution::New) => {
                                                    if config.depth_limit < 2 || frames.len()
                                                        >= config.depth_limit - 1 {
                                                        let e = EngineError::DepthExceeded;
                                                        frame.current = Some(bf);
                                                        frames.push(frame);
                                                        return Err(make_abort(e, frames));
                                                    }
                                                    let callee_fn_id: FunctionId =
                                                        match new_fn_ids.next() {
                                                        Some(id) => id,
                                                        None => {
                                                            let e =
                                                                EngineError::IdSpaceExhausted;
                                                            frame.current = Some(bf);
                                                            frames.push(frame);
                                                            return Err(make_abort(e, frames));
                                                        },
                                                    };
                                                    let callee_block_key = BlockKey {
                                                        function: callee_fn_id,
                                                        block: BlockId { index: 0 },
                                                    };
                                                    let memo_key = clone_key(&callee_key);
                                                    let pending_key = clone_key(&callee_key);
                                                    executions.insert(
                                                        memo_key,
                                                        BlockExecution::InProgress(
                                                            callee_block_key,
                                                        ),
                                                    );
                                                    bf.pending_call = Some(*result);
                                                    frame.current = Some(bf);
                                                    frames.push(frame);
                                                    let mut callee_pending: Vec<
                                                        BlockExecutionKey,
                                                    > = Vec::new();
                                                    callee_pending.push(pending_key);
                                                    frames.push(
                                                        CallFrame {
                                                            key: callee_key,
                                                            block_key: callee_block_key,
                                                            return_type: ReturnType::Never,
                                                            pending: callee_pending,
                                                            eval_blocks: Vec::new(),
                                                            current: None,
                                                        },
                                                    );
                                                    proof {
                                                        lemma_ip_spawn(
                                                            exec_at_entry,
                                                            executions,
                                                            frames_at_entry,
                                                            frames@,
                                                            callee_sk,
                                                        );
                                                    }
                                                },
                                            }
                                        },
                                    }
                                },
                                inst => {
                                    match exec_inst(&mut bf.types, inst) {
                                        Err(e) => {
                                            frame.current = Some(bf);
                                            frames.push(frame);
                                            return Err(make_abort(e, frames));
                                        },
                                        Ok(u) => {
                                            bf.inst_on = CurrentInstruction::Sequential(i + 1);
                                            frame.current = Some(bf);
                                            frames.push(frame);
                                            proof {
                                                lemma_ip_replace_top(
                                                    executions,
                                                    frames_at_entry,
                                                    frames@,
                                                );
                                            }
                                        },
                                    }
                                },
                            }
                        }
                    },
                }
            },
        }
    }
    let engine = SymbolicEngine { executions, typed_blocks, new_fn_ids };
    proof {
        assert forall|k: (BlockId, Seq<ValueType>)| #[trigger]
            engine.executions.spec_get(k) is Some implies {
            let e = engine.executions.spec_get(k)->Some_0;
            &&& e is Finished
            &&& engine.typed_blocks.spec_get(e.spec_key()) is Some
            &&& engine.typed_blocks.spec_get(e.spec_key())->Some_0.visits_distinct()
        } by {
            let e = engine.executions.spec_get(k)->Some_0;
            if e is InProgress {
                assert(false);
            }
        }
    }
    Ok(engine)
}

/// Explores a whole program from its entrypoint with the default resource
/// bounds.
pub fn annotate(ir: &IR) -> (r: Result<SymbolicEngine, EngineAbort>)
    ensures
        r matches Ok(engine) ==> {
            &&& engine.wf()
            &&& forall|k: (BlockId, Seq<ValueType>)| #[trigger]
                engine.executions.spec_get(k) is Some ==> rows_linked(
                    ir.functions@,
                    engine.typed_blocks.spec_get(
                        engine.executions.spec_get(k)->Some_0.spec_key(),
                    )->Some_0.eval_blocks@,
                )
            &&& crate::assoc::assoc_find(ir.functions@, ir.entrypoint) matches Some(f)
                ==> match engine.executions.spec_get((f.entry_block, Seq::empty())) {
                    Some(e) => e is Finished && engine.typed_blocks.spec_get(
                        e.spec_key(),
                    ) is Some,
                    None => false,
                }
        },
        crate::assoc::assoc_find(ir.functions@, ir.entrypoint) is None ==> (r matches Err(a)
            && a.error == EngineError::UnknownFunction(ir.entrypoint)),
{
    annotate_with_config(
        ir,
        EngineConfig { depth_limit: DEFAULT_DEPTH_LIMIT, fuel: DEFAULT_FUEL },
    )
}

} // verus!
