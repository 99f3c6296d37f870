//! The read-only IR program that the specialization engine consumes.
//!
//! A program holds an entrypoint function id, external functions (name,
//! ordered foreign parameter types, foreign return type), and functions; a
//! function holds blocks; a block holds ordered parameter registers, ordered
//! instructions and exactly one terminator.
//!
//! Lookup tables are association lists in insertion order; lookups return the
//! first entry with the requested id.

use vstd::prelude::*;

use crate::assoc::assoc_find;
use crate::id::{BlockId, ConstantId, ExternalFunctionId, FunctionId, RegisterId};

verus! {

/// A foreign-interface type, as declared by an external function.
#[derive(Debug, Clone, Copy, PartialEq, Eq, Hash, Structural)]
pub enum FFIValueType {
    Any,
    Runtime,
    /// Pointer to data of the specified width.
    Pointer(u16),
    Word,
    String,
}

/// A foreign-interface return type.
#[derive(Debug, Clone, Copy, PartialEq, Eq, Hash, Structural)]
pub enum FFIReturnType {
    Void,
    Value(FFIValueType),
}

/// A byte-string constant of the program.
#[derive(Debug, Clone, PartialEq)]
pub struct Constant {
    pub name: String,
    pub payload: Vec<u8>,
}

/// An external function: callable by the program, implemented outside it.
#[derive(Debug, Clone, PartialEq)]
pub struct ExternalFunction {
    pub name: String,
    pub parameters: Vec<FFIValueType>,
    pub return_type: FFIReturnType,
}

/// What a call targets.
#[derive(Debug, Clone, Copy, PartialEq, Eq, Hash, Structural)]
pub enum Callable {
    External(ExternalFunctionId),
    Static(FunctionId),
}

/// One non-terminator instruction.
#[derive(Debug, Clone, PartialEq)]
pub enum Instruction {
    /// Obtain a handle to the runtime in the destination register.
    GetRuntime(RegisterId),
    /// Materialize the string constant in the destination register.
    MakeString(RegisterId, ConstantId),
    /// Materialize an exact integer in the destination register.
    MakeInteger(RegisterId, i64),
    /// Materialize an exact boolean in the destination register.
    MakeBoolean(RegisterId, bool),
    /// Compare two registers; the destination holds the boolean outcome.
    CompareLessThan(RegisterId, RegisterId, RegisterId),
    /// Add two registers into the destination.
    Add(RegisterId, RegisterId, RegisterId),
    /// Call a target with ordered argument registers, optionally binding the
    /// result to a destination register.
    Call(Option<RegisterId>, Callable, Vec<RegisterId>),
}

/// A jump edge: target block and the ordered registers forwarded to it.
#[derive(Debug, Clone, PartialEq)]
pub struct BasicBlockJump(pub BlockId, pub Vec<RegisterId>);

/// The single terminator of a block.
#[derive(Debug, Clone, PartialEq)]
pub enum ControlFlowInstruction {
    Jmp(BasicBlockJump),
    JmpIf { condition: RegisterId, true_path: BasicBlockJump, false_path: BasicBlockJump },
    Ret(Option<RegisterId>),
}

/// One basic block: ordered parameter registers, ordered instructions, and
/// exactly one terminator.
#[derive(Debug, Clone, PartialEq)]
pub struct FunctionBlock {
    pub parameters: Vec<RegisterId>,
    pub instructions: Vec<Instruction>,
    pub end: ControlFlowInstruction,
}

/// One function: its entry block and its blocks, keyed by block id.
#[derive(Debug, Clone, PartialEq)]
pub struct Function {
    pub name: String,
    pub entry_block: BlockId,
    pub blocks: Vec<(BlockId, FunctionBlock)>,
}

/// An immutable IR program.
#[derive(Debug, Clone, PartialEq)]
pub struct IR {
    pub entrypoint: FunctionId,
    pub constants: Vec<(ConstantId, Constant)>,
    pub external_functions: Vec<(ExternalFunctionId, ExternalFunction)>,
    pub functions: Vec<(FunctionId, Function)>,
}

impl Function {
    /// The block with the given id, if the function has one.
    pub fn get_block(&self, id: BlockId) -> (r: Option<&FunctionBlock>)
        ensures
            match r {
                Some(b) => assoc_find(self.blocks@, id) == Some(*b),
                None => assoc_find(self.blocks@, id) is None,
            },
    {
        let n = self.blocks.len();
        let mut i: usize = 0;
        proof {
            assert(self.blocks@.skip(0) =~= self.blocks@);
        }
        while i < n
            invariant
                0 <= i <= n,
                n == self.blocks@.len(),
                assoc_find(self.blocks@, id) == assoc_find(self.blocks@.skip(i as int), id),
            decreases n - i,
        {
            proof {
                assert(self.blocks@.skip(i as int).drop_first() =~= self.blocks@.skip(i + 1));
            }
            if self.blocks[i].0 == id {
                return Some(&self.blocks[i].1);
            }
            i = i + 1;
        }
        None
    }
}

/// The first block carrying the given id, searching the functions in order.
pub open spec fn find_block_in(
    fns: Seq<(FunctionId, Function)>,
    id: BlockId,
) -> Option<FunctionBlock>
    decreases fns.len(),
{
    if fns.len() == 0 {
        None
    } else {
        match assoc_find(fns[0].1.blocks@, id) {
            Some(b) => Some(b),
            None => find_block_in(fns.drop_first(), id),
        }
    }
}

impl IR {
    /// The function with the given id, if the program has one.
    pub fn get_function(&self, id: FunctionId) -> (r: Option<&Function>)
        ensures
            match r {
                Some(f) => assoc_find(self.functions@, id) == Some(*f),
                None => assoc_find(self.functions@, id) is None,
            },
    {
        let n = self.functions.len();
        let mut i: usize = 0;
        proof {
            assert(self.functions@.skip(0) =~= self.functions@);
        }
        while i < n
            invariant
                0 <= i <= n,
                n == self.functions@.len(),
                assoc_find(self.functions@, id) == assoc_find(
                    self.functions@.skip(i as int),
                    id,
                ),
            decreases n - i,
        {
            proof {
                assert(self.functions@.skip(i as int).drop_first() =~= self.functions@.skip(
                    i + 1,
                ));
            }
            if self.functions[i].0 == id {
                return Some(&self.functions[i].1);
            }
            i = i + 1;
        }
        None
    }

    /// The external function with the given id, if the program has one.
    pub fn get_external_function(&self, id: ExternalFunctionId) -> (r: Option<&ExternalFunction>)
        ensures
            match r {
                Some(f) => assoc_find(self.external_functions@, id) == Some(*f),
                None => assoc_find(self.external_functions@, id) is None,
            },
    {
        let n = self.external_functions.len();
        let mut i: usize = 0;
        proof {
            assert(self.external_functions@.skip(0) =~= self.external_functions@);
        }
        while i < n
            invariant
                0 <= i <= n,
                n == self.external_functions@.len(),
                assoc_find(self.external_functions@, id) == assoc_find(
                    self.external_functions@.skip(i as int),
                    id,
                ),
            decreases n - i,
        {
            proof {
                assert(self.external_functions@.skip(i as int).drop_first()
                    =~= self.external_functions@.skip(i + 1));
            }
            if self.external_functions[i].0 == id {
                return Some(&self.external_functions[i].1);
            }
            i = i + 1;
        }
        None
    }

    /// The block with the given id: the first match, searching every
    /// function in order.
    pub fn get_block(&self, id: BlockId) -> (r: Option<&FunctionBlock>)
        ensures
            match r {
                Some(b) => find_block_in(self.functions@, id) == Some(*b),
                None => find_block_in(self.functions@, id) is None,
            },
    {
        let n = self.functions.len();
        let mut i: usize = 0;
        proof {
            assert(self.functions@.skip(0) =~= self.functions@);
        }
        while i < n
            invariant
                0 <= i <= n,
                n == self.functions@.len(),
                find_block_in(self.functions@, id) == find_block_in(
                    self.functions@.skip(i as int),
                    id,
                ),
            decreases n - i,
        {
            proof {
                assert(self.functions@.skip(i as int).drop_first() =~= self.functions@.skip(
                    i + 1,
                ));
                assert(self.functions@.skip(i as int)[0] == self.functions@[i as int]);
            }
            match self.functions[i].1.get_block(id) {
                Some(b) => {
                    return Some(b);
                },
                None => {},
            }
            i = i + 1;
        }
        None
    }
}

} // verus!
