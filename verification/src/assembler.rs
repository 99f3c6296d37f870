//! The types the downstream assembler consumes, and the classification of
//! symbolic types it relies on.

use vstd::prelude::*;

use crate::assoc::assoc_find;
use crate::id::{BlockId, ConstantId, ExternalFunctionId, FunctionId, RegisterId};
use crate::ir::{FFIReturnType, FFIValueType};
use crate::lattice::ValueType;

verus! {

/// A type as the assembler sees it: a foreign-interface type, or a symbolic
/// lattice type.
#[derive(Debug, Clone, Copy, PartialEq, Eq, Hash, Structural)]
pub enum Type {
    FFI(FFIValueType),
    Val(ValueType),
}

/// What an assembled function returns.
#[derive(Debug, Clone, Copy, PartialEq, Eq, Hash, Structural)]
pub enum ReturnType {
    Void,
    Value(Type),
}

impl ValueType {
    /// This symbolic type as an assembler type.
    pub fn to_type(&self) -> (r: Type)
        ensures
            r == Type::Val(*self),
    {
        Type::Val(*self)
    }

    /// Whether this type stands for one known constant value.
    pub open spec fn spec_is_const(self) -> bool {
        match self {
            ValueType::ExactInteger(_) => true,
            ValueType::ExactString(_) => true,
            ValueType::Bool(_) => true,
            _ => false,
        }
    }

    /// Whether this type stands for one known constant value.
    pub fn is_const(&self) -> (r: bool)
        ensures
            r == self.spec_is_const(),
    {
        match self {
            ValueType::ExactInteger(_) => true,
            ValueType::ExactString(_) => true,
            ValueType::Bool(_) => true,
            _ => false,
        }
    }

    /// Whether this type is simple: cheap enough to rebuild at any moment
    /// that the engine prefers regenerating it at point of use over passing
    /// it along as data.
    pub open spec fn spec_is_simple(self) -> bool {
        match self {
            ValueType::Runtime => true,
            ValueType::ExactInteger(_) => true,
            ValueType::Bool(_) => true,
            ValueType::ExactString(_) => true,
            _ => false,
        }
    }

    /// Whether this type is simple.  Every exact type is simple.
    pub fn is_simple(&self) -> (r: bool)
        ensures
            r == self.spec_is_simple(),
    {
        match self {
            ValueType::Runtime => true,
            ValueType::ExactInteger(_) => true,
            ValueType::Bool(_) => true,
            ValueType::ExactString(_) => true,
            _ => false,
        }
    }
}

/// Every exact (constant) symbolic type is simple: the engine can always
/// elide passing a constant and regenerate it at point of use.
pub proof fn lemma_const_is_simple(t: ValueType)
    ensures
        t.spec_is_const() ==> t.spec_is_simple(),
{
}

/// An external function as the assembler declares it.
#[derive(Debug, Clone, PartialEq)]
pub struct ExternalFunction {
    pub name: String,
    pub parameters: Vec<Type>,
    pub return_type: ReturnType,
}

/// A fully assembled function: its entry block, its blocks, and its return
/// type.
#[derive(Debug, Clone, PartialEq)]
pub struct Function {
    pub entry_block: BlockId,
    pub blocks: Vec<(BlockId, Block)>,
    pub return_type: ReturnType,
}

impl Function {
    /// The function's entry block, if its block table holds it.
    pub fn entry_block(&self) -> (r: Option<&Block>)
        ensures
            match r {
                Some(b) => assoc_find(self.blocks@, self.entry_block) == Some(*b),
                None => assoc_find(self.blocks@, self.entry_block) is None,
            },
    {
        let n = self.blocks.len();
        let mut i: usize = 0;
        proof {
            assert(self.blocks@.skip(0) =~= self.blocks@);
        }
        while i < n
            invariant
                0 <= i <= n,
                n == self.blocks@.len(),
                assoc_find(self.blocks@, self.entry_block) == assoc_find(
                    self.blocks@.skip(i as int),
                    self.entry_block,
                ),
            decreases n - i,
        {
            proof {
                assert(self.blocks@.skip(i as int).drop_first() =~= self.blocks@.skip(i + 1));
            }
            if self.blocks[i].0 == self.entry_block {
                return Some(&self.blocks[i].1);
            }
            i = i + 1;
        }
        None
    }
}

/// An assembled block: typed parameters, instructions, one terminator.
#[derive(Debug, Clone, PartialEq)]
pub struct Block {
    pub parameters: Vec<Parameter>,
    pub instructions: Vec<Instruction>,
    pub end: EndInstruction,
}

/// A typed parameter register of an assembled block.
#[derive(Debug, Clone, Copy, PartialEq, Eq, Structural)]
pub struct Parameter {
    pub typ: Type,
    pub register: RegisterId,
}

/// One assembled instruction.
#[derive(Debug, Clone, PartialEq)]
pub enum Instruction {
    Call(Option<RegisterId>, Callable, Vec<RegisterId>),
    GetRuntime(RegisterId),
    MakeString(RegisterId, ConstantId),
    MakeNumber(RegisterId, i64),
    MakeBoolean(RegisterId, bool),
    /// Widens a register into a bigger type; `to` must be wider than `from`.
    Widen { result: RegisterId, input: RegisterId, from: Type, to: Type },
    Unreachable,
}

/// What an assembled call targets.
#[derive(Debug, Clone, Copy, PartialEq, Eq, Structural)]
pub enum Callable {
    Extern(ExternalFunctionId),
    Static(FunctionId),
}

/// The single terminator of an assembled block.  A block cut short by a
/// callee that never returns ends in `Unreachable`.
#[derive(Debug, Clone, PartialEq)]
pub enum EndInstruction {
    Unreachable,
    Jump(BlockJump),
    JumpIf { condition: RegisterId, true_path: BlockJump, false_path: BlockJump },
    Return(Option<RegisterId>),
}

/// An assembled jump edge: target block and forwarded registers.
#[derive(Debug, Clone, PartialEq)]
pub struct BlockJump(pub BlockId, pub Vec<RegisterId>);

/// A whole assembled program, ready for native code emission.
#[derive(Debug, Clone, PartialEq)]
pub struct Program {
    pub entrypoint: FunctionId,
    pub constants: Vec<(ConstantId, Vec<u8>)>,
    pub external_functions: Vec<(ExternalFunctionId, ExternalFunction)>,
    pub functions: Vec<(FunctionId, Function)>,
}

impl crate::lattice::ReturnType {
    /// This inferred return type as the assembler sees it.  A call that never
    /// returns has already turned the code after it unreachable, so `Never`
    /// lowers to `Void`: nothing is ever returned through it.
    pub fn into_type(self) -> (r: ReturnType)
        ensures
            r == match self {
                crate::lattice::ReturnType::Void => ReturnType::Void,
                crate::lattice::ReturnType::Value(v) => ReturnType::Value(Type::Val(v)),
                crate::lattice::ReturnType::Never => ReturnType::Void,
            },
    {
        match self {
            crate::lattice::ReturnType::Void => ReturnType::Void,
            crate::lattice::ReturnType::Value(v) => ReturnType::Value(v.to_type()),
            crate::lattice::ReturnType::Never => ReturnType::Void,
        }
    }
}

impl FFIValueType {
    /// This foreign type as an assembler type.
    pub fn into_type(self) -> (r: Type)
        ensures
            r == Type::FFI(self),
    {
        Type::FFI(self)
    }
}

impl FFIReturnType {
    /// This foreign return type as an assembler return type.
    pub fn into_type(self) -> (r: ReturnType)
        ensures
            r == match self {
                FFIReturnType::Void => ReturnType::Void,
                FFIReturnType::Value(v) => ReturnType::Value(Type::FFI(v)),
            },
    {
        match self {
            FFIReturnType::Void => ReturnType::Void,
            FFIReturnType::Value(v) => ReturnType::Value(v.into_type()),
        }
    }
}

/// Re-declares an external function of the input program for the assembler:
/// the name is kept and every foreign type crosses into the assembler's
/// type universe.
pub fn map_ext_fn(external_function: crate::ir::ExternalFunction) -> (r: ExternalFunction)
    ensures
        r.name@ == external_function.name@,
        r.parameters@.len() == external_function.parameters@.len(),
        forall|i: int|
            0 <= i < r.parameters@.len() ==> r.parameters@[i] == Type::FFI(
                #[trigger] external_function.parameters@[i],
            ),
        r.return_type == match external_function.return_type {
            FFIReturnType::Void => ReturnType::Void,
            FFIReturnType::Value(v) => ReturnType::Value(Type::FFI(v)),
        },
{
    let mut parameters: Vec<Type> = Vec::new();
    let n = external_function.parameters.len();
    let mut i: usize = 0;
    while i < n
        invariant
            0 <= i <= n,
            n == external_function.parameters@.len(),
            parameters@.len() == i,
            forall|j: int|
                0 <= j < i ==> parameters@[j] == Type::FFI(
                    #[trigger] external_function.parameters@[j],
                ),
        decreases n - i,
    {
        parameters.push(external_function.parameters[i].into_type());
        i = i + 1;
    }
    let return_type = external_function.return_type.into_type();
    ExternalFunction { name: external_function.name, parameters, return_type }
}

} // verus!
