//! The API that constructs unspecialized IR programs.
//!
//! A [`ProgramBuilder`] collects constants, external functions and functions;
//! a [`FunctionBuilder`] collects the blocks of one function; a
//! [`BlockBuilder`] collects the instructions of one block and is closed by a
//! terminator, which turns it into a [`FinalizedBlockBuilder`].
//!
//! Builders are used sequentially: a function is finished before the next one
//! starts, and a block before the next one.  Identifiers are minted in
//! increasing order; function parameters occupy registers `0..P`.

use vstd::prelude::*;

use crate::id::{BlockId, ConstantId, ExternalFunctionId, FunctionId, RegisterId};
use crate::ir::{
    BasicBlockJump, Callable, Constant, ControlFlowInstruction, ExternalFunction, FFIReturnType,
    FFIValueType, Function, FunctionBlock, Instruction, IR,
};

verus! {

/// An external function id whose declared arity is carried in the type.
#[derive(Clone, Copy)]
pub struct ExtFnIdTyped<const PARAMETERS: usize>(pub ExternalFunctionId);

/// A finished function's id, with its arity carried in the type.
#[derive(Debug, Clone, Copy)]
pub struct FnSignature<const PARAMETERS: usize> {
    pub id: FunctionId,
}

/// A finished block's id, with its arity carried in the type.
#[derive(Debug, Clone, Copy)]
pub struct BlkSignature<const PARAMETERS: usize> {
    pub id: BlockId,
}

/// Collects the whole program.
pub struct ProgramBuilder {
    entrypoint: Option<FunctionId>,
    constants: Vec<Constant>,
    external_functions: Vec<ExternalFunction>,
    functions: Vec<(FunctionId, Function)>,
    next_function_id: usize,
    next_block_id: usize,
}

impl ProgramBuilder {
    /// The entrypoint declared so far, if any.
    pub closed spec fn spec_entrypoint(self) -> Option<FunctionId> {
        self.entrypoint
    }

    /// The constants declared so far.
    pub closed spec fn spec_constants(self) -> Seq<Constant> {
        self.constants@
    }

    /// The external functions declared so far.
    pub closed spec fn spec_external_functions(self) -> Seq<ExternalFunction> {
        self.external_functions@
    }

    /// The finished functions so far.
    pub closed spec fn spec_functions(self) -> Seq<(FunctionId, Function)> {
        self.functions@
    }

    /// The index the next function will receive.
    pub closed spec fn spec_next_function_id(self) -> nat {
        self.next_function_id as nat
    }

    pub fn new() -> (r: ProgramBuilder)
        ensures
            r.spec_entrypoint() is None,
            r.spec_constants().len() == 0,
            r.spec_external_functions().len() == 0,
            r.spec_functions().len() == 0,
    {
        ProgramBuilder {
            entrypoint: None,
            constants: Vec::new(),
            external_functions: Vec::new(),
            functions: Vec::new(),
            next_function_id: 0,
            next_block_id: 0,
        }
    }

    /// Seals the program.  An entrypoint function must have been declared
    /// with `start_function_main`.
    #[verifier::loop_isolation(false)]
    pub fn finish(self) -> (r: IR)
        requires
            self.spec_entrypoint() is Some,
        ensures
            r.entrypoint == self.spec_entrypoint()->Some_0,
            r.functions@ == self.spec_functions(),
            r.constants@.len() == self.spec_constants().len(),
            forall|i: int| #![trigger r.constants@[i]]
                0 <= i < r.constants@.len() ==> r.constants@[i].0.index == i
                    && r.constants@[i].1 == self.spec_constants()[i],
            r.external_functions@.len() == self.spec_external_functions().len(),
            forall|i: int| #![trigger r.external_functions@[i]]
                0 <= i < r.external_functions@.len() ==> r.external_functions@[i].0.index == i
                    && r.external_functions@[i].1 == self.spec_external_functions()[i],
    {
        let entrypoint = match self.entrypoint {
            Some(e) => e,
            None => vstd::pervasive::unreached(),
        };
        let mut constants: Vec<(ConstantId, Constant)> = Vec::new();
        let mut list = self.constants;
        let ghost orig = list@;
        proof {
            assert(orig.skip(0) =~= orig);
        }
        while list.len() > 0
            invariant
                constants@.len() + list@.len() == orig.len(),
                list@ == orig.skip(constants@.len() as int),
                forall|i: int| #![trigger constants@[i]]
                    0 <= i < constants@.len() ==> constants@[i].0.index == i && constants@[i].1
                        == orig[i],
            decreases list@.len(),
        {
            let ghost done = constants@.len() as int;
            let c = list.remove(0);
            proof {
                assert(c == orig[done]);
                assert(list@ =~= orig.skip(done + 1));
            }
            let id = ConstantId { index: constants.len() };
            let ghost old_c = constants@;
            let ghost new_entry = (id, c);
            constants.push((id, c));
            proof {
                assert(constants@ == old_c.push(new_entry));
            }
        }
        let mut external_functions: Vec<(ExternalFunctionId, ExternalFunction)> = Vec::new();
        let mut elist = self.external_functions;
        let ghost eorig = elist@;
        proof {
            assert(eorig.skip(0) =~= eorig);
        }
        while elist.len() > 0
            invariant
                external_functions@.len() + elist@.len() == eorig.len(),
                elist@ == eorig.skip(external_functions@.len() as int),
                forall|i: int| #![trigger external_functions@[i]]
                    0 <= i < external_functions@.len() ==> external_functions@[i].0.index == i
                        && external_functions@[i].1 == eorig[i],
            decreases elist@.len(),
        {
            let ghost done = external_functions@.len() as int;
            let e = elist.remove(0);
            proof {
                assert(e == eorig[done]);
                assert(elist@ =~= eorig.skip(done + 1));
            }
            let id = ExternalFunctionId { index: external_functions.len() };
            let ghost old_e = external_functions@;
            let ghost new_entry = (id, e);
            external_functions.push((id, e));
            proof {
                assert(external_functions@ == old_e.push(new_entry));
            }
        }
        IR { entrypoint, constants, external_functions, functions: self.functions }
    }

    /// Declares a byte-string constant and returns its id: constants are
    /// numbered in declaration order.
    pub fn constant(&mut self, name: &str, payload: Vec<u8>) -> (r: ConstantId)
        ensures
            r.index == old(self).spec_constants().len(),
            final(self).spec_constants().len() == old(self).spec_constants().len() + 1,
            final(self).spec_constants().last().payload@ == payload@,
            final(self).spec_constants().drop_last() == old(self).spec_constants(),
            final(self).spec_entrypoint() == old(self).spec_entrypoint(),
            final(self).spec_functions() == old(self).spec_functions(),
            final(self).spec_external_functions() == old(self).spec_external_functions(),
    {
        let id = ConstantId { index: self.constants.len() };
        self.constants.push(Constant { name: name.to_owned(), payload });
        id
    }

    /// Declares an external function with a fixed arity.
    pub fn external_function<const PARAMETERS: usize>(
        &mut self,
        name: &str,
        parameters: [FFIValueType; PARAMETERS],
        return_type: FFIReturnType,
    ) -> (r: ExtFnIdTyped<PARAMETERS>)
        ensures
            r.0.index == old(self).spec_external_functions().len(),
            final(self).spec_external_functions().len() == old(
                self,
            ).spec_external_functions().len() + 1,
            final(self).spec_external_functions().last().parameters@
                == vstd::array::array_view(parameters),
            final(self).spec_external_functions().last().return_type == return_type,
            final(self).spec_external_functions().drop_last() == old(
                self,
            ).spec_external_functions(),
            final(self).spec_entrypoint() == old(self).spec_entrypoint(),
            final(self).spec_functions() == old(self).spec_functions(),
            final(self).spec_constants() == old(self).spec_constants(),
    {
        let mut ps: Vec<FFIValueType> = Vec::new();
        let mut i: usize = 0;
        while i < PARAMETERS
            invariant
                0 <= i <= PARAMETERS,
                ps@ == vstd::array::array_view(parameters).take(i as int),
                *self == *old(self),
            decreases PARAMETERS - i,
        {
            ps.push(parameters[i]);
            proof {
                assert(ps@ =~= vstd::array::array_view(parameters).take(i + 1));
            }
            i = i + 1;
        }
        proof {
            assert(ps@ =~= vstd::array::array_view(parameters));
        }
        let id = self.external_function_dynargs(name, ps, return_type);
        ExtFnIdTyped(id)
    }

    /// Declares an external function whose arity is not carried in the type.
    pub fn external_function_dynargs(
        &mut self,
        name: &str,
        parameters: Vec<FFIValueType>,
        return_type: FFIReturnType,
    ) -> (r: ExternalFunctionId)
        ensures
            r.index == old(self).spec_external_functions().len(),
            final(self).spec_external_functions().len() == old(
                self,
            ).spec_external_functions().len() + 1,
            final(self).spec_external_functions().last().parameters@ == parameters@,
            final(self).spec_external_functions().last().return_type == return_type,
            final(self).spec_external_functions().drop_last() == old(
                self,
            ).spec_external_functions(),
            final(self).spec_entrypoint() == old(self).spec_entrypoint(),
            final(self).spec_functions() == old(self).spec_functions(),
            final(self).spec_constants() == old(self).spec_constants(),
    {
        let id = ExternalFunctionId { index: self.external_functions.len() };
        self.external_functions.push(
            ExternalFunction { name: name.to_owned(), parameters, return_type },
        );
        id
    }

    /// Starts the entrypoint function, a function of no parameters named
    /// `main`.  Only one entrypoint can be declared.
    pub fn start_function_main(&mut self) -> (r: FunctionBuilder<0>)
        requires
            old(self).spec_entrypoint() is None,
            old(self).spec_next_function_id() < usize::MAX,
        ensures
            final(self).spec_entrypoint() == Some(r.spec_id()),
            final(self).spec_functions() == old(self).spec_functions(),
    {
        let builder = self.start_function::<0>("main");
        self.entrypoint = Some(builder.id);
        builder
    }

    /// Starts a function of `PARAMETERS` parameters; the parameters occupy
    /// registers `0..PARAMETERS`, obtainable through
    /// [`FunctionBuilder::parameter`].
    pub fn start_function<const PARAMETERS: usize>(&mut self, name: &str) -> (r: FunctionBuilder<
        PARAMETERS,
    >)
        requires
            old(self).spec_next_function_id() < usize::MAX,
        ensures
            r.spec_id().index == old(self).spec_next_function_id(),
            r.spec_entry() is None,
            r.spec_blocks().len() == 0,
            final(self).spec_entrypoint() == old(self).spec_entrypoint(),
            final(self).spec_functions() == old(self).spec_functions(),
            final(self).spec_constants() == old(self).spec_constants(),
            final(self).spec_external_functions() == old(self).spec_external_functions(),
    {
        let id = FunctionId { index: self.next_function_id };
        self.next_function_id = self.next_function_id + 1;
        FunctionBuilder {
            id,
            name: name.to_owned(),
            next_block_id: self.next_block_id,
            next_register: PARAMETERS,
            entrypoint: None,
            blocks: Vec::new(),
        }
    }

    /// Seals a function and records it under its id.  The function must have
    /// an entry block, declared with `start_block_main`.
    pub fn end_function<const PARAMETERS: usize>(
        &mut self,
        builder: FunctionBuilder<PARAMETERS>,
    ) -> (r: FnSignature<PARAMETERS>)
        requires
            builder.spec_entry() is Some,
        ensures
            r.id == builder.spec_id(),
            final(self).spec_functions().len() == old(self).spec_functions().len() + 1,
            final(self).spec_functions().last().0 == builder.spec_id(),
            final(self).spec_functions().last().1.entry_block == builder.spec_entry()->Some_0,
            final(self).spec_functions().last().1.blocks@ == builder.spec_blocks(),
            final(self).spec_functions().drop_last() == old(self).spec_functions(),
            final(self).spec_entrypoint() == old(self).spec_entrypoint(),
            final(self).spec_constants() == old(self).spec_constants(),
            final(self).spec_external_functions() == old(self).spec_external_functions(),
    {
        let signature = FnSignature { id: builder.id };
        let entry_block = match builder.entrypoint {
            Some(e) => e,
            None => vstd::pervasive::unreached(),
        };
        self.next_block_id = builder.next_block_id;
        let function = Function { name: builder.name, entry_block, blocks: builder.blocks };
        self.functions.push((builder.id, function));
        signature
    }
}

/// Collects the blocks of one function.
pub struct FunctionBuilder<const PARAMETERS: usize> {
    pub id: FunctionId,
    name: String,
    next_block_id: usize,
    next_register: usize,
    entrypoint: Option<BlockId>,
    blocks: Vec<(BlockId, FunctionBlock)>,
}

impl<const P: usize> FunctionBuilder<P> {
    /// The function's id.
    pub closed spec fn spec_id(self) -> FunctionId {
        self.id
    }

    /// The entry block declared so far, if any.
    pub closed spec fn spec_entry(self) -> Option<BlockId> {
        self.entrypoint
    }

    /// The finished blocks so far.
    pub closed spec fn spec_blocks(self) -> Seq<(BlockId, FunctionBlock)> {
        self.blocks@
    }

    /// The register index the next mint will use.
    pub closed spec fn spec_next_register(self) -> nat {
        self.next_register as nat
    }

    /// The register holding the function parameter with the given index.
    pub fn parameter(&self, parameter: usize) -> (r: RegisterId)
        requires
            parameter < P,
        ensures
            r.index == parameter,
    {
        RegisterId { index: parameter }
    }

    /// The function's signature.
    pub fn signature(&self) -> (r: FnSignature<P>)
        ensures
            r.id == self.spec_id(),
    {
        FnSignature { id: self.id }
    }

    /// Starts the function's entry block.  The block receives the
    /// function's own parameters: registers `0..P`, in order.  Only one
    /// entry block can be declared.
    pub fn start_block_main(&mut self) -> (r: BlockBuilder<P>)
        requires
            old(self).spec_entry() is None,
        ensures
            final(self).spec_entry() == Some(r.spec_id()),
            final(self).spec_blocks() == old(self).spec_blocks(),
            r.spec_instructions().len() == 0,
            r.spec_parameters().len() == P,
            forall|i: int| #![trigger r.spec_parameters()[i]]
                0 <= i < P ==> r.spec_parameters()[i].index == i,
    {
        let id = BlockId { index: self.next_block_id };
        if self.next_block_id < usize::MAX {
            self.next_block_id = self.next_block_id + 1;
        }
        let mut parameters: Vec<RegisterId> = Vec::new();
        let mut i: usize = 0;
        while i < P
            invariant
                0 <= i <= P,
                parameters@.len() == i,
                forall|j: int| #![trigger parameters@[j]]
                    0 <= j < i ==> parameters@[j].index == j,
                self.spec_entry() == old(self).spec_entry(),
                self.spec_blocks() == old(self).spec_blocks(),
            decreases P - i,
        {
            parameters.push(RegisterId { index: i });
            i = i + 1;
        }
        let builder = BlockBuilder {
            id,
            next_register: self.next_register,
            parameters,
            instructions: Vec::new(),
        };
        self.entrypoint = Some(builder.id);
        builder
    }

    /// Starts a block of `PARAMETERS` parameters and returns the builder with
    /// the freshly minted parameter registers, in order.
    pub fn start_block<const PARAMETERS: usize>(&mut self) -> (r: (
        BlockBuilder<PARAMETERS>,
        Vec<RegisterId>,
    ))
        ensures
            r.0.spec_instructions().len() == 0,
            r.0.spec_parameters() == r.1@,
            r.1@.len() == PARAMETERS,
            final(self).spec_entry() == old(self).spec_entry(),
            final(self).spec_blocks() == old(self).spec_blocks(),
    {
        let id = BlockId { index: self.next_block_id };
        if self.next_block_id < usize::MAX {
            self.next_block_id = self.next_block_id + 1;
        }
        let mut parameters: Vec<RegisterId> = Vec::new();
        let mut i: usize = 0;
        while i < PARAMETERS
            invariant
                0 <= i <= PARAMETERS,
                parameters@.len() == i,
                self.spec_entry() == old(self).spec_entry(),
                self.spec_blocks() == old(self).spec_blocks(),
            decreases PARAMETERS - i,
        {
            let register = RegisterId { index: self.next_register };
            if self.next_register < usize::MAX {
                self.next_register = self.next_register + 1;
            }
            parameters.push(register);
            i = i + 1;
        }
        let params_copy = registers_copy(&parameters);
        let builder = BlockBuilder {
            id,
            next_register: self.next_register,
            parameters,
            instructions: Vec::new(),
        };
        (builder, params_copy)
    }

    /// Seals a finalized block and records it under its id.
    pub fn end_block<const PARAMETERS: usize>(
        &mut self,
        builder: FinalizedBlockBuilder<PARAMETERS>,
    ) -> (r: BlkSignature<PARAMETERS>)
        ensures
            r.id == builder.spec_builder().spec_id(),
            final(self).spec_blocks().len() == old(self).spec_blocks().len() + 1,
            final(self).spec_blocks().last().0 == builder.spec_builder().spec_id(),
            final(self).spec_blocks().last().1.parameters@
                == builder.spec_builder().spec_parameters(),
            final(self).spec_blocks().last().1.instructions@
                == builder.spec_builder().spec_instructions(),
            final(self).spec_blocks().last().1.end == builder.spec_end(),
            final(self).spec_blocks().drop_last() == old(self).spec_blocks(),
            final(self).spec_entry() == old(self).spec_entry(),
    {
        let signature = BlkSignature { id: builder.builder.id };
        self.next_register = builder.builder.next_register;
        let block = FunctionBlock {
            parameters: builder.builder.parameters,
            instructions: builder.builder.instructions,
            end: builder.end_control_flow,
        };
        self.blocks.push((signature.id, block));
        signature
    }
}

/// Collects the instructions of one block.
pub struct BlockBuilder<const PARAMETERS: usize> {
    pub id: BlockId,
    next_register: usize,
    parameters: Vec<RegisterId>,
    instructions: Vec<Instruction>,
}

impl<const P: usize> BlockBuilder<P> {
    /// The block's id.
    pub closed spec fn spec_id(self) -> BlockId {
        self.id
    }

    /// The instructions appended so far.
    pub closed spec fn spec_instructions(self) -> Seq<Instruction> {
        self.instructions@
    }

    /// The block's parameter registers.
    pub closed spec fn spec_parameters(self) -> Seq<RegisterId> {
        self.parameters@
    }

    /// The register index the next mint will use.
    pub closed spec fn spec_next_register(self) -> nat {
        self.next_register as nat
    }

    /// Mints the next register of the enclosing function.
    fn gen_register(&mut self) -> (r: RegisterId)
        requires
            old(self).spec_next_register() < usize::MAX,
        ensures
            r.index == old(self).spec_next_register(),
            final(self).spec_next_register() == old(self).spec_next_register() + 1,
            final(self).spec_instructions() == old(self).spec_instructions(),
            final(self).spec_parameters() == old(self).spec_parameters(),
            final(self).spec_id() == old(self).spec_id(),
    {
        let register = RegisterId { index: self.next_register };
        self.next_register = self.next_register + 1;
        register
    }

    /// Appends an instruction that obtains the runtime handle.
    pub fn get_runtime(&mut self) -> (r: RegisterId)
        requires
            old(self).spec_next_register() < usize::MAX,
        ensures
            r.index == old(self).spec_next_register(),
            final(self).spec_next_register() == old(self).spec_next_register() + 1,
            final(self).spec_instructions() == old(self).spec_instructions().push(
                Instruction::GetRuntime(r),
            ),
            final(self).spec_parameters() == old(self).spec_parameters(),
            final(self).spec_id() == old(self).spec_id(),
    {
        let register = self.gen_register();
        self.instructions.push(Instruction::GetRuntime(register));
        register
    }

    /// Appends an instruction that materializes a string constant.
    pub fn make_string(&mut self, constant_id: ConstantId) -> (r: RegisterId)
        requires
            old(self).spec_next_register() < usize::MAX,
        ensures
            r.index == old(self).spec_next_register(),
            final(self).spec_next_register() == old(self).spec_next_register() + 1,
            final(self).spec_instructions() == old(self).spec_instructions().push(
                Instruction::MakeString(r, constant_id),
            ),
            final(self).spec_parameters() == old(self).spec_parameters(),
            final(self).spec_id() == old(self).spec_id(),
    {
        let result = self.gen_register();
        self.instructions.push(Instruction::MakeString(result, constant_id));
        result
    }

    /// Appends an instruction that materializes an exact integer.
    pub fn make_integer(&mut self, value: i64) -> (r: RegisterId)
        requires
            old(self).spec_next_register() < usize::MAX,
        ensures
            r.index == old(self).spec_next_register(),
            final(self).spec_next_register() == old(self).spec_next_register() + 1,
            final(self).spec_instructions() == old(self).spec_instructions().push(
                Instruction::MakeInteger(r, value),
            ),
            final(self).spec_parameters() == old(self).spec_parameters(),
            final(self).spec_id() == old(self).spec_id(),
    {
        let result = self.gen_register();
        self.instructions.push(Instruction::MakeInteger(result, value));
        result
    }

    /// Appends an instruction that materializes an exact boolean.
    pub fn make_boolean(&mut self, value: bool) -> (r: RegisterId)
        requires
            old(self).spec_next_register() < usize::MAX,
        ensures
            r.index == old(self).spec_next_register(),
            final(self).spec_next_register() == old(self).spec_next_register() + 1,
            final(self).spec_instructions() == old(self).spec_instructions().push(
                Instruction::MakeBoolean(r, value),
            ),
            final(self).spec_parameters() == old(self).spec_parameters(),
            final(self).spec_id() == old(self).spec_id(),
    {
        let result = self.gen_register();
        self.instructions.push(Instruction::MakeBoolean(result, value));
        result
    }

    /// Appends an addition of two registers.
    pub fn add(&mut self, lhs: RegisterId, rhs: RegisterId) -> (r: RegisterId)
        requires
            old(self).spec_next_register() < usize::MAX,
        ensures
            r.index == old(self).spec_next_register(),
            final(self).spec_next_register() == old(self).spec_next_register() + 1,
            final(self).spec_instructions() == old(self).spec_instructions().push(
                Instruction::Add(r, lhs, rhs),
            ),
            final(self).spec_parameters() == old(self).spec_parameters(),
            final(self).spec_id() == old(self).spec_id(),
    {
        let result = self.gen_register();
        self.instructions.push(Instruction::Add(result, lhs, rhs));
        result
    }

    /// Appends a less-than comparison of two registers.
    pub fn compare_less_than(&mut self, lhs: RegisterId, rhs: RegisterId) -> (r: RegisterId)
        requires
            old(self).spec_next_register() < usize::MAX,
        ensures
            r.index == old(self).spec_next_register(),
            final(self).spec_next_register() == old(self).spec_next_register() + 1,
            final(self).spec_instructions() == old(self).spec_instructions().push(
                Instruction::CompareLessThan(r, lhs, rhs),
            ),
            final(self).spec_parameters() == old(self).spec_parameters(),
            final(self).spec_id() == old(self).spec_id(),
    {
        let result = self.gen_register();
        self.instructions.push(Instruction::CompareLessThan(result, lhs, rhs));
        result
    }

    /// Appends a call to a function whose arity the signature carries.
    pub fn call<const PARAMETERS: usize>(
        &mut self,
        function_signature: FnSignature<PARAMETERS>,
        values: [RegisterId; PARAMETERS],
    )
        ensures
            final(self).spec_instructions().len() == old(self).spec_instructions().len() + 1,
            final(self).spec_instructions().drop_last() == old(self).spec_instructions(),
            final(self).spec_instructions().last() matches Instruction::Call(res, c, args)
                && res is None && c == Callable::Static(function_signature.id) && args@
                == vstd::array::array_view(values),
            final(self).spec_parameters() == old(self).spec_parameters(),
            final(self).spec_next_register() == old(self).spec_next_register(),
            final(self).spec_id() == old(self).spec_id(),
    {
        let vs = array_to_vec(&values);
        self.call_dynargs(function_signature.id, vs);
    }

    /// Appends a call to a function, discarding any result.
    pub fn call_dynargs(&mut self, function_id: FunctionId, values: Vec<RegisterId>)
        ensures
            final(self).spec_instructions() == old(self).spec_instructions().push(
                Instruction::Call(None, Callable::Static(function_id), values),
            ),
            final(self).spec_parameters() == old(self).spec_parameters(),
            final(self).spec_next_register() == old(self).spec_next_register(),
            final(self).spec_id() == old(self).spec_id(),
    {
        self.instructions.push(Instruction::Call(None, Callable::Static(function_id), values));
    }

    /// Appends a call to a function and binds its result to a fresh register.
    pub fn call_with_result<const PARAMETERS: usize>(
        &mut self,
        function_signature: FnSignature<PARAMETERS>,
        values: [RegisterId; PARAMETERS],
    ) -> (r: RegisterId)
        requires
            old(self).spec_next_register() < usize::MAX,
        ensures
            r.index == old(self).spec_next_register(),
            final(self).spec_next_register() == old(self).spec_next_register() + 1,
            final(self).spec_instructions().len() == old(self).spec_instructions().len() + 1,
            final(self).spec_instructions().drop_last() == old(self).spec_instructions(),
            final(self).spec_instructions().last() matches Instruction::Call(res, c, args)
                && res == Some(r) && c == Callable::Static(function_signature.id) && args@
                == vstd::array::array_view(values),
            final(self).spec_parameters() == old(self).spec_parameters(),
            final(self).spec_id() == old(self).spec_id(),
    {
        let vs = array_to_vec(&values);
        self.call_dynargs_with_result(function_signature.id, vs)
    }

    /// Appends a call to a function, binding its result to a fresh register.
    pub fn call_dynargs_with_result(
        &mut self,
        function_id: FunctionId,
        values: Vec<RegisterId>,
    ) -> (r: RegisterId)
        requires
            old(self).spec_next_register() < usize::MAX,
        ensures
            r.index == old(self).spec_next_register(),
            final(self).spec_next_register() == old(self).spec_next_register() + 1,
            final(self).spec_instructions() == old(self).spec_instructions().push(
                Instruction::Call(Some(r), Callable::Static(function_id), values),
            ),
            final(self).spec_parameters() == old(self).spec_parameters(),
            final(self).spec_id() == old(self).spec_id(),
    {
        let result = self.gen_register();
        self.instructions.push(
            Instruction::Call(Some(result), Callable::Static(function_id), values),
        );
        result
    }

    /// Appends a call to an external function whose arity the id carries.
    pub fn call_external_function<const PARAMETERS: usize>(
        &mut self,
        external_function: ExtFnIdTyped<PARAMETERS>,
        values: [RegisterId; PARAMETERS],
    )
        ensures
            final(self).spec_instructions().len() == old(self).spec_instructions().len() + 1,
            final(self).spec_instructions().drop_last() == old(self).spec_instructions(),
            final(self).spec_instructions().last() matches Instruction::Call(res, c, args)
                && res is None && c == Callable::External(external_function.0) && args@
                == vstd::array::array_view(values),
            final(self).spec_parameters() == old(self).spec_parameters(),
            final(self).spec_next_register() == old(self).spec_next_register(),
            final(self).spec_id() == old(self).spec_id(),
    {
        let vs = array_to_vec(&values);
        self.call_external_function_dynargs(external_function.0, vs);
    }

    /// Appends a call to an external function, discarding any result.
    pub fn call_external_function_dynargs(
        &mut self,
        external_function: ExternalFunctionId,
        values: Vec<RegisterId>,
    )
        ensures
            final(self).spec_instructions() == old(self).spec_instructions().push(
                Instruction::Call(None, Callable::External(external_function), values),
            ),
            final(self).spec_parameters() == old(self).spec_parameters(),
            final(self).spec_next_register() == old(self).spec_next_register(),
            final(self).spec_id() == old(self).spec_id(),
    {
        self.instructions.push(
            Instruction::Call(None, Callable::External(external_function), values),
        );
    }

    /// Appends a call to an external function and binds its result to a fresh
    /// register.
    pub fn call_external_function_with_result<const PARAMETERS: usize>(
        &mut self,
        external_function: ExtFnIdTyped<PARAMETERS>,
        values: [RegisterId; PARAMETERS],
    ) -> (r: RegisterId)
        requires
            old(self).spec_next_register() < usize::MAX,
        ensures
            r.index == old(self).spec_next_register(),
            final(self).spec_next_register() == old(self).spec_next_register() + 1,
            final(self).spec_instructions().len() == old(self).spec_instructions().len() + 1,
            final(self).spec_instructions().drop_last() == old(self).spec_instructions(),
            final(self).spec_instructions().last() matches Instruction::Call(res, c, args)
                && res == Some(r) && c == Callable::External(external_function.0) && args@
                == vstd::array::array_view(values),
            final(self).spec_parameters() == old(self).spec_parameters(),
            final(self).spec_id() == old(self).spec_id(),
    {
        let vs = array_to_vec(&values);
        self.call_external_function_dynargs_with_result(external_function.0, vs)
    }

    /// Appends a call to an external function, binding its result to a fresh
    /// register.
    pub fn call_external_function_dynargs_with_result(
        &mut self,
        external_function: ExternalFunctionId,
        values: Vec<RegisterId>,
    ) -> (r: RegisterId)
        requires
            old(self).spec_next_register() < usize::MAX,
        ensures
            r.index == old(self).spec_next_register(),
            final(self).spec_next_register() == old(self).spec_next_register() + 1,
            final(self).spec_instructions() == old(self).spec_instructions().push(
                Instruction::Call(Some(r), Callable::External(external_function), values),
            ),
            final(self).spec_parameters() == old(self).spec_parameters(),
            final(self).spec_id() == old(self).spec_id(),
    {
        let result = self.gen_register();
        self.instructions.push(
            Instruction::Call(Some(result), Callable::External(external_function), values),
        );
        result
    }

    /// Closes the block with an unconditional jump.
    pub fn jmp<const PARAMETERS: usize>(
        self,
        block: BlkSignature<PARAMETERS>,
        values: [RegisterId; PARAMETERS],
    ) -> (r: FinalizedBlockBuilder<P>)
        ensures
            r.spec_builder() == self,
            r.spec_end() matches ControlFlowInstruction::Jmp(j) && j.0 == block.id && j.1@
                == vstd::array::array_view(values),
    {
        let vs = array_to_vec(&values);
        self.jmp_dynargs(block.id, vs)
    }

    /// Closes the block with an unconditional jump.
    pub fn jmp_dynargs(self, block: BlockId, values: Vec<RegisterId>) -> (r:
        FinalizedBlockBuilder<P>)
        ensures
            r.spec_builder() == self,
            r.spec_end() == ControlFlowInstruction::Jmp(BasicBlockJump(block, values)),
    {
        FinalizedBlockBuilder {
            builder: self,
            end_control_flow: ControlFlowInstruction::Jmp(BasicBlockJump(block, values)),
        }
    }

    /// Closes the block with a return, of a register or of nothing.
    pub fn ret(self, value: Option<RegisterId>) -> (r: FinalizedBlockBuilder<P>)
        ensures
            r.spec_builder() == self,
            r.spec_end() == ControlFlowInstruction::Ret(value),
    {
        FinalizedBlockBuilder { builder: self, end_control_flow: ControlFlowInstruction::Ret(value) }
    }

    /// Closes the block with a conditional jump.
    pub fn jmpif<const PARAMS_TRUE: usize, const PARAMS_FALSE: usize>(
        self,
        condition: RegisterId,
        block_true: BlkSignature<PARAMS_TRUE>,
        values_true: [RegisterId; PARAMS_TRUE],
        block_false: BlkSignature<PARAMS_FALSE>,
        values_false: [RegisterId; PARAMS_FALSE],
    ) -> (r: FinalizedBlockBuilder<P>)
        ensures
            r.spec_builder() == self,
            r.spec_end() matches ControlFlowInstruction::JmpIf {
                condition: c,
                true_path,
                false_path,
            } && c == condition && true_path.0 == block_true.id && true_path.1@
                == vstd::array::array_view(values_true) && false_path.0 == block_false.id
                && false_path.1@ == vstd::array::array_view(values_false),
    {
        let vs_true = array_to_vec(&values_true);
        let vs_false = array_to_vec(&values_false);
        self.jmpif_dynargs(condition, block_true.id, vs_true, block_false.id, vs_false)
    }

    /// Closes the block with a conditional jump.
    pub fn jmpif_dynargs(
        self,
        condition: RegisterId,
        block_true: BlockId,
        values_true: Vec<RegisterId>,
        block_false: BlockId,
        values_false: Vec<RegisterId>,
    ) -> (r: FinalizedBlockBuilder<P>)
        ensures
            r.spec_builder() == self,
            r.spec_end() == (ControlFlowInstruction::JmpIf {
                condition,
                true_path: BasicBlockJump(block_true, values_true),
                false_path: BasicBlockJump(block_false, values_false),
            }),
    {
        FinalizedBlockBuilder {
            builder: self,
            end_control_flow: ControlFlowInstruction::JmpIf {
                condition,
                true_path: BasicBlockJump(block_true, values_true),
                false_path: BasicBlockJump(block_false, values_false),
            },
        }
    }

    /// The block's signature.
    pub fn signature(&self) -> (r: BlkSignature<P>)
        ensures
            r.id == self.spec_id(),
    {
        BlkSignature { id: self.id }
    }
}

/// A block closed by its terminator, waiting to be recorded by
/// [`FunctionBuilder::end_block`].
pub struct FinalizedBlockBuilder<const PARAMETERS: usize> {
    builder: BlockBuilder<PARAMETERS>,
    end_control_flow: ControlFlowInstruction,
}

impl<const P: usize> FinalizedBlockBuilder<P> {
    /// The block this terminator closes.
    pub closed spec fn spec_builder(self) -> BlockBuilder<P> {
        self.builder
    }

    /// The terminator the block was closed with.
    pub closed spec fn spec_end(self) -> ControlFlowInstruction {
        self.end_control_flow
    }
}

/// A copy of a vector of registers, in order.
fn registers_copy(values: &Vec<RegisterId>) -> (r: Vec<RegisterId>)
    ensures
        r@ == values@,
{
    let mut r: Vec<RegisterId> = Vec::new();
    let mut i: usize = 0;
    let n = values.len();
    while i < n
        invariant
            0 <= i <= n,
            n == values@.len(),
            r@ == values@.take(i as int),
        decreases n - i,
    {
        r.push(values[i]);
        proof {
            assert(r@ =~= values@.take(i + 1));
        }
        i = i + 1;
    }
    proof {
        assert(r@ =~= values@);
    }
    r
}

/// A copy of an array of registers, in order.
fn array_to_vec<const N: usize>(values: &[RegisterId; N]) -> (r: Vec<RegisterId>)
    ensures
        r@ == vstd::array::array_view(*values),
{
    let mut r: Vec<RegisterId> = Vec::new();
    let mut i: usize = 0;
    while i < N
        invariant
            0 <= i <= N,
            r@ == vstd::array::array_view(*values).take(i as int),
        decreases N - i,
    {
        r.push(values[i]);
        proof {
            assert(r@ =~= vstd::array::array_view(*values).take(i + 1));
        }
        i = i + 1;
    }
    proof {
        assert(r@ =~= vstd::array::array_view(*values));
    }
    r
}

} // verus!
