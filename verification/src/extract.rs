//! Extraction: the one-shot pass that materializes specialized blocks.
//!
//! It runs once, after the whole graph is resolved, and converts the memo
//! into a table of specialized (annotated) blocks for the assembler.  For
//! every `(block, argument types)` visit recorded by a finished call it mints
//! one fresh specialized-block id and records the originating block, the
//! per-register type map of that visit, and the aggregate return type of the
//! visiting call; when several calls visited the same pair, the types
//! recorded by the latest call stand, under the id minted first.  No
//! instruction is rewritten: specialization only attaches type information
//! to an otherwise unmodified block body.

use vstd::prelude::*;

use crate::assoc::assoc_find;
use crate::engine::{EngineError, SymbolicEngine};
use crate::id::{BlockId, RegisterId};
use crate::ir::{FunctionBlock, Function, IR};
use crate::lattice::{ReturnType, ValueType};
use crate::memo::{find_eval, lemma_find_eval_found, value_types_eq, BlockExecution, ExplorationBranch, RegisterMap, TypedBlocks, TypedFunction};

verus! {

/// The argument-type tuple one specialized block was minted for.
#[derive(Debug, Clone, PartialEq)]
pub struct BlockInvocationArgs(pub Vec<ValueType>);

/// What was inferred for one specialized block: its argument types and its
/// per-register type map.
#[derive(Debug, Clone, PartialEq)]
pub struct AnnotatedBlockInformation {
    pub args: Vec<ValueType>,
    pub registers: RegisterMap,
}

/// One specialized block handed to the assembler: the unmodified originating
/// block, the argument types it was specialized for, and its register types.
pub struct AnnotatedBlock<'block> {
    pub block: &'block FunctionBlock,
    pub args: &'block Vec<ValueType>,
    pub registers: &'block RegisterMap,
}

/// The blocks of every function of the program, in program order.
pub open spec fn flat_blocks(fns: Seq<(crate::id::FunctionId, Function)>) -> Seq<
    (BlockId, FunctionBlock),
>
    decreases fns.len(),
{
    if fns.len() == 0 {
        Seq::empty()
    } else {
        fns[0].1.blocks@ + flat_blocks(fns.drop_first())
    }
}

/// Splitting off the first function splits its blocks off the front.
proof fn lemma_flat_blocks_step(fns: Seq<(crate::id::FunctionId, Function)>)
    requires
        fns.len() > 0,
    ensures
        flat_blocks(fns) == fns[0].1.blocks@ + flat_blocks(fns.drop_first()),
{
}

/// The lookup rows of an invocation table, by key identity.
pub open spec fn inv_entries(
    m: Seq<((BlockId, BlockInvocationArgs), BlockId)>,
) -> Seq<((BlockId, Seq<ValueType>), BlockId)> {
    m.map_values(|e: ((BlockId, BlockInvocationArgs), BlockId)| ((e.0.0, e.0.1.0@), e.1))
}

/// The `(block, argument types)` identity of one visit row.
pub open spec fn row_key(
    rows: Seq<(BlockId, Vec<ValueType>, ExplorationBranch, RegisterMap)>,
    j: int,
) -> (BlockId, Seq<ValueType>) {
    (rows[j].0, rows[j].1@)
}

/// Every visit of the typed function has a specialized id in the table.
pub open spec fn rows_covered(
    inv: Seq<((BlockId, Seq<ValueType>), BlockId)>,
    tf: TypedFunction,
) -> bool {
    forall|j: int|
        0 <= j < tf.eval_blocks@.len() ==> assoc_find(
            inv,
            #[trigger] row_key(tf.eval_blocks@, j),
        ) is Some
}

/// One memo entry is fully materialized: it is finished, its call's typed
/// function is on record, and every visit of that call carries a
/// specialized id.
pub open spec fn entry_covered(
    e: ((BlockId, Seq<ValueType>), BlockExecution),
    typed: TypedBlocks,
    inv: Seq<((BlockId, Seq<ValueType>), BlockId)>,
) -> bool {
    &&& e.1 is Finished
    &&& typed.spec_get(e.1.spec_key()) is Some
    &&& rows_covered(inv, typed.spec_get(e.1.spec_key())->Some_0)
}

/// Appending a lookup row disturbs no covered entry.
proof fn lemma_entries_stay_covered(
    entries0: Seq<((BlockId, Seq<ValueType>), BlockExecution)>,
    typed: TypedBlocks,
    inv: Seq<((BlockId, Seq<ValueType>), BlockId)>,
    x: ((BlockId, Seq<ValueType>), BlockId),
    lo: int,
)
    requires
        forall|i: int|
            lo <= i < entries0.len() ==> entry_covered(#[trigger] entries0[i], typed, inv),
    ensures
        forall|i: int|
            lo <= i < entries0.len() ==> entry_covered(#[trigger] entries0[i], typed, inv.push(x)),
{
    assert forall|i: int| lo <= i < entries0.len() implies entry_covered(
        #[trigger] entries0[i],
        typed,
        inv.push(x),
    ) by {
        let tf = typed.spec_get(entries0[i].1.spec_key())->Some_0;
        assert(rows_covered(inv, tf));
        assert forall|j: int| 0 <= j < tf.eval_blocks@.len() implies assoc_find(
            inv.push(x),
            #[trigger] row_key(tf.eval_blocks@, j),
        ) is Some by {
            crate::assoc::lemma_assoc_find_append_preserves(inv, x, row_key(tf.eval_blocks@, j));
        }
    }
}

/// The aggregate-return lookup is exactly the lookup in the return rows.
pub proof fn lemma_return_type_rows(p: PureAnnotatedBlocks, id: BlockId)
    ensures
        p.spec_return_type(id) == assoc_find(p.return_rows(), id),
{
}

/// The id lookup is exactly the lookup in the id rows.
pub proof fn lemma_id_entry_rows(p: PureAnnotatedBlocks, id: BlockId)
    ensures
        p.spec_id_entry(id) == assoc_find(p.id_rows(), id),
{
}

/// The content recorded under one invocation row: some finished call
/// visited the row's `(block, argument types)` pair, and the return-type
/// table answers the row's specialized id with that call's return type.
pub open spec fn inv_content_ok(
    entries0: Seq<((BlockId, Seq<ValueType>), BlockExecution)>,
    typed: TypedBlocks,
    row: ((BlockId, Seq<ValueType>), BlockId),
    rts: Seq<(BlockId, ReturnType)>,
    ids: Seq<(BlockId, (BlockId, usize))>,
    invs: Seq<AnnotatedBlockInformation>,
) -> bool {
    exists|i: int, j: int|
        #![trigger row_key(typed.spec_get(entries0[i].1.spec_key())->Some_0.eval_blocks@, j)]
        {
            let tf = typed.spec_get(entries0[i].1.spec_key())->Some_0;
            &&& 0 <= i < entries0.len()
            &&& entries0[i].1 is Finished
            &&& typed.spec_get(entries0[i].1.spec_key()) is Some
            &&& 0 <= j < tf.eval_blocks@.len()
            &&& row_key(tf.eval_blocks@, j) == row.0
            &&& assoc_find(rts, row.1) == Some(tf.return_type)
            &&& assoc_find(ids, row.1) matches Some(tag) && tag.0 == row.0.0 && tag.1
                < invs.len() && invs[tag.1 as int].args@ == row.0.1 && (forall|reg: RegisterId|
                #[trigger] invs[tag.1 as int].registers.spec_get(reg)
                    == tf.eval_blocks@[j].3.spec_get(reg))
        }
}


/// The specialized-block table the assembler consumes.
pub struct PureAnnotatedBlocks {
    /// Every block of the program, unmodified.
    pub blocks: Vec<(BlockId, FunctionBlock)>,
    invocations: Vec<AnnotatedBlockInformation>,
    id_map: Vec<(BlockId, (BlockId, usize))>,
    invocation_map: Vec<((BlockId, BlockInvocationArgs), BlockId)>,
    return_types: Vec<(BlockId, ReturnType)>,
}

impl PureAnnotatedBlocks {
    /// The block table, as a sequence of `(block id, block)` pairs.
    pub closed spec fn spec_blocks(self) -> Seq<(BlockId, FunctionBlock)> {
        self.blocks@
    }

    /// The `(originating block, invocation index)` tag minted under a
    /// specialized id.
    pub closed spec fn spec_id_entry(self, id: BlockId) -> Option<(BlockId, usize)> {
        assoc_find(self.id_map@, id)
    }

    /// The lookup rows from `(original block, argument types)` to the
    /// specialized id.
    pub closed spec fn invocation_entries(self) -> Seq<((BlockId, Seq<ValueType>), BlockId)> {
        inv_entries(self.invocation_map@)
    }

    /// The specialized id minted for `(block, args)`, if that pair was ever
    /// visited.
    pub closed spec fn spec_invocation_id(self, block: BlockId, args: Seq<ValueType>) -> Option<
        BlockId,
    > {
        assoc_find(self.invocation_entries(), (block, args))
    }

    /// The aggregate return type recorded under a specialized id.
    pub closed spec fn spec_return_type(self, id: BlockId) -> Option<ReturnType> {
        assoc_find(self.return_types@, id)
    }

    /// The return-type table as `(specialized id, return type)` rows.
    pub closed spec fn return_rows(self) -> Seq<(BlockId, ReturnType)> {
        self.return_types@
    }

    /// The id table as `(specialized id, (original block, invocation index))`
    /// rows.
    pub closed spec fn id_rows(self) -> Seq<(BlockId, (BlockId, usize))> {
        self.id_map@
    }

    /// The invocation table: the argument types and register types recorded
    /// under each invocation index.
    pub closed spec fn invocation_rows(self) -> Seq<AnnotatedBlockInformation> {
        self.invocations@
    }

    /// The inferred information at an invocation index.
    pub open spec fn spec_invocation(self, idx: int) -> AnnotatedBlockInformation {
        self.invocation_rows()[idx]
    }

    /// How many specialized blocks were minted.
    pub closed spec fn spec_len(self) -> nat {
        self.id_map@.len()
    }

    /// Specialized ids are dense indices; every tag points into the
    /// invocation table; the return-type table runs parallel to the id
    /// table; and every id the invocation lookup hands out is minted.
    pub closed spec fn wf(self) -> bool {
        &&& self.invocations@.len() == self.id_map@.len()
        &&& self.return_types@.len() == self.id_map@.len()
        &&& forall|j: int|
            0 <= j < self.id_map@.len() ==> (#[trigger] self.id_map@[j]).0.index == j
                && self.id_map@[j].1.1 < self.invocations@.len()
        &&& forall|j: int|
            0 <= j < self.return_types@.len() ==> (#[trigger] self.return_types@[j]).0.index == j
        &&& forall|j: int|
            0 <= j < self.invocation_map@.len() ==> (#[trigger] self.invocation_map@[j]).1.index
                < self.id_map@.len()
    }

    /// The specialized id minted for `(block_id, invocation_args)`, if the
    /// pair was visited.
    pub fn get_block_id(&self, block_id: BlockId, invocation_args: &Vec<ValueType>) -> (r: Option<
        BlockId,
    >)
        ensures
            r == self.spec_invocation_id(block_id, invocation_args@),
    {
        let n = self.invocation_map.len();
        let mut i: usize = 0;
        proof {
            assert(self.invocation_entries().skip(0) =~= self.invocation_entries());
        }
        while i < n
            invariant
                0 <= i <= n,
                n == self.invocation_map@.len(),
                self.invocation_entries().len() == n,
                assoc_find(self.invocation_entries(), (block_id, invocation_args@)) == assoc_find(
                    self.invocation_entries().skip(i as int),
                    (block_id, invocation_args@),
                ),
            decreases n - i,
        {
            proof {
                assert(self.invocation_entries().skip(i as int).drop_first()
                    =~= self.invocation_entries().skip(i + 1));
                assert(self.invocation_entries().skip(i as int)[0]
                    == self.invocation_entries()[i as int]);
            }
            if self.invocation_map[i].0.0 == block_id && value_types_eq(
                &self.invocation_map[i].0.1.0,
                invocation_args,
            ) {
                return Some(self.invocation_map[i].1);
            }
            i = i + 1;
        }
        None
    }

    /// The specialized block under an id: the originating block body, the
    /// argument types and the register types it was minted with.
    pub fn get_block(&self, block_id: BlockId) -> (r: Option<AnnotatedBlock>)
        ensures
            match self.spec_id_entry(block_id) {
                Some(tag) => if assoc_find(self.spec_blocks(), tag.0) is Some && tag.1
                    < self.spec_invocation_len() {
                    r matches Some(ab) && Some(*ab.block) == assoc_find(
                        self.spec_blocks(),
                        tag.0,
                    )
                        && *ab.args == self.spec_invocation(tag.1 as int).args && *ab.registers
                        == self.spec_invocation(tag.1 as int).registers
                } else {
                    r is None
                },
                None => r is None,
            },
    {
        let n = self.id_map.len();
        let mut i: usize = 0;
        proof {
            assert(self.id_map@.skip(0) =~= self.id_map@);
        }
        while i < n
            invariant
                0 <= i <= n,
                n == self.id_map@.len(),
                assoc_find(self.id_map@, block_id) == assoc_find(
                    self.id_map@.skip(i as int),
                    block_id,
                ),
            decreases n - i,
        {
            proof {
                assert(self.id_map@.skip(i as int).drop_first() =~= self.id_map@.skip(i + 1));
            }
            if self.id_map[i].0 == block_id {
                let tag = self.id_map[i].1;
                if tag.1 >= self.invocations.len() {
                    return None;
                }
                let block = match find_block(&self.blocks, tag.0) {
                    Some(b) => b,
                    None => {
                        return None;
                    },
                };
                let info = &self.invocations[tag.1];
                return Some(
                    AnnotatedBlock { block, args: &info.args, registers: &info.registers },
                );
            }
            i = i + 1;
        }
        None
    }

    /// How many invocations are on record.
    pub closed spec fn spec_invocation_len(self) -> nat {
        self.invocations@.len()
    }

    /// The aggregate return type of the call that visited this specialized
    /// block.
    pub fn get_return_type(&self, block_id: BlockId) -> (r: Option<&ReturnType>)
        ensures
            match r {
                Some(rt) => self.spec_return_type(block_id) == Some(*rt),
                None => self.spec_return_type(block_id) is None,
            },
    {
        let n = self.return_types.len();
        let mut i: usize = 0;
        proof {
            assert(self.return_types@.skip(0) =~= self.return_types@);
        }
        while i < n
            invariant
                0 <= i <= n,
                n == self.return_types@.len(),
                assoc_find(self.return_types@, block_id) == assoc_find(
                    self.return_types@.skip(i as int),
                    block_id,
                ),
            decreases n - i,
        {
            proof {
                assert(self.return_types@.skip(i as int).drop_first() =~= self.return_types@.skip(
                    i + 1,
                ));
            }
            if self.return_types[i].0 == block_id {
                return Some(&self.return_types[i].1);
            }
            i = i + 1;
        }
        None
    }
}

/// First block of the table with the given id, if any.
fn find_block(blocks: &Vec<(BlockId, FunctionBlock)>, id: BlockId) -> (r: Option<&FunctionBlock>)
    ensures
        match r {
            Some(b) => assoc_find(blocks@, id) == Some(*b),
            None => assoc_find(blocks@, id) is None,
        },
{
    let n = blocks.len();
    let mut i: usize = 0;
    proof {
        assert(blocks@.skip(0) =~= blocks@);
    }
    while i < n
        invariant
            0 <= i <= n,
            n == blocks@.len(),
            assoc_find(blocks@, id) == assoc_find(blocks@.skip(i as int), id),
        decreases n - i,
    {
        proof {
            assert(blocks@.skip(i as int).drop_first() =~= blocks@.skip(i + 1));
        }
        if blocks[i].0 == id {
            return Some(&blocks[i].1);
        }
        i = i + 1;
    }
    None
}

impl SymbolicEngine {
    /// Converts the resolved memo into the specialized-block table, consuming
    /// the engine and the program.
    ///
    /// A resolved engine (`wf()`) always drains successfully.  On success
    /// every memo entry is finished, every visit its call recorded has a
    /// specialized id, and the return-type table answers each minted id with
    /// the return type of a call that visited the id's pair.  The drain
    /// fails loudly — naming an in-progress key's class or the missing
    /// typed function — rather than silently discarding state.
    #[verifier::loop_isolation(false)]
    #[verifier::rlimit(100)]
    pub fn extract(self, ir: IR) -> (r: Result<PureAnnotatedBlocks, EngineError>)
        ensures
            r matches Ok(p) ==> {
                &&& p.wf()
                &&& p.spec_blocks() == flat_blocks(ir.functions@)
                &&& forall|i: int|
                    0 <= i < self.executions.entries().len() ==> entry_covered(
                        #[trigger] self.executions.entries()[i],
                        self.typed_blocks,
                        p.invocation_entries(),
                    )
                &&& forall|m: int|
                    0 <= m < p.invocation_entries().len() ==> inv_content_ok(
                        self.executions.entries(),
                        self.typed_blocks,
                        #[trigger] p.invocation_entries()[m],
                        p.return_rows(),
                        p.id_rows(),
                        p.invocation_rows(),
                    )
            },
            self.wf() ==> r is Ok,
            match r {
                Ok(p) => true,
                Err(e) => match e {
                    EngineError::ExplorationInFlight => exists|i: int|
                        0 <= i < self.executions.entries().len() && (
                        #[trigger] self.executions.entries()[i]).1 is InProgress,
                    EngineError::MissingTypedFunction(bk) => exists|i: int|
                        0 <= i < self.executions.entries().len() && (
                        #[trigger] self.executions.entries()[i]).1 == BlockExecution::Finished(
                            bk,
                        ) && self.typed_blocks.spec_get(bk) is None,
                    _ => false,
                },
            },
    {
        let ghost self0 = self;
        let mut blocks: Vec<(BlockId, FunctionBlock)> = Vec::new();
        let mut fns = ir.functions;
        let ghost forig = fns@;
        proof {
            assert(forig.skip(0) =~= forig);
        }
        let ghost mut fdone: int = 0;
        while fns.len() > 0
            invariant
                0 <= fdone,
                fdone + fns@.len() == forig.len(),
                fns@ == forig.skip(fdone),
                blocks@ + flat_blocks(fns@) == flat_blocks(forig),
            decreases fns@.len(),
        {
            let f = fns.remove(0);
            let ghost pre_blocks = blocks@;
            let ghost pre_fns = forig.skip(fdone);
            let mut bl = f.1.blocks;
            blocks.append(&mut bl);
            proof {
                fdone = fdone + 1;
                assert(fns@ =~= forig.skip(fdone));
                lemma_flat_blocks_step(pre_fns);
                assert(blocks@ + flat_blocks(fns@) =~= pre_blocks + flat_blocks(pre_fns));
            }
        }
        proof {
            assert(flat_blocks(fns@) =~= Seq::<(BlockId, FunctionBlock)>::empty());
            assert(blocks@ =~= blocks@ + flat_blocks(fns@));
        }

        let mut invocations: Vec<AnnotatedBlockInformation> = Vec::new();
        let mut id_map: Vec<(BlockId, (BlockId, usize))> = Vec::new();
        let mut invocation_map: Vec<((BlockId, BlockInvocationArgs), BlockId)> = Vec::new();
        let mut return_types: Vec<(BlockId, ReturnType)> = Vec::new();

        let ghost entries0 = self.executions.entries();
        proof {
            assert(entries0 == self0.executions.entries());
        }
        let typed_blocks = self.typed_blocks;
        proof {
            assert(typed_blocks == self0.typed_blocks);
        }
        let mut rows = self.executions.into_all_fn_invocations();
        let ghost rows0 = rows@;
        proof {
            assert(rows@ =~= rows0.take(rows@.len() as int));
        }
        while rows.len() > 0
            invariant
                rows@.len() <= rows0.len(),
                rows@ == rows0.take(rows@.len() as int),
                invocations@.len() == id_map@.len(),
                return_types@.len() == id_map@.len(),
                forall|j: int|
                    0 <= j < id_map@.len() ==> (#[trigger] id_map@[j]).0.index == j
                        && id_map@[j].1.1 == j,
                forall|j: int|
                    0 <= j < return_types@.len() ==> (#[trigger] return_types@[j]).0.index == j,
                forall|j: int|
                    0 <= j < invocation_map@.len() ==> (#[trigger] invocation_map@[j]).1.index
                        < id_map@.len(),
                forall|m1: int, m2: int|
                    0 <= m1 < m2 < invocation_map@.len() ==> (
                    #[trigger] invocation_map@[m1]).1 != (#[trigger] invocation_map@[m2]).1,
                forall|i: int|
                    rows@.len() <= i < entries0.len() ==> entry_covered(
                        #[trigger] entries0[i],
                        typed_blocks,
                        inv_entries(invocation_map@),
                    ),
                forall|m: int|
                    0 <= m < inv_entries(invocation_map@).len() ==> inv_content_ok(
                        entries0,
                        typed_blocks,
                        #[trigger] inv_entries(invocation_map@)[m],
                        return_types@,
                        id_map@,
                        invocations@,
                    ),
            decreases rows@.len(),
        {
            let ghost idx = rows@.len() - 1;
            let ghost rows_pre = rows@;
            let row = match rows.pop() {
                Some(x) => x,
                None => vstd::pervasive::unreached(),
            };
            proof {
                assert(rows_pre =~= rows0.take(idx + 1));
                assert(rows_pre[idx] == rows0[idx]);
                assert(row == rows_pre[idx]);
                assert(rows@ =~= rows_pre.drop_last());
                assert(rows_pre.drop_last() =~= rows0.take(idx));
                assert((row.0, row.1@) == entries0[idx].0 && row.2 == entries0[idx].1);
            }
            let evaluation = row.2;
            let bk = match evaluation {
                BlockExecution::InProgress(_) => {
                    proof {
                        assert(self0.executions.entries()[idx].1 is InProgress);
                        if self0.wf() {
                            assert(0 <= idx < entries0.len());
                            assert(self0.executions.keys_distinct());
                            assert forall|a: int, b: int|
                                0 <= a < b < entries0.len() implies (#[trigger] entries0[a]).0
                                != (#[trigger] entries0[b]).0 by {
                                assert(self0.executions.entries()[a] == entries0[a]);
                                assert(self0.executions.entries()[b] == entries0[b]);
                            }
                            crate::assoc::lemma_assoc_distinct_index(entries0, idx);
                            assert(assoc_find(entries0, entries0[idx].0) == Some(
                                entries0[idx].1,
                            ));
                            assert(self0.executions.spec_get(entries0[idx].0) == Some(
                                entries0[idx].1,
                            ));
                            assert(false);
                        }
                    }
                    return Err(EngineError::ExplorationInFlight);
                },
                BlockExecution::Finished(bk) => bk,
            };
            let typed_fn = match typed_blocks.get(bk) {
                Some(tf) => tf,
                None => {
                    proof {
                        assert(self0.executions.entries()[idx].1 == BlockExecution::Finished(
                            bk,
                        ));
                        if self0.wf() {
                            assert(0 <= idx < entries0.len());
                            assert(self0.executions.keys_distinct());
                            assert forall|a: int, b: int|
                                0 <= a < b < entries0.len() implies (#[trigger] entries0[a]).0
                                != (#[trigger] entries0[b]).0 by {
                                assert(self0.executions.entries()[a] == entries0[a]);
                                assert(self0.executions.entries()[b] == entries0[b]);
                            }
                            crate::assoc::lemma_assoc_distinct_index(entries0, idx);
                            assert(assoc_find(entries0, entries0[idx].0) == Some(
                                entries0[idx].1,
                            ));
                            assert(self0.executions.spec_get(entries0[idx].0) == Some(
                                entries0[idx].1,
                            ));
                            assert(false);
                        }
                    }
                    return Err(EngineError::MissingTypedFunction(bk));
                },
            };
            let m = typed_fn.eval_blocks.len();
            let mut j: usize = 0;
            while j < m
                invariant
                    0 <= j <= m,
                    invocations@.len() == id_map@.len(),
                    return_types@.len() == id_map@.len(),
                    forall|j2: int|
                        0 <= j2 < id_map@.len() ==> (#[trigger] id_map@[j2]).0.index == j2
                            && id_map@[j2].1.1 == j2,
                    forall|j2: int|
                        0 <= j2 < return_types@.len() ==> (#[trigger] return_types@[j2]).0.index
                            == j2,
                    forall|j2: int|
                        0 <= j2 < invocation_map@.len() ==> (
                        #[trigger] invocation_map@[j2]).1.index < id_map@.len(),
                    forall|m1: int, m2: int|
                        0 <= m1 < m2 < invocation_map@.len() ==> (
                        #[trigger] invocation_map@[m1]).1 != (#[trigger] invocation_map@[m2]).1,
                    forall|i: int|
                        idx < i < entries0.len() ==> entry_covered(
                            #[trigger] entries0[i],
                            typed_blocks,
                            inv_entries(invocation_map@),
                        ),
                    forall|jj: int|
                        0 <= jj < j ==> assoc_find(
                            inv_entries(invocation_map@),
                            #[trigger] row_key(typed_fn.eval_blocks@, jj),
                        ) is Some,
                    forall|m2: int|
                        0 <= m2 < inv_entries(invocation_map@).len() ==> inv_content_ok(
                            entries0,
                            typed_blocks,
                            #[trigger] inv_entries(invocation_map@)[m2],
                            return_types@,
                            id_map@,
                            invocations@,
                        ),
                decreases m - j,
            {
                let visit_block = typed_fn.eval_blocks[j].0;
                let visit_args = &typed_fn.eval_blocks[j].1;
                let visit_registers = &typed_fn.eval_blocks[j].3;
                proof {
                    lemma_find_eval_found(typed_fn.eval_blocks@, j as int);
                    assert(row_key(typed_fn.eval_blocks@, j as int) == (visit_block,
                    visit_args@));
                }
                let info = AnnotatedBlockInformation {
                    args: copy_args(visit_args),
                    registers: visit_registers.duplicate(),
                };
                let existing = lookup_invocation(&invocation_map, visit_block, visit_args);
                match existing {
                    Some(id) => {
                        // A later call visited the same pair: its types
                        // stand, under the id minted first.
                        proof {
                            crate::assoc::lemma_assoc_find_index(
                                inv_entries(invocation_map@),
                                (visit_block, visit_args@),
                            );
                        }
                        if id.index < id_map.len() {
                            let tag = id_map[id.index].1;
                            let ghost invs_pre = invocations@;
                            if tag.1 < invocations.len() {
                                let slot = vstd::std_specs::vec::vec_index_mut(
                                    &mut invocations,
                                    tag.1,
                                );
                                *slot = info;
                            }
                            let ghost rts_pre = return_types@;
                            let rslot = vstd::std_specs::vec::vec_index_mut(
                                &mut return_types,
                                id.index,
                            );
                            rslot.1 = typed_fn.return_type;
                            proof {
                                assert(return_types@ =~= rts_pre.update(
                                    id.index as int,
                                    (id, typed_fn.return_type),
                                )) by {
                                    assert(rts_pre[id.index as int].0.index == id.index);
                                    assert(rts_pre[id.index as int].0 == id);
                                }
                                assert forall|k2: BlockId| true implies assoc_find(
                                    return_types@,
                                    k2,
                                ) == (if k2 == id {
                                    Some(typed_fn.return_type)
                                } else {
                                    assoc_find(rts_pre, k2)
                                }) by {
                                    assert forall|j2: int|
                                        0 <= j2 < id.index implies rts_pre[j2].0 != id by {
                                        assert(rts_pre[j2].0.index == j2);
                                    }
                                    crate::assoc::lemma_assoc_find_update(
                                        rts_pre,
                                        id.index as int,
                                        id,
                                        typed_fn.return_type,
                                        k2,
                                    );
                                }
                                assert(invocations@ =~= invs_pre.update(
                                    id.index as int,
                                    invocations@[id.index as int],
                                ));
                                assert(id_map@[id.index as int].0 == id);
                                assert forall|a2: int, b2: int|
                                    0 <= a2 < b2 < id_map@.len() implies (
                                #[trigger] id_map@[a2]).0 != (#[trigger] id_map@[b2]).0 by {
                                    assert(id_map@[a2].0.index == a2);
                                    assert(id_map@[b2].0.index == b2);
                                }
                                crate::assoc::lemma_assoc_distinct_index(
                                    id_map@,
                                    id.index as int,
                                );
                                assert(assoc_find(id_map@, id) == Some(tag));
                                // the unique row carrying this id is the one
                                // the lookup found
                                let m0 = choose|m0: int|
                                    0 <= m0 < inv_entries(invocation_map@).len() && inv_entries(
                                        invocation_map@,
                                    )[m0].0 == (visit_block, visit_args@) && inv_entries(
                                        invocation_map@,
                                    )[m0].1 == id;
                                assert forall|m2: int|
                                    0 <= m2 < inv_entries(invocation_map@).len() implies
                                    inv_content_ok(
                                    entries0,
                                    typed_blocks,
                                    #[trigger] inv_entries(invocation_map@)[m2],
                                    return_types@,
                                    id_map@,
                                    invocations@,
                                ) by {
                                    let r2 = inv_entries(invocation_map@)[m2];
                                    if r2.1 == id {
                                        assert(invocation_map@[m0].1 == id);
                                        assert(invocation_map@[m2].1 == id);
                                        assert(m0 == m2);
                                        assert(r2.0 == (visit_block, visit_args@));
                                        assert(entries0[idx].1 is Finished);
                                        assert(typed_blocks.spec_get(
                                            entries0[idx].1.spec_key(),
                                        ) == Some(*typed_fn));
                                        assert(row_key(
                                            typed_blocks.spec_get(
                                                entries0[idx].1.spec_key(),
                                            )->Some_0.eval_blocks@,
                                            j as int,
                                        ) == r2.0);
                                        // the tag minted for this id names
                                        // the row's block, by the content
                                        // fact that held before the update
                                        let (ip, jp) = choose|ip: int, jp: int|
                                            #![trigger row_key(
                                                typed_blocks.spec_get(
                                                    entries0[ip].1.spec_key(),
                                                )->Some_0.eval_blocks@,
                                                jp,
                                            )]
                                            {
                                                let tfp = typed_blocks.spec_get(
                                                    entries0[ip].1.spec_key(),
                                                )->Some_0;
                                                &&& 0 <= ip < entries0.len()
                                                &&& entries0[ip].1 is Finished
                                                &&& typed_blocks.spec_get(
                                                    entries0[ip].1.spec_key(),
                                                ) is Some
                                                &&& 0 <= jp < tfp.eval_blocks@.len()
                                                &&& row_key(tfp.eval_blocks@, jp) == r2.0
                                                &&& assoc_find(rts_pre, r2.1) == Some(
                                                    tfp.return_type,
                                                )
                                                &&& assoc_find(id_map@, r2.1) matches Some(
                                                    tagp,
                                                ) && tagp.0 == r2.0.0 && tagp.1
                                                    < invs_pre.len() && invs_pre[tagp.1 as int].args@
                                                    == r2.0.1 && (forall|reg: RegisterId|
                                                    #[trigger] invs_pre[tagp.1 as int].registers.spec_get(
                                                        reg,
                                                    ) == tfp.eval_blocks@[jp].3.spec_get(reg))
                                            };
                                        assert(assoc_find(id_map@, id)->Some_0 == tag);
                                        assert(tag.0 == r2.0.0);
                                        assert(tag.1 == id.index);
                                        assert(invocations@[tag.1 as int] == info);
                                        assert(info.args@ == r2.0.1);
                                        assert forall|reg: RegisterId| #[trigger]
                                            invocations@[tag.1 as int].registers.spec_get(reg)
                                            == typed_blocks.spec_get(
                                            entries0[idx].1.spec_key(),
                                        )->Some_0.eval_blocks@[j as int].3.spec_get(reg) by {
                                            assert(info.registers.spec_get(reg)
                                                == typed_fn.eval_blocks@[j as int].3.spec_get(
                                                reg,
                                            ));
                                        }
                                        assert(inv_content_ok(
                                            entries0,
                                            typed_blocks,
                                            r2,
                                            return_types@,
                                            id_map@,
                                            invocations@,
                                        ));
                                    } else {
                                        let (i0, j0) = choose|i0: int, j0: int|
                                            #![trigger row_key(
                                                typed_blocks.spec_get(
                                                    entries0[i0].1.spec_key(),
                                                )->Some_0.eval_blocks@,
                                                j0,
                                            )]
                                            {
                                                let tf = typed_blocks.spec_get(
                                                    entries0[i0].1.spec_key(),
                                                )->Some_0;
                                                &&& 0 <= i0 < entries0.len()
                                                &&& entries0[i0].1 is Finished
                                                &&& typed_blocks.spec_get(
                                                    entries0[i0].1.spec_key(),
                                                ) is Some
                                                &&& 0 <= j0 < tf.eval_blocks@.len()
                                                &&& row_key(tf.eval_blocks@, j0) == r2.0
                                                &&& assoc_find(rts_pre, r2.1) == Some(
                                                    tf.return_type,
                                                )
                                                &&& assoc_find(id_map@, r2.1) matches Some(
                                                    tag2,
                                                ) && tag2.0 == r2.0.0 && tag2.1
                                                    < invs_pre.len() && invs_pre[tag2.1 as int].args@
                                                    == r2.0.1 && (forall|reg: RegisterId|
                                                    #[trigger] invs_pre[tag2.1 as int].registers.spec_get(
                                                        reg,
                                                    ) == tf.eval_blocks@[j0].3.spec_get(reg))
                                            };
                                        let tag2 = assoc_find(id_map@, r2.1)->Some_0;
                                        assert(r2.1.index < id_map@.len());
                                        crate::assoc::lemma_assoc_find_index(id_map@, r2.1);
                                        let mi = choose|mi: int|
                                            0 <= mi < id_map@.len() && id_map@[mi].0 == r2.1
                                                && id_map@[mi].1 == assoc_find(
                                                id_map@,
                                                r2.1,
                                            )->Some_0;
                                        assert(id_map@[mi].0.index == mi);
                                        assert(tag2.1 == mi);
                                        assert(mi != id.index);
                                        assert(invocations@[tag2.1 as int]
                                            == invs_pre[tag2.1 as int]);
                                        assert(assoc_find(return_types@, r2.1) == assoc_find(
                                            rts_pre,
                                            r2.1,
                                        ));
                                        assert(inv_content_ok(
                                            entries0,
                                            typed_blocks,
                                            r2,
                                            return_types@,
                                            id_map@,
                                            invocations@,
                                        ));
                                    }
                                }
                            }
                        }
                    },
                    None => {
                        let id = BlockId { index: id_map.len() };
                        let key_args = copy_args(visit_args);
                        let ghost inv_pre = inv_entries(invocation_map@);
                        let ghost rts_pre = return_types@;
                        let ghost ids_pre = id_map@;
                        let ghost invs_pre = invocations@;
                        let ghost new_row = ((visit_block, visit_args@), id);
                        invocation_map.push(((visit_block, BlockInvocationArgs(key_args)), id));
                        id_map.push((id, (visit_block, invocations.len())));
                        invocations.push(info);
                        return_types.push((id, typed_fn.return_type));
                        proof {
                            assert(inv_entries(invocation_map@) =~= inv_pre.push(new_row));
                            crate::assoc::lemma_assoc_find_push(
                                inv_pre,
                                (visit_block, visit_args@),
                                id,
                                (visit_block, visit_args@),
                            );
                            lemma_entries_stay_covered(
                                entries0,
                                typed_blocks,
                                inv_pre,
                                new_row,
                                idx + 1,
                            );
                            assert forall|jj: int| 0 <= jj < j implies assoc_find(
                                inv_entries(invocation_map@),
                                #[trigger] row_key(typed_fn.eval_blocks@, jj),
                            ) is Some by {
                                crate::assoc::lemma_assoc_find_append_preserves(
                                    inv_pre,
                                    new_row,
                                    row_key(typed_fn.eval_blocks@, jj),
                                );
                            }
                            // the fresh id is absent from the id and return
                            // tables
                            assert forall|j2: int|
                                0 <= j2 < rts_pre.len() implies rts_pre[j2].0 != id by {
                                assert(rts_pre[j2].0.index == j2);
                            }
                            crate::assoc::lemma_assoc_absent(rts_pre, id);
                            assert forall|j2: int|
                                0 <= j2 < ids_pre.len() implies ids_pre[j2].0 != id by {
                                assert(ids_pre[j2].0.index == j2);
                            }
                            crate::assoc::lemma_assoc_absent(ids_pre, id);
                            assert forall|k2: BlockId| true implies assoc_find(
                                return_types@,
                                k2,
                            ) == (if k2 == id {
                                Some(typed_fn.return_type)
                            } else {
                                assoc_find(rts_pre, k2)
                            }) by {
                                crate::assoc::lemma_assoc_find_push(
                                    rts_pre,
                                    id,
                                    typed_fn.return_type,
                                    k2,
                                );
                            }
                            assert forall|k2: BlockId| true implies assoc_find(id_map@, k2) == (
                            if k2 == id {
                                Some((visit_block, invs_pre.len() as usize))
                            } else {
                                assoc_find(ids_pre, k2)
                            }) by {
                                crate::assoc::lemma_assoc_find_push(
                                    ids_pre,
                                    id,
                                    (visit_block, invs_pre.len() as usize),
                                    k2,
                                );
                            }
                            assert forall|m2: int|
                                0 <= m2 < inv_entries(invocation_map@).len() implies
                                inv_content_ok(
                                entries0,
                                typed_blocks,
                                #[trigger] inv_entries(invocation_map@)[m2],
                                return_types@,
                                id_map@,
                                invocations@,
                            ) by {
                                if m2 < inv_pre.len() {
                                    let r2 = inv_pre[m2];
                                    assert(inv_entries(invocation_map@)[m2] == r2);
                                    let (i0, j0) = choose|i0: int, j0: int|
                                        #![trigger row_key(
                                            typed_blocks.spec_get(
                                                entries0[i0].1.spec_key(),
                                            )->Some_0.eval_blocks@,
                                            j0,
                                        )]
                                        {
                                            let tf = typed_blocks.spec_get(
                                                entries0[i0].1.spec_key(),
                                            )->Some_0;
                                            &&& 0 <= i0 < entries0.len()
                                            &&& entries0[i0].1 is Finished
                                            &&& typed_blocks.spec_get(
                                                entries0[i0].1.spec_key(),
                                            ) is Some
                                            &&& 0 <= j0 < tf.eval_blocks@.len()
                                            &&& row_key(tf.eval_blocks@, j0) == r2.0
                                            &&& assoc_find(rts_pre, r2.1) == Some(
                                                tf.return_type,
                                            )
                                            &&& assoc_find(ids_pre, r2.1) matches Some(tag2)
                                                && tag2.0 == r2.0.0 && tag2.1 < invs_pre.len()
                                                && invs_pre[tag2.1 as int].args@ == r2.0.1 && (
                                            forall|reg: RegisterId|
                                                #[trigger] invs_pre[tag2.1 as int].registers.spec_get(
                                                    reg,
                                                ) == tf.eval_blocks@[j0].3.spec_get(reg))
                                        };
                                    assert(r2.1.index < ids_pre.len());
                                    assert(assoc_find(return_types@, r2.1) == assoc_find(
                                        rts_pre,
                                        r2.1,
                                    ));
                                    assert(assoc_find(id_map@, r2.1) == assoc_find(
                                        ids_pre,
                                        r2.1,
                                    ));
                                    let tag2 = assoc_find(ids_pre, r2.1)->Some_0;
                                    assert(invocations@[tag2.1 as int]
                                        == invs_pre[tag2.1 as int]);
                                    assert(inv_content_ok(
                                        entries0,
                                        typed_blocks,
                                        r2,
                                        return_types@,
                                        id_map@,
                                        invocations@,
                                    ));
                                } else {
                                    assert(inv_entries(invocation_map@)[m2] == new_row);
                                    assert(entries0[idx].1 is Finished);
                                    assert(typed_blocks.spec_get(entries0[idx].1.spec_key())
                                        == Some(*typed_fn));
                                    assert(row_key(
                                        typed_blocks.spec_get(
                                            entries0[idx].1.spec_key(),
                                        )->Some_0.eval_blocks@,
                                        j as int,
                                    ) == new_row.0);
                                    assert(invocations@[invs_pre.len() as int] == info);
                                    assert(assoc_find(return_types@, id) == Some(
                                        typed_fn.return_type,
                                    ));
                                    assert(assoc_find(id_map@, id) == Some(
                                        (visit_block, invs_pre.len() as usize),
                                    ));
                                    assert(info.args@ == new_row.0.1);
                                    assert forall|reg: RegisterId| #[trigger]
                                        invocations@[invs_pre.len() as int].registers.spec_get(
                                        reg,
                                    ) == typed_blocks.spec_get(
                                        entries0[idx].1.spec_key(),
                                    )->Some_0.eval_blocks@[j as int].3.spec_get(reg) by {
                                        assert(info.registers.spec_get(reg)
                                            == typed_fn.eval_blocks@[j as int].3.spec_get(reg));
                                    }
                                    assert(inv_content_ok(
                                        entries0,
                                        typed_blocks,
                                        new_row,
                                        return_types@,
                                        id_map@,
                                        invocations@,
                                    ));
                                }
                            }
                        }
                    },
                }
                j = j + 1;
            }
            proof {
                assert(rows_covered(inv_entries(invocation_map@), *typed_fn));
                assert(entry_covered(
                    entries0[idx],
                    typed_blocks,
                    inv_entries(invocation_map@),
                ));
            }
        }
        proof {
            assert(rows@.len() == 0);
        }
        Ok(
            PureAnnotatedBlocks {
                blocks,
                invocations,
                id_map,
                invocation_map,
                return_types,
            },
        )
    }
}

/// A copy of a list of argument types, in order.
fn copy_args(values: &Vec<ValueType>) -> (r: Vec<ValueType>)
    ensures
        r@ == values@,
{
    let mut r: Vec<ValueType> = Vec::new();
    let n = values.len();
    let mut i: usize = 0;
    while i < n
        invariant
            0 <= i <= n,
            n == values@.len(),
            r@ == values@.take(i as int),
        decreases n - i,
    {
        r.push(values[i]);
        proof {
            assert(r@ =~= values@.take(i + 1));
        }
        i = i + 1;
    }
    proof {
        assert(r@ =~= values@);
    }
    r
}

/// The specialized id minted for `(block, args)`, if any.
fn lookup_invocation(
    invocation_map: &Vec<((BlockId, BlockInvocationArgs), BlockId)>,
    block: BlockId,
    args: &Vec<ValueType>,
) -> (r: Option<BlockId>)
    ensures
        r == assoc_find(inv_entries(invocation_map@), (block, args@)),
{
    let n = invocation_map.len();
    let mut i: usize = 0;
    proof {
        assert(inv_entries(invocation_map@).skip(0) =~= inv_entries(invocation_map@));
    }
    while i < n
        invariant
            0 <= i <= n,
            n == invocation_map@.len(),
            inv_entries(invocation_map@).len() == n,
            assoc_find(inv_entries(invocation_map@), (block, args@)) == assoc_find(
                inv_entries(invocation_map@).skip(i as int),
                (block, args@),
            ),
        decreases n - i,
    {
        proof {
            assert(inv_entries(invocation_map@).skip(i as int).drop_first() =~= inv_entries(
                invocation_map@,
            ).skip(i + 1));
            assert(inv_entries(invocation_map@).skip(i as int)[0] == inv_entries(
                invocation_map@,
            )[i as int]);
        }
        if invocation_map[i].0.0 == block && value_types_eq(&invocation_map[i].0.1.0, args) {
            return Some(invocation_map[i].1);
        }
        i = i + 1;
    }
    None
}

} // verus!
