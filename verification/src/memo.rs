//! Execution memo and typed-function bookkeeping.
//!
//! An execution key `(block id, argument types)` identifies one exploration
//! task; the memo records, per key, whether that exploration is in progress
//! or finished, and the typed-function table holds the aggregate outcome of
//! each finished call.  The key transition is monotone:
//! absent, then `InProgress`, then `Finished`; it never reverts.

use vstd::prelude::*;

use crate::assoc::{assoc_find, lemma_assoc_absent, lemma_assoc_find_push, lemma_assoc_find_update, lemma_assoc_found};
use crate::id::{BlockId, FunctionId, RegisterId};
use crate::lattice::{spec_unify, ReturnType, UnifyError, ValueType};

verus! {

/// Structural equality of two argument-type lists.
pub fn value_types_eq(a: &Vec<ValueType>, b: &Vec<ValueType>) -> (r: bool)
    ensures
        r == (a@ == b@),
{
    if a.len() != b.len() {
        assert(a@ != b@) by {
            assert(a@.len() != b@.len());
        }
        return false;
    }
    let n = a.len();
    let mut i: usize = 0;
    while i < n
        invariant
            0 <= i <= n,
            n == a@.len() && n == b@.len(),
            forall|j: int| 0 <= j < i ==> a@[j] == b@[j],
        decreases n - i,
    {
        if a[i] != b[i] {
            assert(a@ != b@) by {
                assert(a@[i as int] != b@[i as int]);
            }
            return false;
        }
        i = i + 1;
    }
    proof {
        assert(a@ =~= b@);
    }
    true
}

/// A map from registers to their inferred symbolic types, for one block visit.
#[derive(Debug, Clone, PartialEq)]
pub struct RegisterMap {
    entries: Vec<(RegisterId, ValueType)>,
}

impl RegisterMap {
    /// The type recorded for `r`, if any.
    pub closed spec fn spec_get(self, r: RegisterId) -> Option<ValueType> {
        assoc_find(self.entries@, r)
    }

    /// Whether a type is recorded for `r`.
    pub open spec fn contains(self, r: RegisterId) -> bool {
        self.spec_get(r) is Some
    }

    pub fn new() -> (r: RegisterMap)
        ensures
            forall|r2: RegisterId| r.spec_get(r2) is None,
    {
        RegisterMap { entries: Vec::new() }
    }

    /// The type recorded for `r`, if any.
    pub fn get(&self, r: RegisterId) -> (res: Option<ValueType>)
        ensures
            res == self.spec_get(r),
    {
        let n = self.entries.len();
        let mut i: usize = 0;
        proof {
            assert(self.entries@.skip(0) =~= self.entries@);
        }
        while i < n
            invariant
                0 <= i <= n,
                n == self.entries@.len(),
                assoc_find(self.entries@, r) == assoc_find(self.entries@.skip(i as int), r),
            decreases n - i,
        {
            proof {
                assert(self.entries@.skip(i as int).drop_first() =~= self.entries@.skip(i + 1));
            }
            if self.entries[i].0 == r {
                return Some(self.entries[i].1);
            }
            i = i + 1;
        }
        None
    }

    /// A copy with the same recorded types.
    pub fn duplicate(&self) -> (r: RegisterMap)
        ensures
            forall|reg: RegisterId| #[trigger] r.spec_get(reg) == self.spec_get(reg),
    {
        let mut entries: Vec<(RegisterId, ValueType)> = Vec::new();
        let n = self.entries.len();
        let mut i: usize = 0;
        while i < n
            invariant
                0 <= i <= n,
                n == self.entries@.len(),
                entries@ == self.entries@.take(i as int),
            decreases n - i,
        {
            entries.push(self.entries[i]);
            proof {
                assert(entries@ =~= self.entries@.take(i + 1));
            }
            i = i + 1;
        }
        proof {
            assert(entries@ =~= self.entries@);
        }
        RegisterMap { entries }
    }

    /// Records `t` for `r`, replacing any earlier record.
    pub fn insert(&mut self, r: RegisterId, t: ValueType)
        ensures
            final(self).spec_get(r) == Some(t),
            forall|r2: RegisterId| r2 != r ==> final(self).spec_get(r2) == old(self).spec_get(r2),
    {
        let n = self.entries.len();
        let mut i: usize = 0;
        while i < n
            invariant
                0 <= i <= n,
                n == self.entries@.len(),
                *self == *old(self),
                forall|j: int| 0 <= j < i ==> self.entries@[j].0 != r,
            decreases n - i,
        {
            if self.entries[i].0 == r {
                let e = vstd::std_specs::vec::vec_index_mut(&mut self.entries, i);
                e.1 = t;
                proof {
                    assert(*final(e) == (old(self).entries@[i as int].0, t));
                    lemma_assoc_find_update(old(self).entries@, i as int, r, t, r);
                    assert forall|r2: RegisterId| r2 != r implies final(self).spec_get(r2) == old(
                        self).spec_get(r2) by {
                        lemma_assoc_find_update(old(self).entries@, i as int, r, t, r2);
                    }
                }
                return ;
            }
            i = i + 1;
        }
        self.entries.push((r, t));
        proof {
            lemma_assoc_absent(old(self).entries@, r);
            lemma_assoc_find_push(old(self).entries@, r, t, r);
            assert forall|r2: RegisterId| r2 != r implies final(self).spec_get(r2) == old(
                self).spec_get(r2) by {
                lemma_assoc_find_push(old(self).entries@, r, t, r2);
            }
        }
    }
}

/// The identity minted for one explored call: a fresh function id paired with
/// the id of the block the call entered through.
#[derive(Debug, Clone, Copy, PartialEq, Eq, Hash, Structural)]
pub struct BlockKey {
    pub function: FunctionId,
    pub block: BlockId,
}

/// One exploration task: a block and the symbolic types of its arguments.
/// Equality is structural, order- and arity-sensitive.
#[derive(Debug, Clone, PartialEq)]
pub struct BlockExecutionKey {
    pub id: BlockId,
    pub parameters: Vec<ValueType>,
}

impl BlockExecutionKey {
    /// The mathematical identity of this key.
    pub open spec fn skey(self) -> (BlockId, Seq<ValueType>) {
        (self.id, self.parameters@)
    }
}

/// The status of one execution key: being computed, or computed fully.
#[derive(Debug, Clone, Copy, PartialEq, Eq, Hash, Structural)]
pub enum BlockExecution {
    InProgress(BlockKey),
    Finished(BlockKey),
}

impl BlockExecution {
    /// The call identity behind this status.
    pub open spec fn spec_key(self) -> BlockKey {
        match self {
            BlockExecution::InProgress(a) => a,
            BlockExecution::Finished(a) => a,
        }
    }

    pub fn key(&self) -> (r: BlockKey)
        ensures
            r == self.spec_key(),
    {
        match self {
            BlockExecution::InProgress(a) => *a,
            BlockExecution::Finished(a) => *a,
        }
    }
}

/// The memo of every execution key ever requested, in insertion order.
#[derive(Debug)]
pub struct Executions {
    list: Vec<(BlockExecutionKey, BlockExecution)>,
}

impl Executions {
    /// The memo contents as a sequence of `(key identity, status)` pairs.
    pub closed spec fn entries(self) -> Seq<((BlockId, Seq<ValueType>), BlockExecution)> {
        self.list@.map_values(
            |p: (BlockExecutionKey, BlockExecution)| ((p.0.id, p.0.parameters@), p.1),
        )
    }

    /// The status of a key identity, if any: the first entry carrying it.
    pub open spec fn spec_get(self, k: (BlockId, Seq<ValueType>)) -> Option<BlockExecution> {
        assoc_find(self.entries(), k)
    }

    /// Each key identity has at most one entry: a key is never duplicated,
    /// however often it is requested or updated.
    pub open spec fn keys_distinct(self) -> bool {
        forall|i: int, j: int|
            0 <= i < j < self.entries().len() ==> (#[trigger] self.entries()[i]).0 != (
            #[trigger] self.entries()[j]).0
    }

    pub fn new() -> (r: Executions)
        ensures
            forall|k: (BlockId, Seq<ValueType>)| r.spec_get(k) is None,
            r.entries().len() == 0,
            r.keys_distinct(),
    {
        let r = Executions { list: Vec::new() };
        proof {
            assert(r.entries() =~= Seq::<((BlockId, Seq<ValueType>), BlockExecution)>::empty());
        }
        r
    }

    /// The status recorded for `key`, if any.
    pub fn get(&self, key: &BlockExecutionKey) -> (r: Option<&BlockExecution>)
        ensures
            match r {
                Some(e) => self.spec_get(key.skey()) == Some(*e),
                None => self.spec_get(key.skey()) is None,
            },
    {
        let n = self.list.len();
        let mut i: usize = 0;
        proof {
            assert(self.entries().skip(0) =~= self.entries());
        }
        while i < n
            invariant
                0 <= i <= n,
                n == self.list@.len(),
                self.entries().len() == n,
                assoc_find(self.entries(), key.skey()) == assoc_find(
                    self.entries().skip(i as int),
                    key.skey(),
                ),
            decreases n - i,
        {
            proof {
                assert(self.entries().skip(i as int).drop_first() =~= self.entries().skip(i + 1));
                assert(self.entries().skip(i as int)[0] == self.entries()[i as int]);
            }
            if self.list[i].0.id == key.id && value_types_eq(&self.list[i].0.parameters, &key.parameters) {
                return Some(&self.list[i].1);
            }
            i = i + 1;
        }
        None
    }

    /// Records `execution` for `key`, replacing any entry for the same key in
    /// place and appending otherwise.
    pub fn insert(&mut self, key: BlockExecutionKey, execution: BlockExecution)
        ensures
            final(self).spec_get(key.skey()) == Some(execution),
            forall|k2: (BlockId, Seq<ValueType>)|
                k2 != key.skey() ==> final(self).spec_get(k2) == old(self).spec_get(k2),
            old(self).spec_get(key.skey()) is Some ==> final(self).entries().len() == old(
                self,
            ).entries().len(),
            old(self).spec_get(key.skey()) is None ==> final(self).entries() == old(
                self,
            ).entries().push((key.skey(), execution)),
            old(self).keys_distinct() ==> final(self).keys_distinct(),
    {
        let ghost sk = key.skey();
        let n = self.list.len();
        let mut i: usize = 0;
        while i < n
            invariant
                0 <= i <= n,
                n == self.list@.len(),
                *self == *old(self),
                forall|j: int| 0 <= j < i ==> self.entries()[j].0 != sk,
                sk == key.skey(),
            decreases n - i,
        {
            proof {
                assert(self.entries()[i as int] == ((self.list@[i as int].0.id,
                self.list@[i as int].0.parameters@), self.list@[i as int].1));
            }
            if self.list[i].0.id == key.id && value_types_eq(&self.list[i].0.parameters, &key.parameters) {
                let e = vstd::std_specs::vec::vec_index_mut(&mut self.list, i);
                e.1 = execution;
                proof {
                    assert(final(self).entries() =~= old(self).entries().update(
                        i as int,
                        (sk, execution),
                    ));
                    lemma_assoc_found(old(self).entries(), i as int, sk);
                    lemma_assoc_find_update(old(self).entries(), i as int, sk, execution, sk);
                    assert forall|k2: (BlockId, Seq<ValueType>)| k2 != sk implies #[trigger]
                    final(self).spec_get(k2) == old(self).spec_get(k2) by {
                        lemma_assoc_find_update(old(self).entries(), i as int, sk, execution, k2);
                    }
                }
                return ;
            }
            i = i + 1;
        }
        proof {
            // the key is absent: every entry differs from it
            lemma_assoc_absent(self.entries(), sk);
        }
        self.list.push((key, execution));
        proof {
            assert(final(self).entries() =~= old(self).entries().push((sk, execution)));
            lemma_assoc_find_push(old(self).entries(), sk, execution, sk);
            assert forall|k2: (BlockId, Seq<ValueType>)| k2 != sk implies #[trigger] final(
                self).spec_get(k2) == old(self).spec_get(k2) by {
                lemma_assoc_find_push(old(self).entries(), sk, execution, k2);
            }
        }
    }

    /// Hands the memo out as a list of `(block, argument types, status)`
    /// rows, in insertion order; used once, by extraction.
    pub fn into_all_fn_invocations(self) -> (r: Vec<(BlockId, Vec<ValueType>, BlockExecution)>)
        ensures
            r@.len() == self.entries().len(),
            forall|i: int|
                0 <= i < r@.len() ==> (r@[i].0, r@[i].1@) == self.entries()[i].0 && r@[i].2
                    == self.entries()[i].1,
    {
        let mut r: Vec<(BlockId, Vec<ValueType>, BlockExecution)> = Vec::new();
        let mut list = self.list;
        let ghost orig = list@;
        proof {
            assert(orig.skip(0) =~= orig);
        }
        while list.len() > 0
            invariant
                r@.len() + list@.len() == orig.len(),
                list@ == orig.skip(r@.len() as int),
                self.entries().len() == orig.len(),
                forall|j: int|
                    0 <= j < orig.len() ==> self.entries()[j] == ((orig[j].0.id,
                    orig[j].0.parameters@), orig[j].1),
                forall|j: int|
                    0 <= j < r@.len() ==> (r@[j].0, r@[j].1@) == self.entries()[j].0 && r@[j].2
                        == self.entries()[j].1,
            decreases list@.len(),
        {
            let ghost done = r@.len() as int;
            let p = list.remove(0);
            proof {
                assert(p == orig[done]);
                assert(list@ =~= orig.skip(done + 1));
            }
            r.push((p.0.id, p.0.parameters, p.1));
        }
        r
    }
}

/// How one visited block left the call: by branching to successor keys, or by
/// completing with a contribution to the call's return type.  A block cut
/// short by a callee that returns `Never` completes with `Never`: the rest of
/// the block is unreachable and its terminator is discarded.
#[derive(Debug, Clone, PartialEq)]
pub enum ExplorationBranch {
    Branch(Vec<BlockExecutionKey>),
    Complete(ReturnType),
}

/// The aggregate result of exploring one call: its unified return type and
/// every `(block, argument types, branch, register types)` row visited while
/// resolving it.
#[derive(Debug, Clone, PartialEq)]
pub struct TypedFunction {
    pub return_type: ReturnType,
    pub eval_blocks: Vec<(BlockId, Vec<ValueType>, ExplorationBranch, RegisterMap)>,
}

/// First row of `s` for the visit `(block, args)`, if any.
pub open spec fn find_eval(
    s: Seq<(BlockId, Vec<ValueType>, ExplorationBranch, RegisterMap)>,
    block: BlockId,
    args: Seq<ValueType>,
) -> Option<(ExplorationBranch, RegisterMap)>
    decreases s.len(),
{
    if s.len() == 0 {
        None
    } else if s[0].0 == block && s[0].1@ == args {
        Some((s[0].2, s[0].3))
    } else {
        find_eval(s.drop_first(), block, args)
    }
}

/// The return type a call accumulates from its rows: the unify-fold, seeded
/// at `Never`, of the `Complete` contributions, in visit order.  A row that
/// branches contributes nothing.
pub open spec fn fold_contributions(
    rows: Seq<(BlockId, Vec<ValueType>, ExplorationBranch, RegisterMap)>,
) -> Result<ReturnType, UnifyError>
    decreases rows.len(),
{
    if rows.len() == 0 {
        Ok(ReturnType::Never)
    } else {
        match fold_contributions(rows.drop_last()) {
            Ok(acc) => match rows.last().2 {
                ExplorationBranch::Complete(rt) => spec_unify(acc, rt),
                ExplorationBranch::Branch(_) => Ok(acc),
            },
            Err(e) => Err(e),
        }
    }
}

/// A row that stands in the table is found.
pub proof fn lemma_find_eval_found(
    s: Seq<(BlockId, Vec<ValueType>, ExplorationBranch, RegisterMap)>,
    j: int,
)
    requires
        0 <= j < s.len(),
    ensures
        find_eval(s, s[j].0, s[j].1@) is Some,
    decreases s.len(),
{
    if s.len() > 0 {
        if s[0].0 == s[j].0 && s[0].1@ == s[j].1@ {
        } else {
            assert(j != 0);
            assert(s.drop_first()[j - 1] == s[j]);
            lemma_find_eval_found(s.drop_first(), j - 1);
        }
    }
}

impl TypedFunction {
    /// The recorded return type is exactly the unify-fold of the rows'
    /// `Complete` contributions, seeded at `Never`.
    pub open spec fn return_consistent(self) -> bool {
        fold_contributions(self.eval_blocks@) == Ok::<ReturnType, UnifyError>(self.return_type)
    }

    /// Whether the call visited `(block, args)`.
    pub open spec fn visited(self, block: BlockId, args: Seq<ValueType>) -> bool {
        find_eval(self.eval_blocks@, block, args) is Some
    }

    /// Each visit appears on at most one row: a key is evaluated at most once
    /// per enclosing call.
    pub open spec fn visits_distinct(self) -> bool {
        forall|i: int, j: int|
            0 <= i < j < self.eval_blocks@.len() ==> !(self.eval_blocks@[i].0
                == self.eval_blocks@[j].0 && self.eval_blocks@[i].1@ == self.eval_blocks@[j].1@)
    }

    /// The branch and register types recorded for the visit `(block, args)`,
    /// if the call visited it.
    pub fn find(&self, block: &BlockId, args: &Vec<ValueType>) -> (r: Option<
        (&ExplorationBranch, &RegisterMap),
    >)
        ensures
            match r {
                Some(p) => find_eval(self.eval_blocks@, *block, args@) == Some((*p.0, *p.1)),
                None => find_eval(self.eval_blocks@, *block, args@) is None,
            },
    {
        let n = self.eval_blocks.len();
        let mut i: usize = 0;
        proof {
            assert(self.eval_blocks@.skip(0) =~= self.eval_blocks@);
        }
        while i < n
            invariant
                0 <= i <= n,
                n == self.eval_blocks@.len(),
                find_eval(self.eval_blocks@, *block, args@) == find_eval(
                    self.eval_blocks@.skip(i as int),
                    *block,
                    args@,
                ),
            decreases n - i,
        {
            proof {
                assert(self.eval_blocks@.skip(i as int).drop_first() =~= self.eval_blocks@.skip(
                    i + 1,
                ));
            }
            if self.eval_blocks[i].0 == *block && value_types_eq(&self.eval_blocks[i].1, args) {
                return Some((&self.eval_blocks[i].2, &self.eval_blocks[i].3));
            }
            i = i + 1;
        }
        None
    }
}

/// The table of finished calls, keyed by the minted call identity.
#[derive(Debug)]
pub struct TypedBlocks {
    list: Vec<(BlockKey, TypedFunction)>,
}

impl TypedBlocks {
    /// The typed function recorded for a call identity, if any.
    pub closed spec fn spec_get(self, k: BlockKey) -> Option<TypedFunction> {
        assoc_find(self.list@, k)
    }

    pub fn new() -> (r: TypedBlocks)
        ensures
            forall|k: BlockKey| r.spec_get(k) is None,
    {
        TypedBlocks { list: Vec::new() }
    }

    /// The typed function recorded for `k`, if any.
    pub fn get(&self, k: BlockKey) -> (r: Option<&TypedFunction>)
        ensures
            match r {
                Some(f) => self.spec_get(k) == Some(*f),
                None => self.spec_get(k) is None,
            },
    {
        let n = self.list.len();
        let mut i: usize = 0;
        proof {
            assert(self.list@.skip(0) =~= self.list@);
        }
        while i < n
            invariant
                0 <= i <= n,
                n == self.list@.len(),
                assoc_find(self.list@, k) == assoc_find(self.list@.skip(i as int), k),
            decreases n - i,
        {
            proof {
                assert(self.list@.skip(i as int).drop_first() =~= self.list@.skip(i + 1));
            }
            if self.list[i].0 == k {
                return Some(&self.list[i].1);
            }
            i = i + 1;
        }
        None
    }

    /// Records `f` for `k`, replacing any entry for the same identity.
    pub fn insert(&mut self, k: BlockKey, f: TypedFunction)
        ensures
            final(self).spec_get(k) == Some(f),
            forall|k2: BlockKey| k2 != k ==> final(self).spec_get(k2) == old(self).spec_get(k2),
    {
        let n = self.list.len();
        let mut i: usize = 0;
        while i < n
            invariant
                0 <= i <= n,
                n == self.list@.len(),
                *self == *old(self),
                forall|j: int| 0 <= j < i ==> self.list@[j].0 != k,
            decreases n - i,
        {
            if self.list[i].0 == k {
                let e = vstd::std_specs::vec::vec_index_mut(&mut self.list, i);
                e.1 = f;
                proof {
                    assert(final(self).list@ =~= old(self).list@.update(
                        i as int,
                        (k, final(self).list@[i as int].1),
                    ));
                    lemma_assoc_find_update(
                        old(self).list@,
                        i as int,
                        k,
                        final(self).list@[i as int].1,
                        k,
                    );
                    assert forall|k2: BlockKey| k2 != k implies final(self).spec_get(k2) == old(
                        self).spec_get(k2) by {
                        lemma_assoc_find_update(
                            old(self).list@,
                            i as int,
                            k,
                            final(self).list@[i as int].1,
                            k2,
                        );
                    }
                }
                return ;
            }
            i = i + 1;
        }
        proof {
            lemma_assoc_absent(self.list@, k);
        }
        self.list.push((k, f));
        proof {
            lemma_assoc_find_push(old(self).list@, k, final(self).list@[n as int].1, k);
            assert forall|k2: BlockKey| k2 != k implies final(self).spec_get(k2) == old(
                self).spec_get(k2) by {
                lemma_assoc_find_push(old(self).list@, k, final(self).list@[n as int].1, k2);
            }
        }
    }
}

} // verus!
