//! Whole-program symbolic type specialization for a register-based IR.
//!
//! The crate walks an immutable IR program, infers a symbolic type for every
//! register, and produces one specialized copy of a basic block per distinct
//! tuple of argument types actually observed, while terminating in the
//! presence of recursive and mutually-recursive call graphs.
//!
//! The pieces, leaves first:
//! - [`lattice`]: the symbolic value lattice and its constant-folding operators;
//! - [`ir`]: the read-only IR program that the engine consumes;
//! - [`builder`]: the API that constructs unspecialized IR programs;
//! - [`memo`]: per-call bookkeeping of visited `(block, argument types)` pairs;
//! - [`graph_system`]: a domain-agnostic memoized task-graph executor;
//! - [`engine`]: the block-exploration driver that performs the abstract
//!   interpretation;
//! - [`extract`]: the one-shot pass that materializes specialized blocks;
//! - [`assembler`]: the types handed to the downstream assembler;
//! - [`sexpr`]: the S-expression reader for the IR description language.

pub mod assoc;
pub mod builder;
pub mod assembler;
pub mod engine;
pub mod extract;
pub mod graph_system;
pub mod id;
pub mod ir;
pub mod lattice;
pub mod memo;
pub mod sexpr;
