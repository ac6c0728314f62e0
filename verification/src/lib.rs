//! Compilation of combinatorial optimization problems (3-SAT formulas or raw
//! QUBO coefficient matrices) towards a placement of qubit-carrying atoms on
//! a neutral-atom quantum processor.
//!
//! The heart of the crate is the pair formed by [`qubo::Constraints`], a
//! dense symmetric weight matrix with named nodes, and the max-3-SAT reducer
//! in [`frontend::max3sat`], which lowers a conjunction of small disjunctive
//! clauses into such a matrix through exact penalty gadgets. The geometric
//! search that embeds a matrix into the plane is bookkept by [`layout`]: the
//! seed race's sequence, simplex shape, quality scale and acceptance test
//! live here, while the continuous simplex iteration itself runs in the
//! unverified calling layer. [`c6`] and [`device`] carry the two physical
//! quantities the embedding reads, and [`pulser`] holds the vocabulary of
//! the wire format compiled programs are serialized into.

pub mod c6;
pub mod device;
pub mod format;
pub mod frontend;
pub mod layout;
pub mod order;
pub mod pulser;
pub mod qubo;
pub mod runtime;
pub mod text;
pub mod units;

pub use qubo::Constraints;
pub use qubo::Error;
