//! A small scoring language for routing profiles, with its compiler and
//! its interpreter.
//!
//! A profile names cost expressions over the tags of map features: a
//! penalty for ways, a penalty for nodes, a cost factor, and constants
//! that these share. A profile is compiled once: `builder` lowers each
//! expression tree of `syntax` to the indexed form of `ir`, as `compile`
//! says it must. It is then evaluated once per edge: `eval` walks the
//! compiled expression, as `semantics` says it must, and `runtime` puts
//! the results together to the score of the edge.
//!
//! Three modules hold what is proved of the two phases together:
//! `slots`, that each slot is the cell of one variable; `soundness`, that
//! what the compiler makes is evaluated without internal errors; and
//! `failures`, that the first failure in a profile fails its load.
//!
//! Numbers are single-precision floating point numbers. The code here
//! never computes with them: it holds them by their bits and says which
//! operations are to be applied to them, in which order (see `value`).
//!
//! `activity` and `socket` hold two decisions of the tools around the
//! router: what kind of file a name stands for, and when to stop trying
//! to reach a server.

pub mod activity;
pub mod builder;
pub mod compile;
pub mod error;
pub mod eval;
pub mod failures;
pub mod ir;
pub mod runtime;
pub mod scope;
pub mod semantics;
pub mod slots;
pub mod socket;
pub mod soundness;
pub mod syntax;
pub mod tags;
pub mod text;
pub mod value;
