//! Verified pieces of the compiler of the Pen programming language: the
//! definitions of its high-level and mid-level intermediate representations,
//! the plan by which the mid-level IR's function definitions become entry
//! functions of closures and thunks, the protocol by which a thunk is
//! evaluated once, and the paths of package configuration files.

pub mod hir;
pub mod infra;
pub mod mir;
pub mod mir_fmm;
