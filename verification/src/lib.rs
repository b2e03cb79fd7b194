//! Columnar range-predicate kernels and a SQL function-registration shim.
//!
//! The core is an element-wise ternary `between` predicate over typed columns
//! with per-row validity, together with the binary type-coercion lattice that
//! unifies the three input element types, and the null-preserving cast layer
//! that brings inputs to the resolved comparison type.  Floating-point cells
//! are carried as their IEEE-754 bit patterns, and all float comparison and
//! conversion is done in integer arithmetic, so every kernel is verified.
//!
//! Around the kernel sit a registry of named SQL user-defined functions and a
//! small table catalog, both modelled as association tables with verified
//! lookup semantics.

pub mod dtype;
pub mod float;
pub mod scalar;
pub mod lattice;
pub mod series;
pub mod laws;
pub mod table;
pub mod registry;
pub mod catalog;
