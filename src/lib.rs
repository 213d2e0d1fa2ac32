//! The native value runtime for Move: type descriptors, values, dynamic
//! vectors, structural equality and the canonical byte encoding.
pub mod rt_types;
pub mod conv;
pub mod vector;
pub mod rt;
pub mod serialization;
pub mod validate;
