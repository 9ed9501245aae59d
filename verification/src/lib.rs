//! Synthesis of equality comparisons that leave chosen fields out.
//!
//! A declaration (a record, or a union of variants) is described by its
//! fields, their types and their markers. From it the library resolves which
//! types are excluded, decides which fields are compared, and assembles the
//! body of an equality method: a conjunction of field comparisons for a
//! record, one match arm per variant and a closing `false` arm for a union.
pub mod assembly;
pub mod comparison;
pub mod declaration;
pub mod emission;
pub mod exclusions;
pub mod laws;
pub mod marker;
pub mod syntax;
pub mod value;
