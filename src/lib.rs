//! Exactly-once ownership of operating-system descriptors (pipe ends and
//! duplicated standard streams), with the decisions that follow each
//! descriptor call proved against their contracts.
pub mod handle;
pub mod table;
