//! Block emitters that work on the shared emission context.

pub mod table;
