//! Finds the aliases that a shell's startup files define, following the
//! files they source, and picks one of them as a reminder.

pub mod text;
pub mod pattern;
pub mod extract;
pub mod resolve;
pub mod scan;
pub mod machine;
pub mod scanner;
pub mod laws;
pub mod bounds;
pub mod memory;
pub mod remind;
