//! BAML sources of the runtime's functions.

pub mod simple_prompt;
