//! The wire format: `COMMAND:VALUE,` lines and the commands they stand for.

pub mod message;
pub mod number;
pub mod parser;
pub mod protocol;
pub mod text;
