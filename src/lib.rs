//! The core of a small command shell: alias substitution, statement parsing,
//! value resolution, and the interpretation of instructions as a sequence of
//! decisions whose outside work (processes, working directory, environment)
//! the caller performs.

pub mod config;
pub mod error;
pub mod escape;
mod lexin;
pub mod machine;
pub mod parser;
pub mod shell;
pub mod token;

pub use config::Config;
pub use error::{NshError, NshErrorType, ReadLineError};
pub use machine::{Action, Environment, Event, LineRun, Machine};
pub use parser::{Ast, Node, Value};
pub use shell::Nsh;
pub use token::{Token, TokenKind};
