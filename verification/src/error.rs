//! The library's error type.
use vstd::prelude::*;

use crate::cli::CliError;
use crate::config::ConfigError;

verus! {

/// Any refusal of the library, or a message from the program around it.
#[derive(Debug, Clone)]
pub enum AppError {
    Cli(CliError),
    Config(ConfigError),
    Message(String),
}

pub type AppResult<T> = Result<T, AppError>;

/// An error that carries only a message.
pub fn boxed_error(message: String) -> (e: AppError)
    ensures
        e matches AppError::Message(m) && m@ == message@,
{
    AppError::Message(message)
}

} // verus!
