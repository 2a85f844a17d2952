//! A small command-line argument parser.
//!
//! A [`Parser`] walks a list of raw arguments and hands out [`Arg`]s: short options
//! (`-v`, also clustered as `-abc`), long options (`--port`, also `--port=8080`) and
//! positional values; `--` ends option parsing. The value of an option is read with
//! [`Parser::value`] and its typed and collecting variants. Raw arguments are bytes and
//! need not be valid UTF-8. [`help`] renders help text and [`standard`] answers the
//! standard help and version flags.
pub mod arg;
pub mod error;
pub mod from_value;
pub mod help;
pub mod laws;
pub mod parser;
pub mod standard;
pub mod value_laws;
mod text;

pub use arg::{Arg, Value};
pub use error::{Error, ErrorKind};
pub use from_value::FromValue;
pub use parser::Parser;

use vstd::prelude::*;
use crate::error::error_model;

verus! {

/// A required argument: the value when there is one, else the `MissingArgument` error
/// naming it.
pub fn required<T>(value: Option<T>, name: &str) -> (r: Result<T, Error>)
    ensures
        match value {
            Some(v) => r matches Ok(x) && x == v,
            None => r matches Err(e) && e@ == error_model(
                ErrorKind::MissingArgument,
                Some(vstd::string::StringSliceAdditionalSpecFns::spec_bytes(name)),
            ),
        },
{
    match value {
        Some(v) => Ok(v),
        None => Err(Error::missing_argument_for(text::str_bytes(name))),
    }
}

/// Counts one more occurrence of a repeatable flag, stopping at the largest count.
pub fn count_flag(count: &mut u8)
    ensures
        *final(count) == (if *old(count) == u8::MAX {
            u8::MAX
        } else {
            (*old(count) + 1) as u8
        }),
{
    if *count < u8::MAX {
        *count = *count + 1;
    }
}

/// Sets a flag.
pub fn set_flag(flag: &mut bool)
    ensures
        *final(flag),
{
    *flag = true;
}

} // verus!
