//! A verified parser for one raw command line.
//!
//! A single left-to-right scan splits the text into positional arguments,
//! boolean switches and flag values, honouring quoting and escaping. A small
//! accessor layer then hands the pieces out destructively, and a typed
//! resolver composes accessor calls with alias and default fallback.

pub mod command;
pub mod errors;
pub mod flag;
pub mod lexer;
pub mod model;
pub mod store;
pub mod text;

pub use command::Command;
pub use errors::AccessError;
pub use errors::ParseError;
pub use flag::Flag;
pub use text::FromText;
