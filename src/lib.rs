//! Filtered, readable backtraces for error and panic reports.
//!
//! A backtrace, captured by the runtime or printed as text, becomes a list of
//! [`Frame`]s; the filter pipeline drops the panic machinery, the runtime's
//! start-up code and the reporting libraries' own frames; the renderer shows
//! what is left in index order, with a marker for each run of hidden frames.
pub mod classify;
pub mod config;
pub mod convert;
pub mod error;
pub mod filter;
pub mod frame;
pub mod indent;
pub mod location;
pub mod parse;
pub mod render;
pub mod text;
pub mod theme;
pub mod verbosity;

pub use config::Config;
pub use error::InstallError;
pub use filter::{Filter, FrameFilter};
pub use frame::Frame;
pub use location::Location;
pub use parse::BacktraceParser;
pub use theme::{Color, Effect, Style, Theme};
pub use verbosity::Verbosity;
