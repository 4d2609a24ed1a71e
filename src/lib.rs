//! A line-oriented search library: a sliding context window over a stream of
//! lines, the decisions of the match engine, the rendering of reported blocks,
//! and the small pieces of policy around them (input dispatch, name filters,
//! output suppression, numeric options).
pub mod decimal;
pub mod dispatch;
pub mod flags;
pub mod pattern;
pub mod render;
pub mod search;
pub mod walk;
pub mod window;

pub use flags::{is_stderr_enable, is_stdout_enable, suppress_stderr, suppress_stdout, OutputFlags};
pub use decimal::parse;
