//! Unix file permission modes: reading the octal (`0755`) and the symbolic
//! (`rwxr-xr-x`) spelling into a bit field, and showing the bit field as
//! `"<octal>: <symbolic>"`.
pub mod error;
pub mod laws;
pub mod mode;
pub mod mode_type;
pub mod text;

pub use error::Error;
pub use mode::{format_mode, parse_mode, Mode};
pub use mode_type::{classify, ModeType};
