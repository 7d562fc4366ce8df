//! The Type Language: its types, parameters and definitions.

pub mod errors;
pub mod ty;
pub mod parameter;
pub mod docs;
pub mod definition;
pub mod file;
pub mod roundtrip;

pub use errors::{ParamParseError, ParseError};
pub use ty::Type;
pub use parameter::Parameter;
pub use definition::{Category, Definition};
pub use file::parse_tl_file;
