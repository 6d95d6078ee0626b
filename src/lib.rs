pub mod discover;
pub mod error;
pub mod path;
pub mod reader;

pub use error::{Error, IoError};
pub use reader::{Document, Documents, FormatParser, Parser, Reader, Unknown};
