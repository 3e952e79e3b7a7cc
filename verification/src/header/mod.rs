//! Typed header values.

pub mod chars;
pub mod charset;
pub mod content_disposition;
pub mod error;
pub mod extended;
pub mod percent;
pub mod query;
pub mod render;

pub use self::charset::Charset;
pub use self::content_disposition::{ContentDisposition, DispositionParam, DispositionType};
pub use self::error::ParseError;
pub use self::extended::{parse_extended_value, ExtendedValue, LanguageTag};
