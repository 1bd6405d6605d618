//! Common utilities and types for the textplan module.

pub mod error;
pub mod location;
pub mod parse_result;
pub mod proto_location;
pub mod string_utils;
pub mod structured_symbol_data;
pub mod text_format;
pub mod text_location;
pub mod text_ops;
pub mod text_scan;
pub mod text_words;
pub mod unknown_location;

pub use location::BoxedLocation;
pub use location::Location;
pub use proto_location::ProtoLocation;
pub use text_location::TextLocation;
pub use unknown_location::UnknownLocation;
