//! A string with a fixed capacity, stored inline in a byte array.
//!
//! `ArrayString<CAP>` holds up to `CAP` bytes of UTF-8 text without
//! allocating. Appending either succeeds in full or leaves the string as it
//! was and hands back what did not fit.

pub mod array_string;
pub mod compare;
pub mod errors;
pub mod format;
pub mod model;
pub mod order;
pub mod text;

pub use array_string::ArrayString;
pub use errors::CapacityError;
