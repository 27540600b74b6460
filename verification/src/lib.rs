//! A type-directed structural decoder for DynamoDB-style items.
//!
//! An item is a mapping from attribute names to tagged wire values
//! (boolean, numeric text, text, null marker, list, nested map).  The
//! decoder walks a caller-declared target shape and, in lock-step, the
//! source value tree, converting each leaf to the requested native type
//! and failing predictably when the source does not match.

pub mod de;
pub mod driver;
pub mod error;
pub mod numeric;
pub mod read;

pub use de::{Deserializer, MapAccess, SeqAccess};
pub use driver::{decode, decode_value, from_hashmap, Shape, Value};
pub use error::{Error, ErrorKind};
pub use read::{AttributeValue, Index, Source};
