//! Schemas for JSON documents: build a schema from typed parts and
//! constraints, then validate a document against it. Validation coerces the
//! document to the kinds that the schema asks for and returns the coerced
//! document, or every failure that it found.
pub mod array;
pub mod binary64;
pub mod boolean;
pub mod error;
pub mod json;
pub mod laws;
pub mod number;
pub mod object;
pub mod pattern;
pub mod schema;
pub mod string;
pub mod text;
pub mod validator;

pub use self::array::array;
pub use self::boolean::boolean;
pub use self::number::{integer, unsigned};
pub use self::object::object;
pub use self::schema::OkSchema;
pub use self::string::string;
