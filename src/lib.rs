//! Jagged arrays (rows of uneven length) laid out as one flat element buffer
//! and a table of cumulative row ends, built row by row and then frozen into
//! fixed-size storage.
pub mod array;
pub mod bare;
pub mod builder;
pub mod laws;
pub mod spans;

pub use array::{BareJaggedArray, JaggedArray, JaggedError, __retrieve_raw_internal};
pub use bare::{BareJaggedArrayBuilder, BareJaggedArrayIndex, JaggedArrayIndex};
pub use builder::JaggedArrayBuilder;
