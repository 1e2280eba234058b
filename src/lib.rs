//! A builder for variable-length binary columns that supports partial writes:
//! the bytes of one element may be written piece by piece through a scoped
//! writer, which either commits them as a new element or rolls them back.
pub mod layout;
pub mod buffers;
pub mod byte_builder;
