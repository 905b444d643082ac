//! Sequential reading of several byte sources as one.
//!
//! A [`reader::FilesReader`] owns an ordered list of sources and a cursor into
//! it. Each read is handed to the source under the cursor; a source that
//! completes a read without filling anything is taken to be exhausted, and the
//! cursor moves on to the next one within the same call.

pub mod buffer;
pub mod drain;
pub mod reader;
pub mod source;
pub mod state;
