//! A streaming archive writer: turns a sequence of named byte streams into a
//! single ZIP container, compressing and checksumming each entry on the fly in
//! bounded-size chunks, and writing the central directory as a trailer whose
//! offsets and counts are proved to match the bytes emitted earlier.

pub mod archive;
pub mod bytes;
pub mod checksum;
pub mod compress;
pub mod container;
pub mod laws;
pub mod name;

use vstd::prelude::*;

verus! {

/// Error for a path whose name cannot be represented as valid text
/// in the archive's mandated encoding (UTF-8).
#[derive(Debug)]
pub struct WrongFilenameError;

impl WrongFilenameError {
    pub fn new() -> Self {
        Self {}
    }
}

} // verus!
