//! The record type of batch generation: one output file per record.

use vstd::prelude::*;

verus! {

/// One record of a batch input file: the output file name (without its
/// extension) and the payload to encode.
#[derive(Debug)]
pub struct BatchRecord {
    /// File name for the generated output, without extension.
    pub filename: String,
    /// Payload to encode.
    pub data: String,
}

} // verus!
