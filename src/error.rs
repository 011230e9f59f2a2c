use vstd::prelude::*;

verus! {

/// The failures that the inventory reports to its callers.
#[derive(Debug)]
pub enum VehicleError {
    /// The persistence backend could not carry out an operation.
    StoreError(String),
    /// No record has the requested id.
    NotFound,
    /// More than one record carries an id that must be unique.
    DataIntegrityFault,
    /// A distinct-values request named a column outside the whitelist.
    InvalidColumn,
    /// An artifact file could not be created or written.
    IOFault(String),
    /// The link of an artifact could not be encoded as a barcode.
    EncodingFault,
}

} // verus!
