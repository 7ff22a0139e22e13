//! The error taxonomy of the document service. Clamped offsets are not
//! errors; these four cover everything a request can fail with.
use vstd::prelude::*;

verus! {

#[derive(Copy, Clone, Debug, PartialEq, Eq, Structural)]
pub enum ServiceError {
    /// A position names a line beyond the logical end-of-document line.
    OutOfRangeLine,
    /// A request names a document that is not open.
    MissingDocument,
    /// The client asked for a position encoding the service cannot honor.
    UnsupportedEncoding,
    /// A change entry carries no range (whole-document replacement),
    /// which this service does not support.
    MalformedEdit,
}

} // verus!
