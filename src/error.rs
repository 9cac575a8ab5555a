use vstd::prelude::*;

verus! {

/// Ways in which a USBTMC transaction can fail.
#[derive(Debug, Clone, Copy, PartialEq, Eq, Structural)]
pub enum UsbtmcErrors {
    /// A bulk-OUT transfer to the device failed.
    BulkOutTransferError,
    /// A bulk-IN transfer from the device failed.
    BulkInTransferError,
    /// The configured chunk size is zero or above the protocol cap.
    BadBufferSize,
    /// The device sent a malformed response.
    InvalidData,
}

} // verus!
