//! Values that the host reports while it works on files.

use vstd::prelude::*;

verus! {

/// Where a transfer stands.
#[derive(Debug)]
pub enum TransferStatus {
    Pending,
    InProgress,
    Completed,
    Failed(String),
}

/// The progress of one file.
#[derive(Debug)]
pub struct FileTransferProgress {
    pub filename: String,
    pub bytes_processed: u64,
    pub total_bytes: u64,
    pub status: TransferStatus,
}

} // verus!
