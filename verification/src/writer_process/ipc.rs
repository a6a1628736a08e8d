use vstd::prelude::*;

verus! {

/// What can go wrong while writing or verifying a disk.
#[derive(Debug, PartialEq, Eq, Structural, Clone, Copy)]
pub enum ErrorType {
    /// The disk ended before the input did.
    EndOfOutput,
    /// The disk does not hold what was written.
    VerificationFailed,
    /// The writer stopped reporting before it finished.
    UnexpectedTermination,
}

/// What the writer reports once it has opened its input and output.
#[derive(Debug, PartialEq, Eq, Structural, Clone, Copy)]
pub struct InitialInfo {
    pub input_file_bytes: u64,
}

/// A progress report from the writer.
#[derive(Debug, PartialEq, Eq, Structural, Clone, Copy)]
pub enum StatusMessage {
    InitSuccess(InitialInfo),
    /// Bytes read from the input and written to (or read from) the disk.
    TotalBytes { src: u64, dest: u64 },
    FinishedWriting { verifying: bool },
    Error(ErrorType),
    Success,
}

} // verus!
