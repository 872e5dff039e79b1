use vstd::prelude::*;

verus! {

/// Every way an operation of this library can fail. Paths and the messages of
/// the columnar decoder are carried as text.
#[derive(Debug, Clone, PartialEq, Eq)]
pub enum PQRSError {
    FileNotFound(String),
    CouldNotOpenFile(String),
    FileExists(String),
    ParquetError(String),
    UnableToReadNumber(String),
    UnableProcessFile(String),
    ArrowReadWriteError(String),
    UnsupportedOperation(),
    SerdeJsonError(String),
    UTF8ConvertError(String),
    BufferWriteError(String),
}

} // verus!
