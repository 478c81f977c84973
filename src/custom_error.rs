//! The errors an extraction run can end with.
use vstd::prelude::*;

verus! {

#[derive(Debug)]
pub enum CustomError {
    /// A statement failed at run time; carries the driver's message.
    DbQueryExecution(String),
    /// The catalog could not be read for a table, or returned an unexpected shape.
    DbTableStructure,
    DbConnection,
    /// The configured database technology is not supported.
    DbTechnology,
    FileCreationError,
    FileDataInsertionError,
    FolderCreationError,
    NotImplemented,
}

pub type CustomResult<T> = Result<T, CustomError>;

} // verus!
