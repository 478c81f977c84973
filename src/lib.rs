//! Extraction of a foreign-key closed subset of rows as SQL INSERT scripts.
//!
//! From catalog metadata and a business scope the library builds, for each
//! configured table, a SELECT statement that narrows the root table by the
//! scope and every referenced table by an `IN` subquery; from the fetched
//! rows it builds the INSERT statements that reload them. Reading the
//! catalog, running statements and writing files is left to the caller.
pub mod config;
pub mod custom_error;
pub mod generators;
pub mod insert;
pub mod literal;
pub mod providers;
pub mod redshift;
pub mod saver;
pub mod schema;
pub mod select;
pub mod text;
