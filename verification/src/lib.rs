//! Synthetic delimited-text exports under byte-size budgets.
//!
//! A schema is built from the leaves up: [`Column`]s describe the values of
//! a row, a [`Table`] holds columns, an identifier, a delimiter and a share
//! of the file, and an [`ExportFile`] holds tables whose shares make up the
//! whole file. An export file generates its text table by table, a table
//! row by row, on a pool of workers, and joins the pieces in declared
//! order.
//!
//! Generated values are random. The contracts therefore describe the set
//! of texts that a call can return, and say exactly when a call fails.

pub mod column;
pub mod decimal;
pub mod export;
mod parallel;
mod random;
pub mod row;
pub mod size;
pub mod table;
pub mod text;
pub mod value;

pub use crate::column::{Column, ColumnError, ColumnTypes};
pub use crate::export::{ExportFile, ExportFileError};
pub use crate::table::Table;
pub use crate::value::{rand_date, rand_number_of_len, rand_string_of_len, NumberGeneratorError};
