//! Importing tabular files (delimited text, JSON, Excel) into database tables.
pub mod options;
pub mod inference;
pub mod mapping;
pub mod rows;
pub mod encoding;
pub mod json_rows;
pub mod sql;
pub mod requests;
pub mod xlsx;
pub mod flow;
pub mod xlsx_xml;
pub mod xlsx_rows;
