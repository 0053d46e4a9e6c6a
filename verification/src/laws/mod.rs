//! What holds of the library as a whole: laws on what becomes of messages, tables, values and
//! errors, stated in terms of what goes in and what comes out.

pub mod decoding;
pub mod errors;
pub mod routes;
pub mod routing;
pub mod rows;
pub mod sink;
pub mod tables;
