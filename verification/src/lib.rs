//! Filters over resources, in the grammar of SCIM (RFC 7644, section 3.4.2.2): a
//! filter is read from text into a syntax tree, and the tree is applied to resources
//! given as JSON values.

pub mod datetime;
pub mod decimal;
pub mod error;
pub mod json;
pub mod matcher;
pub mod parser;
pub mod text;

pub use error::Error;
pub use matcher::scim_filter;
