//! Verified core of a service-manager command-line tool: parsing of the two
//! supervisors' listing output, aggregation, candidate filtering, label and
//! command construction, and status classification.
pub mod aggregate;
pub mod control;
pub mod parse;
pub mod select;
pub mod record;
pub mod text;
