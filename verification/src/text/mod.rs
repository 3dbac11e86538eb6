//! Character-level text operations and their mathematical models.
pub mod facts;
pub mod model;
pub mod number;
pub mod ops;
pub mod table;
