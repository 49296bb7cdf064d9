//! What is known of a documented C++ class, and the conventions its
//! documentation and naming are held to.

pub mod attribute;
pub mod check;
pub mod class;
pub mod classes;
pub mod common;
pub mod enumerated;
pub mod finding;
pub mod function;
pub mod functions;
pub mod initial;
pub mod members;
pub mod project;
pub mod reading;
pub mod writer;
