//! Developer tools as a library.
//!
//! - `mesh`: loading a triangulated surface from its binary description,
//!   welding its vertices, and planning a point cloud of exactly the size
//!   asked for.
//! - `cpp`: the documentation of C++ classes as Doxygen writes it, and the
//!   conventions it is held to.
//! - `filters`: the filter list of a Visual Studio project, kept up to date
//!   with the files of the project.
//! - `formatting`: which sources are formatted, and what becomes of the
//!   formatter's output.
//! - `matrix`: four by four matrices read from text.
//! - `markup`, `order`, `text`, `chance`: XML events, ranking, text and
//!   random numbers, which the others rest on.

pub mod chance;
pub mod cpp;
pub mod filters;
pub mod formatting;
pub mod markup;
pub mod matrix;
pub mod mesh;
pub mod order;
pub mod text;
