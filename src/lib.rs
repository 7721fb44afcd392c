//! A typed model of SVG path data: drawing commands collected by a builder and
//! rendered in the compact textual syntax that SVG renderers read.
pub mod command;
pub mod data;
pub mod number;

pub use command::{Command, IntoNumber, IntoParameters, Parameters, Position};
pub use data::Data;
pub use number::Number;
