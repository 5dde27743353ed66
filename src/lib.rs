//! Values for a template engine: the dynamic `Value` a template expression
//! produces or accepts, the `Number` it holds, and the conversions between
//! native data and values (`ToValue` lifts, `FromValue` lowers).
//!
//! Floats are carried by their IEEE-754 encodings (`Binary64`, `Binary32`).

pub mod binary;
pub mod laws;
pub mod lift;
pub mod lower;
pub mod map;
pub mod number;
pub mod value;

pub use crate::binary::{Binary32, Binary64};
pub use crate::lift::ToValue;
pub use crate::lower::{FromValue, from_value};
pub use crate::map::StringMap;
pub use crate::number::{Num, Number};
pub use crate::value::{FuncError, Function, Value};
