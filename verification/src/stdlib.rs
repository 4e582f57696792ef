//! The built-in native functions: array, string, conversion, math, stack,
//! test, runtime, iteration and mapping helpers, and string formatting.
//! Each module registers its natives under `module:function` names.

pub mod array;
pub mod convert;
pub mod io;
pub mod iter;
pub mod math;
pub mod runtime;
pub mod stack;
pub mod stdfns;
pub mod string;
pub mod test;
