//! Parsing of duration literals: a floating-point magnitude followed by an
//! optional unit letter (`t` for ticks, `s` for seconds, `d` for days),
//! read from a cursor over a character sequence.

pub mod cursor;
pub mod float_syntax;
pub mod time;
