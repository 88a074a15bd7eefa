//! Shift rotations: a small text format that names shifts and lays them out
//! in a cyclic weekly table, its parser and resolver, and the expansion of a
//! resolved rotation into dated shift occurrences.

pub mod expand;
pub mod grammar;
pub mod lexical;
pub mod resolve;
pub mod shift;

pub use expand::{expand, Date, Occurrence};
pub use grammar::parse_syntax;
pub use resolve::{parse_spd, resolve};
pub use shift::{ClockTime, ParsedShiftDay, Shift, ShiftDay, ShiftPattern, SpdError};
