//! Retiming of a subtitle track against a reference track: the steps between
//! the time stamps read from two subtitle files and the corrected time stamps
//! that are written back.
//!
//! A retiming takes the lines of both tracks to whole alignment units
//! (`normalizer`, `discretizer`), hands them to an alignment, takes the
//! offsets it found back to milliseconds (`discretizer`), keeps lines from
//! starting before zero (`corrector`) and moves each line by its offset
//! (`assembler`). What was shifted together is reported by `grouper`.
//! `pipeline` takes these steps in their order, after `arguments` and
//! `formats` have found the request in order.
//!
//! The alignment itself, the reading and writing of subtitle files and the
//! command line are left to the caller.

pub mod arguments;
pub mod assembler;
pub mod corrector;
pub mod discretizer;
pub mod errors;
pub mod formats;
pub mod grouper;
pub mod normalizer;
pub mod pipeline;
pub mod timetypes;
