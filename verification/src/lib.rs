//! A generator for hardware description source text: entities,
//! interfaces, architectures and instances are assembled in memory,
//! wired up by a best-effort name and class matching engine, and
//! rendered to indented text through contracts that pin the output down
//! to the byte.

pub mod comment;
pub mod element;
pub mod ordered_set;
pub mod text_util;
pub mod util;
pub mod vhdl;
