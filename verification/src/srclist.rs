//! Text source-list formats.

pub mod convert;
pub mod rts;
pub mod woden;
