//! Verified core of the MWA hyperdrive calibration tools: uvfits baseline
//! encoding, input-file classification, interval guessing, and the text
//! source-list formats (RTS reading, WODEN writing).

pub mod filenames;
pub mod helpers;
pub mod modeller;
pub mod params;
pub mod rts_solutions;
pub mod srclist;
pub mod text;
pub mod uvfits;
