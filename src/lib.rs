//! Placement and export planning for vector drawings on a machine bed.
//!
//! - `units`, `resolve`: the physical size of a drawing from its declared
//!   lengths, overrides or bounding box.
//! - `placement`, `drag`: scale and offset of a drawing, its footprint, whether
//!   it fits the bed, and dragging it within the bed.
//! - `export`, `archive`: per-drawing conversion parameters, file names, and
//!   packaging of one toolpath file or an archive of several.
//! - `settings`: the versioned settings record and its upgrade.
//! - `decimal`: decimals, with optional exponent, read as thousandths rounded
//!   toward zero.
//!
//! All physical lengths are exact integers counted in quanta: one millimetre is
//! `QUANTA_PER_MM` quanta, and a thousandth of every supported unit is a whole
//! number of quanta, so no unit conversion in this library rounds.
use vstd::prelude::*;

pub mod units;
pub mod resolve;
pub mod placement;
pub mod drag;
pub mod export;
pub mod settings;
pub mod decimal;
pub mod archive;
