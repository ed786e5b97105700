pub mod bonds;
pub mod duration;
pub mod spreads;
pub mod sscmfi;
pub mod yields;
