//! Pairwise match scoring. Each component works out what it can from the two
//! profiles exactly: which roles, interests and axes line up, how far apart
//! the two sit on each ladder, and the sentence that explains it. The point
//! arithmetic over those quantities is floating point and happens outside.
pub mod geography;
pub mod interests;
pub mod profile;
pub mod roles;
pub mod score;
pub mod situation;
pub mod traits;
