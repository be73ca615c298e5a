pub mod dedup;
pub mod normalize;
pub mod photos;
