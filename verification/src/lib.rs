//! Procedural generation of a small square RGBA8 debug texture: each row of
//! the bitmap holds a fixed color palette, cyclically rotated one color slot
//! further than the row above, which renders as diagonal color bands.

pub mod texture;
