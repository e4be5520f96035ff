//! Warehouse navigation extracted from a vector floor plan.
//!
//! The drawing is modelled as an arena of nodes with exact rational
//! geometry (`document`).  One designated group holds the navigation
//! graph: its circles are route points and its two-vertex paths are
//! connections (`route`).  Shelf markers anywhere in the drawing are
//! resolved through their accumulated affine transforms (`transform`),
//! projected onto the nearest route connection (`vec2`, `shelves`) and
//! aggregated into corridors with exact average positions.

pub mod document;
pub mod error;
pub mod rat;
pub mod route;
pub mod shelves;
pub mod transform;
pub mod vec2;
