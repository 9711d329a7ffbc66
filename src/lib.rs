//! Planar geometry on integer coordinates: axis-aligned rectangles and the
//! DE-9IM intersection matrix that classifies how two geometries relate.

pub mod faces;
pub mod intersection_matrix;
pub mod rect;
pub mod relate;
