//! Core of a tile-map editor: atlas addressing, the map grid, palette
//! picking, mesh construction, grid overlay and the flattened export.
pub mod atlas;
pub mod tilemap;
pub mod palette;
pub mod mesh;
pub mod pixels;
pub mod export;
pub mod grid;
pub mod editor;
