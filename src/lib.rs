//! Encoding and decoding of spatial geometries in the Extended Well-Known
//! Binary (EWKB) format used by PostGIS.
//!
//! Coordinates are held as the bit patterns of IEEE-754 doubles (`u64`), so
//! that every value survives an encode/decode cycle bit for bit.
pub mod error;
pub mod wire;
pub mod types;
pub mod points;
pub mod ewkb;
pub mod linestring;
pub mod multipoint;
pub mod polygon;
pub mod multiline;
pub mod multipolygon;
pub mod geometry_container;
pub mod geometrycollection;
pub mod laws;
