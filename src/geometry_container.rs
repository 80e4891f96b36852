use vstd::prelude::*;
use crate::error::EwkbError;
use crate::ewkb::{
    decode_geometry, enc_geometry, model_dim, parse_model_body, read_top_header, GeometryType,
    TYPE_MASK,
};
use crate::geometrycollection::{read_collection_fueled, write_geometry_collection};
use crate::linestring::{read_linestring_body, write_linestring};
use crate::multiline::{read_multiline_body, write_multiline};
use crate::multipoint::{read_multi_point_body, write_multi_point};
use crate::multipolygon::{polygons_fit, read_multi_polygon_body, write_multi_polygon};
use crate::points::{read_point_coordinates, write_point};
use crate::polygon::{read_polygon_body, rings_fit, write_polygon};
use crate::types::{GeometryContainer, GeometryModel, PointT};
use crate::wire::{agrees_view, outcome_view};

verus! {

/// Every count the geometry needs fits 32 bits.
pub open spec fn model_fits<T>(g: GeometryModel<T>) -> bool
    decreases g,
{
    match g {
        GeometryModel::Point(_) => true,
        GeometryModel::LineString(ps) => ps.len() <= u32::MAX,
        GeometryModel::Polygon(rs) => rings_fit(rs),
        GeometryModel::MultiPoint(ps) => ps.len() <= u32::MAX,
        GeometryModel::MultiLineString(ls) => rings_fit(ls),
        GeometryModel::MultiPolygon(ps) => polygons_fit(ps),
        GeometryModel::GeometryCollection(gs) => gs.len() <= u32::MAX && forall|i: int|
            0 <= i < gs.len() ==> model_fits(#[trigger] gs[i]),
    }
}

impl<T: PointT> GeometryContainer<T> {
    /// The dimension flags of the geometry held.
    pub fn dimension(&self) -> (r: u32)
        ensures
            r == model_dim(self@),
        decreases self,
    {
        match self {
            GeometryContainer::Point(g) => g.dimension(),
            GeometryContainer::LineString(g) => g.dimension(),
            GeometryContainer::Polygon(g) => g.dimension(),
            GeometryContainer::MultiPoint(g) => g.dimension(),
            GeometryContainer::MultiLineString(g) => g.dimension(),
            GeometryContainer::MultiPolygon(g) => g.dimension(),
            GeometryContainer::GeometryCollection(g) => g.dimension(),
        }
    }
}

/// Writes the geometry held, with its envelope.
pub fn write_geometry_container<T: PointT>(geometry_container: &GeometryContainer<T>, srid: Option<u32>, out: &mut Vec<u8>)
    requires
        model_fits(geometry_container@),
    ensures
        final(out)@ == old(out)@ + enc_geometry(geometry_container@, srid, true),
    decreases geometry_container,
{
    match geometry_container {
        GeometryContainer::Point(g) => write_point(g, srid, out),
        GeometryContainer::LineString(g) => write_linestring(g, srid, out),
        GeometryContainer::Polygon(g) => write_polygon(g, srid, out),
        GeometryContainer::MultiPoint(g) => write_multi_point(g, srid, out),
        GeometryContainer::MultiLineString(g) => write_multiline(g, srid, out),
        GeometryContainer::MultiPolygon(g) => write_multi_polygon(g, srid, out),
        GeometryContainer::GeometryCollection(g) => write_geometry_collection(g, srid, out),
    }
}

/// Decodes a top-level geometry of any kind whose SRID must be `expected`.
pub fn read_geometry_container<T: PointT>(buf: &[u8], expected: u32) -> (r: Result<GeometryContainer<T>, EwkbError>)
    ensures
        outcome_view(r, decode_geometry::<T>(buf@, expected)),
{
    let (h, start) = read_top_header(buf, expected)?;
    let mut pos: usize = start;
    read_container_body(h.g_type, buf, &mut pos, h.little, Ghost(buf@.len()))
}

/// Reads the payload of the geometry whose type word is `g_type`. `fuel`
/// exceeds the bytes left, which bounds the nesting of collections.
pub fn read_container_body<T: PointT>(g_type: u32, buf: &[u8], pos: &mut usize, little: bool, Ghost(fuel): Ghost<nat>) -> (r: Result<GeometryContainer<T>, EwkbError>)
    requires
        *old(pos) <= buf@.len(),
        fuel > buf@.len() - *old(pos),
    ensures
        *final(pos) <= buf@.len(),
        *old(pos) <= *final(pos),
        agrees_view(r, *final(pos), parse_model_body::<T>(buf@, *old(pos) as int, little, g_type, fuel)),
    decreases fuel, 0nat,
{
    match GeometryType::of_word(g_type) {
        None => Err(EwkbError::UnknownGeometryType(g_type & TYPE_MASK)),
        Some(GeometryType::Point) => {
            let p = read_point_coordinates::<T>(buf, pos, little, g_type)?;
            Ok(GeometryContainer::Point(p))
        },
        Some(GeometryType::LineString) => {
            let g = read_linestring_body::<T>(g_type, buf, pos, little)?;
            Ok(GeometryContainer::LineString(g))
        },
        Some(GeometryType::Polygon) => {
            let g = read_polygon_body::<T>(g_type, buf, pos, little)?;
            Ok(GeometryContainer::Polygon(g))
        },
        Some(GeometryType::MultiPoint) => {
            let g = read_multi_point_body::<T>(g_type, buf, pos, little)?;
            Ok(GeometryContainer::MultiPoint(g))
        },
        Some(GeometryType::MultiLineString) => {
            let g = read_multiline_body::<T>(g_type, buf, pos, little)?;
            Ok(GeometryContainer::MultiLineString(g))
        },
        Some(GeometryType::MultiPolygon) => {
            let g = read_multi_polygon_body::<T>(g_type, buf, pos, little)?;
            Ok(GeometryContainer::MultiPolygon(g))
        },
        Some(GeometryType::GeometryCollection) => {
            if buf.len() - *pos < 4 {
                return Err(EwkbError::UnexpectedEnd);
            }
            let g = read_collection_fueled::<T>(buf, pos, little, Ghost((fuel - 1) as nat))?;
            Ok(GeometryContainer::GeometryCollection(g))
        },
    }
}

} // verus!
