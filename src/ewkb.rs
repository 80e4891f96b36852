use vstd::prelude::*;
use crate::error::{DecodeFailure, EwkbError};
use crate::types::{
    point_dim, points_dim, polygons_dim, rings_dim, GeometryModel, PointT, M_FLAG, Z_FLAG,
};
use crate::wire::{
    agrees, long_bytes, value_of, parse_skip, parse_u32, parse_u64, read_u32, word_bytes, write_u32,
    Parsed,
};

verus! {

/// Byte-order marker of big-endian data.
pub const BIG_ENDIAN: u8 = 0;

/// Byte-order marker of little-endian data.
pub const LITTLE_ENDIAN: u8 = 1;

/// Flag bit of the type word: an SRID word follows it.
pub const SRID_FLAG: u32 = 0x2000_0000;

/// The bits of the type word that hold the geometry type code.
pub const TYPE_MASK: u32 = 0x1FFF_FFFF;

/// The kinds of geometry and their codes in the type word.
#[derive(Copy, Clone, Debug, PartialEq, Eq, Structural)]
pub enum GeometryType {
    Point,
    LineString,
    Polygon,
    MultiPoint,
    MultiLineString,
    MultiPolygon,
    GeometryCollection,
}

impl GeometryType {
    pub open spec fn spec_code(self) -> u32 {
        match self {
            GeometryType::Point => 1,
            GeometryType::LineString => 2,
            GeometryType::Polygon => 3,
            GeometryType::MultiPoint => 4,
            GeometryType::MultiLineString => 5,
            GeometryType::MultiPolygon => 6,
            GeometryType::GeometryCollection => 7,
        }
    }

    pub fn code(&self) -> (r: u32)
        ensures
            r == self.spec_code(),
    {
        match self {
            GeometryType::Point => 1,
            GeometryType::LineString => 2,
            GeometryType::Polygon => 3,
            GeometryType::MultiPoint => 4,
            GeometryType::MultiLineString => 5,
            GeometryType::MultiPolygon => 6,
            GeometryType::GeometryCollection => 7,
        }
    }

    /// The type whose code stands in the type word, if any.
    pub open spec fn spec_of_word(t: u32) -> Option<GeometryType> {
        let c = t & TYPE_MASK;
        if c == 1 {
            Some(GeometryType::Point)
        } else if c == 2 {
            Some(GeometryType::LineString)
        } else if c == 3 {
            Some(GeometryType::Polygon)
        } else if c == 4 {
            Some(GeometryType::MultiPoint)
        } else if c == 5 {
            Some(GeometryType::MultiLineString)
        } else if c == 6 {
            Some(GeometryType::MultiPolygon)
        } else if c == 7 {
            Some(GeometryType::GeometryCollection)
        } else {
            None
        }
    }

    pub fn of_word(t: u32) -> (r: Option<GeometryType>)
        ensures
            r == Self::spec_of_word(t),
    {
        let c = t & TYPE_MASK;
        if c == 1 {
            Some(GeometryType::Point)
        } else if c == 2 {
            Some(GeometryType::LineString)
        } else if c == 3 {
            Some(GeometryType::Polygon)
        } else if c == 4 {
            Some(GeometryType::MultiPoint)
        } else if c == 5 {
            Some(GeometryType::MultiLineString)
        } else if c == 6 {
            Some(GeometryType::MultiPolygon)
        } else if c == 7 {
            Some(GeometryType::GeometryCollection)
        } else {
            None
        }
    }
}

pub open spec fn has_flag(t: u32, f: u32) -> bool {
    t & f == f
}

/// What the envelope of a geometry says: byte order, type word and SRID.
#[derive(Copy, Clone, Debug, PartialEq, Eq, Structural)]
pub struct EwkbHeader {
    pub little: bool,
    pub g_type: u32,
    pub srid: Option<u32>,
}

pub open spec fn marker(little: bool) -> u8 {
    if little {
        LITTLE_ENDIAN
    } else {
        BIG_ENDIAN
    }
}

/// The envelope: marker, type word (with the SRID flag when an SRID is
/// embedded) and the SRID word.
pub open spec fn enc_header(g_type: u32, srid: Option<u32>, little: bool) -> Seq<u8> {
    match srid {
        Some(s) => seq![marker(little)] + word_bytes(g_type | SRID_FLAG, little) + word_bytes(
            s,
            little,
        ),
        None => seq![marker(little)] + word_bytes(g_type, little),
    }
}

/// Marker, type word, and the SRID word if the type word flags one. Any
/// marker but the big-endian one is read as little-endian.
pub open spec fn parse_header(s: Seq<u8>, i: int) -> Parsed<EwkbHeader> {
    if !(0 <= i < s.len()) {
        Err(DecodeFailure::UnexpectedEnd)
    } else {
        let little = s[i] != BIG_ENDIAN;
        match parse_u32(s, i + 1, little) {
            Err(e) => Err(e),
            Ok((t, j)) => if has_flag(t, SRID_FLAG) {
                match parse_u32(s, j, little) {
                    Err(e) => Err(e),
                    Ok((srid, k)) => Ok((EwkbHeader { little, g_type: t, srid: Some(srid) }, k)),
                }
            } else {
                Ok((EwkbHeader { little, g_type: t, srid: None }, j))
            },
        }
    }
}

/// The envelope of a top-level geometry, whose SRID must be the expected one.
pub open spec fn parse_top(s: Seq<u8>, expected: u32) -> Parsed<EwkbHeader> {
    match parse_header(s, 0) {
        Err(e) => Err(e),
        Ok((h, j)) => if h.srid == Some(expected) {
            Ok((h, j))
        } else {
            Err(DecodeFailure::Srid(h.srid, expected))
        },
    }
}

pub fn read_ewkb_header(buf: &[u8], pos: &mut usize) -> (r: Result<EwkbHeader, EwkbError>)
    requires
        *old(pos) <= buf@.len(),
    ensures
        *final(pos) <= buf@.len(),
        *old(pos) <= *final(pos),
        agrees(r, *final(pos), parse_header(buf@, *old(pos) as int)),
{
    if *pos >= buf.len() {
        return Err(EwkbError::UnexpectedEnd);
    }
    let little = buf[*pos] != BIG_ENDIAN;
    *pos = *pos + 1;
    let g_type = read_u32(buf, pos, little)?;
    if g_type & SRID_FLAG == SRID_FLAG {
        let srid = read_u32(buf, pos, little)?;
        Ok(EwkbHeader { little, g_type, srid: Some(srid) })
    } else {
        Ok(EwkbHeader { little, g_type, srid: None })
    }
}

/// Reads the envelope of a top-level geometry and checks its SRID.
pub fn read_top_header(buf: &[u8], expected: u32) -> (r: Result<(EwkbHeader, usize), EwkbError>)
    ensures
        match parse_top(buf@, expected) {
            Ok((h, j)) => r == Ok::<(EwkbHeader, usize), EwkbError>((h, j as usize)) && j
                <= buf@.len(),
            Err(e) => r is Err && r->Err_0@ == e,
        },
{
    let mut pos: usize = 0;
    let h = read_ewkb_header(buf, &mut pos)?;
    match crate::error::check_srid(h.srid, expected) {
        Ok(()) => Ok((h, pos)),
        Err(e) => Err(EwkbError::Srid(e)),
    }
}

/// Writes the envelope, always little-endian.
pub fn write_ewkb_header(g_type: u32, srid: Option<u32>, out: &mut Vec<u8>)
    ensures
        final(out)@ == old(out)@ + enc_header(g_type, srid, true),
{
    out.push(LITTLE_ENDIAN);
    match srid {
        Some(s) => {
            write_u32(out, g_type | SRID_FLAG);
            write_u32(out, s);
        },
        None => {
            write_u32(out, g_type);
        },
    }
    assert(final(out)@ =~= old(out)@ + enc_header(g_type, srid, true));
}

// The payloads, as written in a given byte order.

pub open spec fn count_bytes(n: nat, little: bool) -> Seq<u8> {
    word_bytes(n as u32, little)
}

pub open spec fn opt_bytes(v: Option<u64>, little: bool) -> Seq<u8> {
    match v {
        Some(v) => long_bytes(v, little),
        None => Seq::empty(),
    }
}

/// The coordinates of a point in the order x, y, z, m.
pub open spec fn enc_coords<T: PointT>(p: T, little: bool) -> Seq<u8> {
    long_bytes(p.spec_x(), little) + long_bytes(p.spec_y(), little) + opt_bytes(p.spec_z(), little)
        + opt_bytes(p.spec_m(), little)
}

pub open spec fn enc_points<T: PointT>(ps: Seq<T>, little: bool) -> Seq<u8>
    decreases ps.len(),
{
    if ps.len() == 0 {
        Seq::empty()
    } else {
        enc_points(ps.drop_last(), little) + enc_coords(ps.last(), little)
    }
}

/// The type word of a point of variant `T`.
pub open spec fn point_word<T: PointT>() -> u32 {
    1u32 | point_dim::<T>()
}

/// Points each under an envelope without SRID.
pub open spec fn enc_point_elems<T: PointT>(ps: Seq<T>, little: bool) -> Seq<u8>
    decreases ps.len(),
{
    if ps.len() == 0 {
        Seq::empty()
    } else {
        enc_point_elems(ps.drop_last(), little) + enc_header(point_word::<T>(), None, little)
            + enc_coords(ps.last(), little)
    }
}

/// A count, then that many points.
pub open spec fn linestring_body<T: PointT>(ps: Seq<T>, little: bool) -> Seq<u8> {
    count_bytes(ps.len(), little) + enc_points(ps, little)
}

pub open spec fn multipoint_body<T: PointT>(ps: Seq<T>, little: bool) -> Seq<u8> {
    count_bytes(ps.len(), little) + enc_point_elems(ps, little)
}

pub open spec fn enc_rings<T: PointT>(rs: Seq<Seq<T>>, little: bool) -> Seq<u8>
    decreases rs.len(),
{
    if rs.len() == 0 {
        Seq::empty()
    } else {
        enc_rings(rs.drop_last(), little) + linestring_body(rs.last(), little)
    }
}

/// A count, then that many rings, each a count and its points.
pub open spec fn polygon_body<T: PointT>(rs: Seq<Seq<T>>, little: bool) -> Seq<u8> {
    count_bytes(rs.len(), little) + enc_rings(rs, little)
}

pub open spec fn enc_lines<T: PointT>(ls: Seq<Seq<T>>, little: bool) -> Seq<u8>
    decreases ls.len(),
{
    if ls.len() == 0 {
        Seq::empty()
    } else {
        enc_lines(ls.drop_last(), little) + enc_header(2u32 | points_dim(ls.last()), None, little)
            + linestring_body(ls.last(), little)
    }
}

pub open spec fn multiline_body<T: PointT>(ls: Seq<Seq<T>>, little: bool) -> Seq<u8> {
    count_bytes(ls.len(), little) + enc_lines(ls, little)
}

pub open spec fn enc_polygons<T: PointT>(ps: Seq<Seq<Seq<T>>>, little: bool) -> Seq<u8>
    decreases ps.len(),
{
    if ps.len() == 0 {
        Seq::empty()
    } else {
        enc_polygons(ps.drop_last(), little) + enc_header(3u32 | rings_dim(ps.last()), None, little)
            + polygon_body(ps.last(), little)
    }
}

pub open spec fn multipolygon_body<T: PointT>(ps: Seq<Seq<Seq<T>>>, little: bool) -> Seq<u8> {
    count_bytes(ps.len(), little) + enc_polygons(ps, little)
}

pub open spec fn model_type<T>(g: GeometryModel<T>) -> GeometryType {
    match g {
        GeometryModel::Point(_) => GeometryType::Point,
        GeometryModel::LineString(_) => GeometryType::LineString,
        GeometryModel::Polygon(_) => GeometryType::Polygon,
        GeometryModel::MultiPoint(_) => GeometryType::MultiPoint,
        GeometryModel::MultiLineString(_) => GeometryType::MultiLineString,
        GeometryModel::MultiPolygon(_) => GeometryType::MultiPolygon,
        GeometryModel::GeometryCollection(_) => GeometryType::GeometryCollection,
    }
}

/// The dimension flags of a geometry: those of its first point, if it has one
/// where the first elements lead.
pub open spec fn model_dim<T: PointT>(g: GeometryModel<T>) -> u32
    decreases g,
{
    match g {
        GeometryModel::Point(_) => point_dim::<T>(),
        GeometryModel::LineString(ps) => points_dim(ps),
        GeometryModel::Polygon(rs) => rings_dim(rs),
        GeometryModel::MultiPoint(ps) => points_dim(ps),
        GeometryModel::MultiLineString(ls) => rings_dim(ls),
        GeometryModel::MultiPolygon(ps) => polygons_dim(ps),
        GeometryModel::GeometryCollection(gs) => if gs.len() > 0 {
            model_dim(gs[0])
        } else {
            0
        },
    }
}

/// The type word of a geometry: its type code and its dimension flags.
pub open spec fn model_word<T: PointT>(g: GeometryModel<T>) -> u32 {
    model_type(g).spec_code() | model_dim(g)
}

pub open spec fn model_body<T: PointT>(g: GeometryModel<T>, little: bool) -> Seq<u8>
    decreases g,
{
    match g {
        GeometryModel::Point(p) => enc_coords(p, little),
        GeometryModel::LineString(ps) => linestring_body(ps, little),
        GeometryModel::Polygon(rs) => polygon_body(rs, little),
        GeometryModel::MultiPoint(ps) => multipoint_body(ps, little),
        GeometryModel::MultiLineString(ls) => multiline_body(ls, little),
        GeometryModel::MultiPolygon(ps) => multipolygon_body(ps, little),
        GeometryModel::GeometryCollection(gs) => count_bytes(gs.len(), little) + enc_models(
            gs,
            little,
        ),
    }
}

/// Geometries each under an envelope without SRID.
pub open spec fn enc_models<T: PointT>(gs: Seq<GeometryModel<T>>, little: bool) -> Seq<u8>
    decreases gs,
{
    if gs.len() == 0 {
        Seq::empty()
    } else {
        let g = gs[gs.len() - 1];
        enc_models(gs.drop_last(), little) + enc_header(model_word(g), None, little) + model_body(
            g,
            little,
        )
    }
}

/// A whole geometry: envelope, with the SRID if one is given, then payload.
pub open spec fn enc_geometry<T: PointT>(g: GeometryModel<T>, srid: Option<u32>, little: bool) -> Seq<u8> {
    enc_header(model_word(g), srid, little) + model_body(g, little)
}

// Reading the payloads back. Nested envelopes are read past: the type word
// of the enclosing geometry decides which coordinates each point has.

pub open spec fn parse_opt(s: Seq<u8>, i: int, little: bool, present: bool) -> Parsed<Option<u64>> {
    if present {
        match parse_u64(s, i, little) {
            Err(e) => Err(e),
            Ok((v, j)) => Ok((Some(v), j)),
        }
    } else {
        Ok((None, i))
    }
}

/// x and y, then z if the type word has the Z flag, then m if it has the M
/// flag; the point is what the variant's constructor makes of them.
pub open spec fn parse_coords<T: PointT>(s: Seq<u8>, i: int, little: bool, t: u32) -> Parsed<T> {
    match parse_u64(s, i, little) {
        Err(e) => Err(e),
        Ok((x, i1)) => match parse_u64(s, i1, little) {
            Err(e) => Err(e),
            Ok((y, i2)) => match parse_opt(s, i2, little, has_flag(t, Z_FLAG)) {
                Err(e) => Err(e),
                Ok((z, i3)) => match parse_opt(s, i3, little, has_flag(t, M_FLAG)) {
                    Err(e) => Err(e),
                    Ok((m, i4)) => match T::spec_new_point(x, y, z, m) {
                        Ok(p) => Ok((p, i4)),
                        Err(reason) => Err(DecodeFailure::PointConstruction(reason)),
                    },
                },
            },
        },
    }
}

pub open spec fn parse_points<T: PointT>(s: Seq<u8>, i: int, little: bool, t: u32, n: nat) -> Parsed<Seq<T>>
    decreases n,
{
    if n == 0 {
        Ok((Seq::empty(), i))
    } else {
        match parse_points::<T>(s, i, little, t, (n - 1) as nat) {
            Err(e) => Err(e),
            Ok((ps, j)) => match parse_coords::<T>(s, j, little, t) {
                Err(e) => Err(e),
                Ok((p, k)) => Ok((ps.push(p), k)),
            },
        }
    }
}

pub open spec fn parse_linestring_body<T: PointT>(s: Seq<u8>, i: int, little: bool, t: u32) -> Parsed<Seq<T>> {
    match parse_u32(s, i, little) {
        Err(e) => Err(e),
        Ok((n, j)) => parse_points::<T>(s, j, little, t, n as nat),
    }
}

pub open spec fn parse_point_elems<T: PointT>(s: Seq<u8>, i: int, little: bool, t: u32, n: nat) -> Parsed<Seq<T>>
    decreases n,
{
    if n == 0 {
        Ok((Seq::empty(), i))
    } else {
        match parse_point_elems::<T>(s, i, little, t, (n - 1) as nat) {
            Err(e) => Err(e),
            Ok((ps, j)) => match parse_skip(s, j, 5) {
                Err(e) => Err(e),
                Ok(k) => match parse_coords::<T>(s, k, little, t) {
                    Err(e) => Err(e),
                    Ok((p, l)) => Ok((ps.push(p), l)),
                },
            },
        }
    }
}

pub open spec fn parse_multipoint_body<T: PointT>(s: Seq<u8>, i: int, little: bool, t: u32) -> Parsed<Seq<T>> {
    match parse_u32(s, i, little) {
        Err(e) => Err(e),
        Ok((n, j)) => parse_point_elems::<T>(s, j, little, t, n as nat),
    }
}

pub open spec fn parse_rings<T: PointT>(s: Seq<u8>, i: int, little: bool, t: u32, n: nat) -> Parsed<Seq<Seq<T>>>
    decreases n,
{
    if n == 0 {
        Ok((Seq::empty(), i))
    } else {
        match parse_rings::<T>(s, i, little, t, (n - 1) as nat) {
            Err(e) => Err(e),
            Ok((rs, j)) => match parse_linestring_body::<T>(s, j, little, t) {
                Err(e) => Err(e),
                Ok((r, k)) => Ok((rs.push(r), k)),
            },
        }
    }
}

pub open spec fn parse_polygon_body<T: PointT>(s: Seq<u8>, i: int, little: bool, t: u32) -> Parsed<Seq<Seq<T>>> {
    match parse_u32(s, i, little) {
        Err(e) => Err(e),
        Ok((n, j)) => parse_rings::<T>(s, j, little, t, n as nat),
    }
}

pub open spec fn parse_lines<T: PointT>(s: Seq<u8>, i: int, little: bool, t: u32, n: nat) -> Parsed<Seq<Seq<T>>>
    decreases n,
{
    if n == 0 {
        Ok((Seq::empty(), i))
    } else {
        match parse_lines::<T>(s, i, little, t, (n - 1) as nat) {
            Err(e) => Err(e),
            Ok((ls, j)) => match parse_skip(s, j, 5) {
                Err(e) => Err(e),
                Ok(k) => match parse_linestring_body::<T>(s, k, little, t) {
                    Err(e) => Err(e),
                    Ok((l, m)) => Ok((ls.push(l), m)),
                },
            },
        }
    }
}

pub open spec fn parse_multiline_body<T: PointT>(s: Seq<u8>, i: int, little: bool, t: u32) -> Parsed<Seq<Seq<T>>> {
    match parse_u32(s, i, little) {
        Err(e) => Err(e),
        Ok((n, j)) => parse_lines::<T>(s, j, little, t, n as nat),
    }
}

pub open spec fn parse_polygons<T: PointT>(s: Seq<u8>, i: int, little: bool, t: u32, n: nat) -> Parsed<Seq<Seq<Seq<T>>>>
    decreases n,
{
    if n == 0 {
        Ok((Seq::empty(), i))
    } else {
        match parse_polygons::<T>(s, i, little, t, (n - 1) as nat) {
            Err(e) => Err(e),
            Ok((ps, j)) => match parse_skip(s, j, 5) {
                Err(e) => Err(e),
                Ok(k) => match parse_polygon_body::<T>(s, k, little, t) {
                    Err(e) => Err(e),
                    Ok((p, m)) => Ok((ps.push(p), m)),
                },
            },
        }
    }
}

pub open spec fn parse_multipolygon_body<T: PointT>(s: Seq<u8>, i: int, little: bool, t: u32) -> Parsed<Seq<Seq<Seq<T>>>> {
    match parse_u32(s, i, little) {
        Err(e) => Err(e),
        Ok((n, j)) => parse_polygons::<T>(s, j, little, t, n as nat),
    }
}

/// The payload of the geometry whose type word is `t`. `fuel` bounds the
/// nesting of collections; the length of the data is always enough.
pub open spec fn parse_model_body<T: PointT>(s: Seq<u8>, i: int, little: bool, t: u32, fuel: nat) -> Parsed<GeometryModel<T>>
    decreases fuel, 0nat,
{
    match GeometryType::spec_of_word(t) {
        None => Err(DecodeFailure::UnknownGeometryType(t & TYPE_MASK)),
        Some(GeometryType::Point) => match parse_coords::<T>(s, i, little, t) {
            Err(e) => Err(e),
            Ok((p, j)) => Ok((GeometryModel::Point(p), j)),
        },
        Some(GeometryType::LineString) => match parse_linestring_body::<T>(s, i, little, t) {
            Err(e) => Err(e),
            Ok((v, j)) => Ok((GeometryModel::LineString(v), j)),
        },
        Some(GeometryType::Polygon) => match parse_polygon_body::<T>(s, i, little, t) {
            Err(e) => Err(e),
            Ok((v, j)) => Ok((GeometryModel::Polygon(v), j)),
        },
        Some(GeometryType::MultiPoint) => match parse_multipoint_body::<T>(s, i, little, t) {
            Err(e) => Err(e),
            Ok((v, j)) => Ok((GeometryModel::MultiPoint(v), j)),
        },
        Some(GeometryType::MultiLineString) => match parse_multiline_body::<T>(s, i, little, t) {
            Err(e) => Err(e),
            Ok((v, j)) => Ok((GeometryModel::MultiLineString(v), j)),
        },
        Some(GeometryType::MultiPolygon) => match parse_multipolygon_body::<T>(s, i, little, t) {
            Err(e) => Err(e),
            Ok((v, j)) => Ok((GeometryModel::MultiPolygon(v), j)),
        },
        Some(GeometryType::GeometryCollection) => if fuel == 0 {
            Err(DecodeFailure::UnexpectedEnd)
        } else {
            match parse_collection_body::<T>(s, i, little, (fuel - 1) as nat) {
                Err(e) => Err(e),
                Ok((v, j)) => Ok((GeometryModel::GeometryCollection(v), j)),
            }
        },
    }
}

/// A count, then that many geometries, each under its own envelope.
pub open spec fn parse_collection_body<T: PointT>(s: Seq<u8>, i: int, little: bool, fuel: nat) -> Parsed<Seq<GeometryModel<T>>>
    decreases fuel, 0x1_0000_0002nat,
{
    match parse_u32(s, i, little) {
        Err(e) => Err(e),
        Ok((n, j)) => parse_models::<T>(s, j, little, n as nat, fuel),
    }
}

/// One nested geometry: its marker is passed over (the enclosing byte order
/// holds), its type word read, an SRID word passed over if flagged, then its
/// payload.
pub open spec fn parse_nested<T: PointT>(s: Seq<u8>, i: int, little: bool, fuel: nat) -> Parsed<GeometryModel<T>>
    decreases fuel, 1nat,
{
    match parse_skip(s, i, 1) {
        Err(e) => Err(e),
        Ok(j) => match parse_u32(s, j, little) {
            Err(e) => Err(e),
            Ok((t, k)) => {
                let l = if has_flag(t, SRID_FLAG) { parse_skip(s, k, 4) } else { Ok(k) };
                match l {
                    Err(e) => Err(e),
                    Ok(l) => parse_model_body::<T>(s, l, little, t, fuel),
                }
            },
        },
    }
}

pub open spec fn parse_models<T: PointT>(s: Seq<u8>, i: int, little: bool, n: nat, fuel: nat) -> Parsed<Seq<GeometryModel<T>>>
    decreases fuel, n + 2,
{
    if n == 0 {
        Ok((Seq::empty(), i))
    } else {
        match parse_models::<T>(s, i, little, (n - 1) as nat, fuel) {
            Err(e) => Err(e),
            Ok((gs, j)) => match parse_nested::<T>(s, j, little, fuel) {
                Err(e) => Err(e),
                Ok((g, k)) => Ok((gs.push(g), k)),
            },
        }
    }
}

/// A top-level geometry: envelope with the expected SRID, then the payload
/// that `body` reads after position `j` in the envelope's byte order.
pub open spec fn decode_point<T: PointT>(s: Seq<u8>, expected: u32) -> Result<T, DecodeFailure> {
    match parse_top(s, expected) {
        Err(e) => Err(e),
        Ok((h, j)) => value_of(parse_coords::<T>(s, j, h.little, h.g_type)),
    }
}

pub open spec fn decode_linestring<T: PointT>(s: Seq<u8>, expected: u32) -> Result<Seq<T>, DecodeFailure> {
    match parse_top(s, expected) {
        Err(e) => Err(e),
        Ok((h, j)) => value_of(parse_linestring_body::<T>(s, j, h.little, h.g_type)),
    }
}

pub open spec fn decode_multipoint<T: PointT>(s: Seq<u8>, expected: u32) -> Result<Seq<T>, DecodeFailure> {
    match parse_top(s, expected) {
        Err(e) => Err(e),
        Ok((h, j)) => value_of(parse_multipoint_body::<T>(s, j, h.little, h.g_type)),
    }
}

pub open spec fn decode_polygon<T: PointT>(s: Seq<u8>, expected: u32) -> Result<Seq<Seq<T>>, DecodeFailure> {
    match parse_top(s, expected) {
        Err(e) => Err(e),
        Ok((h, j)) => value_of(parse_polygon_body::<T>(s, j, h.little, h.g_type)),
    }
}

pub open spec fn decode_multiline<T: PointT>(s: Seq<u8>, expected: u32) -> Result<Seq<Seq<T>>, DecodeFailure> {
    match parse_top(s, expected) {
        Err(e) => Err(e),
        Ok((h, j)) => value_of(parse_multiline_body::<T>(s, j, h.little, h.g_type)),
    }
}

pub open spec fn decode_multipolygon<T: PointT>(s: Seq<u8>, expected: u32) -> Result<Seq<Seq<Seq<T>>>, DecodeFailure> {
    match parse_top(s, expected) {
        Err(e) => Err(e),
        Ok((h, j)) => value_of(parse_multipolygon_body::<T>(s, j, h.little, h.g_type)),
    }
}

pub open spec fn decode_collection<T: PointT>(s: Seq<u8>, expected: u32) -> Result<Seq<GeometryModel<T>>, DecodeFailure> {
    match parse_top(s, expected) {
        Err(e) => Err(e),
        Ok((h, j)) => value_of(parse_collection_body::<T>(s, j, h.little, s.len())),
    }
}

pub open spec fn decode_geometry<T: PointT>(s: Seq<u8>, expected: u32) -> Result<GeometryModel<T>, DecodeFailure> {
    match parse_top(s, expected) {
        Err(e) => Err(e),
        Ok((h, j)) => value_of(parse_model_body::<T>(s, j, h.little, h.g_type, s.len())),
    }
}

// A failure stops every longer sequence at the same place.

pub proof fn lemma_points_err<T: PointT>(s: Seq<u8>, i: int, little: bool, t: u32, k: nat, n: nat)
    requires
        k <= n,
        parse_points::<T>(s, i, little, t, k) is Err,
    ensures
        parse_points::<T>(s, i, little, t, n) == parse_points::<T>(s, i, little, t, k),
    decreases n,
{
    if n > k {
        lemma_points_err::<T>(s, i, little, t, k, (n - 1) as nat);
    }
}

pub proof fn lemma_point_elems_err<T: PointT>(s: Seq<u8>, i: int, little: bool, t: u32, k: nat, n: nat)
    requires
        k <= n,
        parse_point_elems::<T>(s, i, little, t, k) is Err,
    ensures
        parse_point_elems::<T>(s, i, little, t, n) == parse_point_elems::<T>(s, i, little, t, k),
    decreases n,
{
    if n > k {
        lemma_point_elems_err::<T>(s, i, little, t, k, (n - 1) as nat);
    }
}

pub proof fn lemma_rings_err<T: PointT>(s: Seq<u8>, i: int, little: bool, t: u32, k: nat, n: nat)
    requires
        k <= n,
        parse_rings::<T>(s, i, little, t, k) is Err,
    ensures
        parse_rings::<T>(s, i, little, t, n) == parse_rings::<T>(s, i, little, t, k),
    decreases n,
{
    if n > k {
        lemma_rings_err::<T>(s, i, little, t, k, (n - 1) as nat);
    }
}

pub proof fn lemma_lines_err<T: PointT>(s: Seq<u8>, i: int, little: bool, t: u32, k: nat, n: nat)
    requires
        k <= n,
        parse_lines::<T>(s, i, little, t, k) is Err,
    ensures
        parse_lines::<T>(s, i, little, t, n) == parse_lines::<T>(s, i, little, t, k),
    decreases n,
{
    if n > k {
        lemma_lines_err::<T>(s, i, little, t, k, (n - 1) as nat);
    }
}

pub proof fn lemma_polygons_err<T: PointT>(s: Seq<u8>, i: int, little: bool, t: u32, k: nat, n: nat)
    requires
        k <= n,
        parse_polygons::<T>(s, i, little, t, k) is Err,
    ensures
        parse_polygons::<T>(s, i, little, t, n) == parse_polygons::<T>(s, i, little, t, k),
    decreases n,
{
    if n > k {
        lemma_polygons_err::<T>(s, i, little, t, k, (n - 1) as nat);
    }
}

pub proof fn lemma_models_err<T: PointT>(s: Seq<u8>, i: int, little: bool, k: nat, n: nat, fuel: nat)
    requires
        k <= n,
        parse_models::<T>(s, i, little, k, fuel) is Err,
    ensures
        parse_models::<T>(s, i, little, n, fuel) == parse_models::<T>(s, i, little, k, fuel),
    decreases n,
{
    if n > k {
        lemma_models_err::<T>(s, i, little, k, (n - 1) as nat, fuel);
    }
}

} // verus!
