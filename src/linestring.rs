use vstd::prelude::*;
use crate::error::{DecodeFailure, EwkbError};
use crate::ewkb::{
    decode_linestring, enc_geometry, enc_points, lemma_points_err, linestring_body,
    parse_linestring_body, parse_points, read_top_header, write_ewkb_header,
};
use crate::points::{read_point_coordinates, write_point_coordinates};
use crate::types::{points_dim, GeometryModel, LineString, PointT};
use crate::wire::{agrees_view, outcome_view, read_u32, write_u32};

verus! {

impl<T: PointT> LineString<T> {
    /// The dimension flags of the first point, or none for an empty line.
    pub fn dimension(&self) -> (r: u32)
        ensures
            r == points_dim(self@),
    {
        if self.points.len() > 0 {
            self.points[0].dimension()
        } else {
            0
        }
    }
}

/// Writes `count` and then each point's coordinates.
pub fn write_points<T: PointT>(points: &Vec<T>, out: &mut Vec<u8>)
    requires
        points@.len() <= u32::MAX,
    ensures
        final(out)@ == old(out)@ + linestring_body(points@, true),
{
    write_u32(out, points.len() as u32);
    let ghost mid = out@;
    let mut i: usize = 0;
    while i < points.len()
        invariant
            i <= points@.len(),
            out@ == mid + enc_points(points@.subrange(0, i as int), true),
        decreases points@.len() - i,
    {
        write_point_coordinates(&points[i], out);
        i = i + 1;
        assert(points@.subrange(0, i as int).drop_last() =~= points@.subrange(0, i - 1));
    }
    assert(points@.subrange(0, i as int) =~= points@);
    assert(final(out)@ =~= old(out)@ + linestring_body(points@, true));
}

/// Reads a count and that many points, whose coordinates `g_type` announces.
pub fn read_points<T: PointT>(g_type: u32, buf: &[u8], pos: &mut usize, little: bool) -> (r: Result<Vec<T>, EwkbError>)
    requires
        *old(pos) <= buf@.len(),
    ensures
        *final(pos) <= buf@.len(),
        *old(pos) <= *final(pos),
        agrees_view(r, *final(pos), parse_linestring_body::<T>(buf@, *old(pos) as int, little, g_type)),
{
    let ghost pos0: int = *pos as int;
    let n: u32 = read_u32(buf, pos, little)?;
    let ghost start: int = *pos as int;
    assert(parse_linestring_body::<T>(buf@, pos0, little, g_type) == parse_points::<T>(buf@, start, little, g_type, n as nat));
    let mut points: Vec<T> = Vec::new();
    let mut k: u32 = 0;
    while k < n
        invariant
            *pos <= buf@.len(),
            k <= n,
            parse_points::<T>(buf@, start, little, g_type, k as nat) == Ok::<(Seq<T>, int), DecodeFailure>((points@, *pos as int)),
            pos0 == *old(pos) as int,
            pos0 <= *pos as int,
            parse_linestring_body::<T>(buf@, pos0, little, g_type) == parse_points::<T>(buf@, start, little, g_type, n as nat),
        decreases n - k,
    {
        match read_point_coordinates::<T>(buf, pos, little, g_type) {
            Ok(p) => {
                points.push(p);
            },
            Err(e) => {
                proof {
                    assert(parse_points::<T>(buf@, start, little, g_type, (k + 1) as nat) is Err);
                    lemma_points_err::<T>(buf@, start, little, g_type, (k + 1) as nat, n as nat);
                }
                return Err(e);
            },
        }
        k = k + 1;
    }
    Ok(points)
}

/// Writes a line string with its envelope.
pub fn write_linestring<T: PointT>(linestring: &LineString<T>, srid: Option<u32>, out: &mut Vec<u8>)
    requires
        linestring@.len() <= u32::MAX,
    ensures
        final(out)@ == old(out)@ + enc_geometry(GeometryModel::LineString(linestring@), srid, true),
{
    write_ewkb_header(2 | linestring.dimension(), srid, out);
    write_points(&linestring.points, out);
    assert(final(out)@ =~= old(out)@ + enc_geometry(GeometryModel::LineString(linestring@), srid, true));
}

/// Decodes a top-level line string whose SRID must be `expected`.
pub fn read_linestring<T: PointT>(buf: &[u8], expected: u32) -> (r: Result<LineString<T>, EwkbError>)
    ensures
        outcome_view(r, decode_linestring::<T>(buf@, expected)),
{
    let (h, start) = read_top_header(buf, expected)?;
    let mut pos: usize = start;
    read_linestring_body(h.g_type, buf, &mut pos, h.little)
}

/// Reads the payload of a line string: a count and that many points.
pub fn read_linestring_body<T: PointT>(g_type: u32, buf: &[u8], pos: &mut usize, little: bool) -> (r: Result<LineString<T>, EwkbError>)
    requires
        *old(pos) <= buf@.len(),
    ensures
        *final(pos) <= buf@.len(),
        *old(pos) <= *final(pos),
        agrees_view(r, *final(pos), parse_linestring_body::<T>(buf@, *old(pos) as int, little, g_type)),
{
    let points = read_points(g_type, buf, pos, little)?;
    Ok(LineString { points })
}

} // verus!
