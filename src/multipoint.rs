use vstd::prelude::*;
use crate::error::{DecodeFailure, EwkbError};
use crate::ewkb::{
    decode_multipoint, enc_geometry, enc_point_elems, lemma_point_elems_err, parse_multipoint_body, parse_point_elems, read_top_header, write_ewkb_header,
};
use crate::points::{read_point_coordinates, write_point};
use crate::types::{points_dim, GeometryModel, MultiPoint, PointT};
use crate::wire::{agrees_view, outcome_view, read_u32, skip, write_u32};

verus! {

impl<T: PointT> MultiPoint<T> {
    /// The dimension flags of the first point, or none for an empty set.
    pub fn dimension(&self) -> (r: u32)
        ensures
            r == points_dim(self@),
    {
        if self.points.len() > 0 {
            self.points[0].dimension()
        } else {
            0
        }
    }
}

/// Writes a multi-point with its envelope; each point follows under an
/// envelope of its own, without SRID.
pub fn write_multi_point<T: PointT>(multipoint: &MultiPoint<T>, srid: Option<u32>, out: &mut Vec<u8>)
    requires
        multipoint@.len() <= u32::MAX,
    ensures
        final(out)@ == old(out)@ + enc_geometry(GeometryModel::MultiPoint(multipoint@), srid, true),
{
    let points = &multipoint.points;
    write_ewkb_header(4 | multipoint.dimension(), srid, out);
    write_u32(out, points.len() as u32);
    let ghost mid = out@;
    let mut i: usize = 0;
    while i < points.len()
        invariant
            i <= points@.len(),
            out@ == mid + enc_point_elems(points@.subrange(0, i as int), true),
        decreases points@.len() - i,
    {
        write_point(&points[i], None, out);
        i = i + 1;
        assert(points@.subrange(0, i as int).drop_last() =~= points@.subrange(0, i - 1));
    }
    assert(points@.subrange(0, i as int) =~= points@);
    assert(final(out)@ =~= old(out)@ + enc_geometry(GeometryModel::MultiPoint(multipoint@), srid, true));
}

/// Decodes a top-level multi-point whose SRID must be `expected`.
pub fn read_multipoint<T: PointT>(buf: &[u8], expected: u32) -> (r: Result<MultiPoint<T>, EwkbError>)
    ensures
        outcome_view(r, decode_multipoint::<T>(buf@, expected)),
{
    let (h, start) = read_top_header(buf, expected)?;
    let mut pos: usize = start;
    read_multi_point_body(h.g_type, buf, &mut pos, h.little)
}

/// Reads a count and that many points, each after an envelope that is passed
/// over: `g_type` announces the coordinates of all of them.
pub fn read_multi_point_body<T: PointT>(g_type: u32, buf: &[u8], pos: &mut usize, little: bool) -> (r: Result<MultiPoint<T>, EwkbError>)
    requires
        *old(pos) <= buf@.len(),
    ensures
        *final(pos) <= buf@.len(),
        *old(pos) <= *final(pos),
        agrees_view(r, *final(pos), parse_multipoint_body::<T>(buf@, *old(pos) as int, little, g_type)),
{
    let ghost pos0: int = *pos as int;
    let n: u32 = read_u32(buf, pos, little)?;
    let ghost start: int = *pos as int;
    let mut points: Vec<T> = Vec::new();
    let mut k: u32 = 0;
    while k < n
        invariant
            *pos <= buf@.len(),
            k <= n,
            pos0 == *old(pos) as int,
            pos0 <= *pos as int,
            parse_multipoint_body::<T>(buf@, pos0, little, g_type) == parse_point_elems::<T>(buf@, start, little, g_type, n as nat),
            parse_point_elems::<T>(buf@, start, little, g_type, k as nat) == Ok::<(Seq<T>, int), DecodeFailure>((points@, *pos as int)),
        decreases n - k,
    {
        let step = match skip(buf, pos, 5) {
            Ok(()) => read_point_coordinates::<T>(buf, pos, little, g_type),
            Err(e) => Err(e),
        };
        match step {
            Ok(p) => {
                points.push(p);
            },
            Err(e) => {
                proof {
                    assert(parse_point_elems::<T>(buf@, start, little, g_type, (k + 1) as nat) is Err);
                    lemma_point_elems_err::<T>(buf@, start, little, g_type, (k + 1) as nat, n as nat);
                }
                return Err(e);
            },
        }
        k = k + 1;
    }
    Ok(MultiPoint { points })
}

} // verus!
