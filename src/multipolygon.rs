use vstd::prelude::*;
use crate::error::{DecodeFailure, EwkbError};
use crate::ewkb::{
    decode_multipolygon, enc_geometry, enc_polygons, lemma_polygons_err, parse_multipolygon_body, parse_polygons, read_top_header, write_ewkb_header,
};
use crate::polygon::{push_to_last, read_polygon_body, rings_fit, write_polygon};
use crate::types::{polygons_dim, GeometryModel, MultiPolygon, PointT, Polygon};
use crate::wire::{agrees_view, outcome_view, read_u32, skip, write_u32};

verus! {

/// Every count in every polygon fits 32 bits, and so does the number of polygons.
pub open spec fn polygons_fit<T>(ps: Seq<Seq<Seq<T>>>) -> bool {
    &&& ps.len() <= u32::MAX
    &&& forall|i: int| 0 <= i < ps.len() ==> rings_fit(#[trigger] ps[i])
}

/// `extra` appended, as `Polygon::add_points` would, to the last polygon,
/// which is made first if there is none; no ring is started for no point.
pub open spec fn push_to_last_polygon<T>(ps: Seq<Seq<Seq<T>>>, extra: Seq<T>) -> Seq<Seq<Seq<T>>> {
    let base = if ps.len() == 0 {
        seq![Seq::<Seq<T>>::empty()]
    } else {
        ps
    };
    let last = base[base.len() - 1];
    base.update(
        base.len() - 1,
        if extra.len() == 0 {
            last
        } else {
            push_to_last(last, extra)
        },
    )
}

impl<T: PointT> MultiPolygon<T> {
    pub fn new() -> (r: Self)
        ensures
            r@ == Seq::<Seq<Seq<T>>>::empty(),
    {
        MultiPolygon { polygons: Vec::new() }
    }

    /// Starts a new polygon without rings.
    pub fn add_empty_polygon(&mut self)
        ensures
            final(self)@ == old(self)@.push(Seq::<Seq<T>>::empty()),
    {
        self.polygons.push(Polygon::new());
        assert(self@ =~= old(self)@.push(Seq::<Seq<T>>::empty()));
    }

    /// Appends a point to the last ring of the last polygon, starting either
    /// where there is none.
    pub fn add_point(&mut self, point: T)
        ensures
            final(self)@ == push_to_last_polygon(old(self)@, seq![point]),
    {
        let mut polygon = match self.polygons.pop() {
            Some(p) => p,
            None => Polygon::new(),
        };
        polygon.add_point(point);
        self.polygons.push(polygon);
        assert(self@ =~= push_to_last_polygon(old(self)@, seq![point]));
    }

    /// Appends points to the last ring of the last polygon, starting either
    /// where there is none; with no point, only the polygon is started.
    pub fn add_points(&mut self, points: &[T])
        ensures
            final(self)@ == push_to_last_polygon(old(self)@, points@),
    {
        let mut polygon = match self.polygons.pop() {
            Some(p) => p,
            None => Polygon::new(),
        };
        if points.len() > 0 {
            polygon.add_points(points);
        }
        self.polygons.push(polygon);
        assert(self@ =~= push_to_last_polygon(old(self)@, points@));
    }

    /// The dimension flags of the first polygon, or none.
    pub fn dimension(&self) -> (r: u32)
        ensures
            r == polygons_dim(self@),
    {
        if self.polygons.len() > 0 {
            self.polygons[0].dimension()
        } else {
            0
        }
    }
}

/// Writes a multi-polygon with its envelope; each polygon follows under an
/// envelope of its own, without SRID.
pub fn write_multi_polygon<T: PointT>(multipolygon: &MultiPolygon<T>, srid: Option<u32>, out: &mut Vec<u8>)
    requires
        polygons_fit(multipolygon@),
    ensures
        final(out)@ == old(out)@ + enc_geometry(GeometryModel::MultiPolygon(multipolygon@), srid, true),
{
    let polygons = &multipolygon.polygons;
    write_ewkb_header(6 | multipolygon.dimension(), srid, out);
    write_u32(out, polygons.len() as u32);
    let ghost mid = out@;
    let mut i: usize = 0;
    while i < polygons.len()
        invariant
            i <= polygons@.len(),
            multipolygon@.len() == polygons@.len(),
            polygons_fit(multipolygon@),
            polygons == &multipolygon.polygons,
            out@ == mid + enc_polygons(multipolygon@.subrange(0, i as int), true),
        decreases polygons@.len() - i,
    {
        assert(multipolygon@[i as int] == polygons@[i as int]@);
        write_polygon(&polygons[i], None, out);
        i = i + 1;
        assert(multipolygon@.subrange(0, i as int).drop_last() =~= multipolygon@.subrange(0, i - 1));
    }
    assert(multipolygon@.subrange(0, i as int) =~= multipolygon@);
    assert(final(out)@ =~= old(out)@ + enc_geometry(GeometryModel::MultiPolygon(multipolygon@), srid, true));
}

/// Decodes a top-level multi-polygon whose SRID must be `expected`.
pub fn read_multi_polygon<T: PointT>(buf: &[u8], expected: u32) -> (r: Result<MultiPolygon<T>, EwkbError>)
    ensures
        outcome_view(r, decode_multipolygon::<T>(buf@, expected)),
{
    let (h, start) = read_top_header(buf, expected)?;
    let mut pos: usize = start;
    read_multi_polygon_body(h.g_type, buf, &mut pos, h.little)
}

/// Reads a count of polygons, then each polygon's payload after its
/// envelope, which is passed over.
pub fn read_multi_polygon_body<T: PointT>(g_type: u32, buf: &[u8], pos: &mut usize, little: bool) -> (r: Result<MultiPolygon<T>, EwkbError>)
    requires
        *old(pos) <= buf@.len(),
    ensures
        *final(pos) <= buf@.len(),
        *old(pos) <= *final(pos),
        agrees_view(r, *final(pos), parse_multipolygon_body::<T>(buf@, *old(pos) as int, little, g_type)),
{
    let ghost pos0: int = *pos as int;
    let n: u32 = read_u32(buf, pos, little)?;
    let ghost start: int = *pos as int;
    let mut polygons: Vec<Polygon<T>> = Vec::new();
    assert(polygons@.map_values(|p: Polygon<T>| p@) =~= Seq::<Seq<Seq<T>>>::empty());
    let mut k: u32 = 0;
    while k < n
        invariant
            *pos <= buf@.len(),
            k <= n,
            pos0 == *old(pos) as int,
            pos0 <= *pos as int,
            parse_multipolygon_body::<T>(buf@, pos0, little, g_type) == parse_polygons::<T>(buf@, start, little, g_type, n as nat),
            parse_polygons::<T>(buf@, start, little, g_type, k as nat) == Ok::<(Seq<Seq<Seq<T>>>, int), DecodeFailure>((polygons@.map_values(|p: Polygon<T>| p@), *pos as int)),
        decreases n - k,
    {
        let step = match skip(buf, pos, 5) {
            Ok(()) => read_polygon_body::<T>(g_type, buf, pos, little),
            Err(e) => Err(e),
        };
        match step {
            Ok(polygon) => {
                let ghost before = polygons@.map_values(|p: Polygon<T>| p@);
                polygons.push(polygon);
                assert(polygons@.map_values(|p: Polygon<T>| p@) =~= before.push(polygon@));
            },
            Err(e) => {
                proof {
                    assert(parse_polygons::<T>(buf@, start, little, g_type, (k + 1) as nat) is Err);
                    lemma_polygons_err::<T>(buf@, start, little, g_type, (k + 1) as nat, n as nat);
                }
                return Err(e);
            },
        }
        k = k + 1;
    }
    Ok(MultiPolygon { polygons })
}

} // verus!
