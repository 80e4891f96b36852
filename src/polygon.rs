use vstd::prelude::*;
use crate::error::{DecodeFailure, EwkbError};
use crate::ewkb::{
    decode_polygon, enc_geometry, enc_rings, lemma_rings_err, parse_polygon_body, parse_rings,
    read_top_header, write_ewkb_header,
};
use crate::linestring::{read_points, write_points};
use crate::types::{rings_dim, GeometryModel, PointT, Polygon};
use crate::wire::{agrees_view, outcome_view, read_u32, write_u32};

verus! {

/// Every ring, and the number of rings, fits a 32-bit count.
pub open spec fn rings_fit<T>(rs: Seq<Seq<T>>) -> bool {
    &&& rs.len() <= u32::MAX
    &&& forall|i: int| 0 <= i < rs.len() ==> #[trigger] rs[i].len() <= u32::MAX
}

/// `extra` appended to the last ring, which is made first if there is none.
pub open spec fn push_to_last<T>(rs: Seq<Seq<T>>, extra: Seq<T>) -> Seq<Seq<T>> {
    if rs.len() == 0 {
        seq![extra]
    } else {
        rs.update(rs.len() - 1, rs.last() + extra)
    }
}

/// Appends `points` to `ring`, in order.
pub fn extend_ring<T: PointT>(ring: &mut Vec<T>, points: &[T])
    ensures
        final(ring)@ == old(ring)@ + points@,
{
    let mut i: usize = 0;
    while i < points.len()
        invariant
            i <= points@.len(),
            ring@ == old(ring)@ + points@.subrange(0, i as int),
        decreases points@.len() - i,
    {
        ring.push(points[i]);
        i = i + 1;
        assert(ring@ =~= old(ring)@ + points@.subrange(0, i as int));
    }
    assert(points@.subrange(0, i as int) =~= points@);
}

impl<T: PointT> Default for Polygon<T> {
    /// A polygon with one ring, empty.
    fn default() -> (r: Self)
        ensures
            r@ == seq![Seq::<T>::empty()],
    {
        let mut rings: Vec<Vec<T>> = Vec::new();
        rings.push(Vec::new());
        let r = Polygon { rings };
        assert(r@ =~= seq![Seq::<T>::empty()]);
        r
    }
}

impl<T: PointT> Polygon<T> {
    pub fn new() -> (r: Self)
        ensures
            r@ == Seq::<Seq<T>>::empty(),
    {
        Polygon { rings: Vec::new() }
    }

    /// Starts a new, empty ring.
    pub fn add_ring(&mut self)
        ensures
            final(self)@ == old(self)@.push(Seq::<T>::empty()),
    {
        self.rings.push(Vec::new());
        assert(self@ =~= old(self)@.push(Seq::<T>::empty()));
    }

    /// Appends a point to the last ring, starting one if there is none.
    pub fn add_point(&mut self, point: T)
        ensures
            final(self)@ == push_to_last(old(self)@, seq![point]),
    {
        let mut ring = match self.rings.pop() {
            Some(r) => r,
            None => Vec::new(),
        };
        let ghost before = ring@;
        ring.push(point);
        assert(ring@ =~= before + seq![point]);
        self.rings.push(ring);
        assert(self@ =~= push_to_last(old(self)@, seq![point]));
    }

    /// Appends points to the last ring, starting one if there is none.
    pub fn add_points(&mut self, points: &[T])
        ensures
            final(self)@ == push_to_last(old(self)@, points@),
    {
        let mut ring = match self.rings.pop() {
            Some(r) => r,
            None => Vec::new(),
        };
        extend_ring(&mut ring, points);
        self.rings.push(ring);
        assert(self@ =~= push_to_last(old(self)@, points@));
    }

    /// The dimension flags of the first point of the first ring, or none.
    pub fn dimension(&self) -> (r: u32)
        ensures
            r == rings_dim(self@),
    {
        if self.rings.len() > 0 {
            let ring = &self.rings[0];
            if ring.len() > 0 {
                ring[0].dimension()
            } else {
                0
            }
        } else {
            0
        }
    }
}

/// Writes a polygon with its envelope: a count of rings, then each ring as a
/// count and its points.
pub fn write_polygon<T: PointT>(polygon: &Polygon<T>, srid: Option<u32>, out: &mut Vec<u8>)
    requires
        rings_fit(polygon@),
    ensures
        final(out)@ == old(out)@ + enc_geometry(GeometryModel::Polygon(polygon@), srid, true),
{
    let rings = &polygon.rings;
    write_ewkb_header(3 | polygon.dimension(), srid, out);
    write_u32(out, rings.len() as u32);
    let ghost mid = out@;
    let mut i: usize = 0;
    while i < rings.len()
        invariant
            i <= rings@.len(),
            polygon@.len() == rings@.len(),
            rings_fit(polygon@),
            rings == &polygon.rings,
            out@ == mid + enc_rings(polygon@.subrange(0, i as int), true),
        decreases rings@.len() - i,
    {
        assert(polygon@[i as int] == rings@[i as int]@);
        write_points(&rings[i], out);
        i = i + 1;
        assert(polygon@.subrange(0, i as int).drop_last() =~= polygon@.subrange(0, i - 1));
    }
    assert(polygon@.subrange(0, i as int) =~= polygon@);
    assert(final(out)@ =~= old(out)@ + enc_geometry(GeometryModel::Polygon(polygon@), srid, true));
}

/// Decodes a top-level polygon whose SRID must be `expected`.
pub fn read_polygon<T: PointT>(buf: &[u8], expected: u32) -> (r: Result<Polygon<T>, EwkbError>)
    ensures
        outcome_view(r, decode_polygon::<T>(buf@, expected)),
{
    let (h, start) = read_top_header(buf, expected)?;
    let mut pos: usize = start;
    read_polygon_body(h.g_type, buf, &mut pos, h.little)
}

/// Reads a count of rings, then each ring as a count and its points.
pub fn read_polygon_body<T: PointT>(g_type: u32, buf: &[u8], pos: &mut usize, little: bool) -> (r: Result<Polygon<T>, EwkbError>)
    requires
        *old(pos) <= buf@.len(),
    ensures
        *final(pos) <= buf@.len(),
        *old(pos) <= *final(pos),
        agrees_view(r, *final(pos), parse_polygon_body::<T>(buf@, *old(pos) as int, little, g_type)),
{
    let ghost pos0: int = *pos as int;
    let n: u32 = read_u32(buf, pos, little)?;
    let ghost start: int = *pos as int;
    let mut rings: Vec<Vec<T>> = Vec::new();
    assert(rings@.map_values(|r: Vec<T>| r@) =~= Seq::<Seq<T>>::empty());
    let mut k: u32 = 0;
    while k < n
        invariant
            *pos <= buf@.len(),
            k <= n,
            pos0 == *old(pos) as int,
            pos0 <= *pos as int,
            parse_polygon_body::<T>(buf@, pos0, little, g_type) == parse_rings::<T>(buf@, start, little, g_type, n as nat),
            parse_rings::<T>(buf@, start, little, g_type, k as nat) == Ok::<(Seq<Seq<T>>, int), DecodeFailure>((rings@.map_values(|r: Vec<T>| r@), *pos as int)),
        decreases n - k,
    {
        match read_points::<T>(g_type, buf, pos, little) {
            Ok(ring) => {
                let ghost before = rings@.map_values(|r: Vec<T>| r@);
                rings.push(ring);
                assert(rings@.map_values(|r: Vec<T>| r@) =~= before.push(ring@));
            },
            Err(e) => {
                proof {
                    assert(parse_rings::<T>(buf@, start, little, g_type, (k + 1) as nat) is Err);
                    lemma_rings_err::<T>(buf@, start, little, g_type, (k + 1) as nat, n as nat);
                }
                return Err(e);
            },
        }
        k = k + 1;
    }
    Ok(Polygon { rings })
}

} // verus!
