use vstd::prelude::*;
use crate::error::{DecodeFailure, EwkbError};
use crate::ewkb::{
    decode_multiline, enc_geometry, enc_lines, lemma_lines_err, parse_lines,
    parse_multiline_body, read_top_header, write_ewkb_header,
};
use crate::linestring::{read_linestring_body, write_linestring};
use crate::polygon::{extend_ring, push_to_last, rings_fit};
use crate::types::{rings_dim, GeometryModel, LineString, MultiLineString, PointT};
use crate::wire::{agrees_view, outcome_view, read_u32, skip, write_u32};

verus! {

impl<T: PointT> MultiLineString<T> {
    pub fn new() -> (r: Self)
        ensures
            r@ == Seq::<Seq<T>>::empty(),
    {
        MultiLineString { lines: Vec::new() }
    }

    /// Starts a new, empty line.
    pub fn add_line(&mut self)
        ensures
            final(self)@ == old(self)@.push(Seq::<T>::empty()),
    {
        self.lines.push(LineString { points: Vec::new() });
        assert(self@ =~= old(self)@.push(Seq::<T>::empty()));
    }

    /// Appends a point to the last line, starting one if there is none.
    pub fn add_point(&mut self, point: T)
        ensures
            final(self)@ == push_to_last(old(self)@, seq![point]),
    {
        let mut line = match self.lines.pop() {
            Some(l) => l,
            None => LineString { points: Vec::new() },
        };
        let ghost before = line.points@;
        line.points.push(point);
        assert(line.points@ =~= before + seq![point]);
        self.lines.push(line);
        assert(self@ =~= push_to_last(old(self)@, seq![point]));
    }

    /// Appends points to the last line, starting one if there is none.
    pub fn add_points(&mut self, points: &[T])
        ensures
            final(self)@ == push_to_last(old(self)@, points@),
    {
        let mut line = match self.lines.pop() {
            Some(l) => l,
            None => LineString { points: Vec::new() },
        };
        extend_ring(&mut line.points, points);
        self.lines.push(line);
        assert(self@ =~= push_to_last(old(self)@, points@));
    }

    /// The dimension flags of the first point of the first line, or none.
    pub fn dimension(&self) -> (r: u32)
        ensures
            r == rings_dim(self@),
    {
        if self.lines.len() > 0 {
            self.lines[0].dimension()
        } else {
            0
        }
    }
}

/// Writes a multi-line-string with its envelope; each line follows under an
/// envelope of its own, without SRID.
pub fn write_multiline<T: PointT>(multiline: &MultiLineString<T>, srid: Option<u32>, out: &mut Vec<u8>)
    requires
        rings_fit(multiline@),
    ensures
        final(out)@ == old(out)@ + enc_geometry(GeometryModel::MultiLineString(multiline@), srid, true),
{
    let lines = &multiline.lines;
    write_ewkb_header(5 | multiline.dimension(), srid, out);
    write_u32(out, lines.len() as u32);
    let ghost mid = out@;
    let mut i: usize = 0;
    while i < lines.len()
        invariant
            i <= lines@.len(),
            multiline@.len() == lines@.len(),
            rings_fit(multiline@),
            lines == &multiline.lines,
            out@ == mid + enc_lines(multiline@.subrange(0, i as int), true),
        decreases lines@.len() - i,
    {
        assert(multiline@[i as int] == lines@[i as int]@);
        write_linestring(&lines[i], None, out);
        i = i + 1;
        assert(multiline@.subrange(0, i as int).drop_last() =~= multiline@.subrange(0, i - 1));
    }
    assert(multiline@.subrange(0, i as int) =~= multiline@);
    assert(final(out)@ =~= old(out)@ + enc_geometry(GeometryModel::MultiLineString(multiline@), srid, true));
}

/// Decodes a top-level multi-line-string whose SRID must be `expected`.
pub fn read_multiline<T: PointT>(buf: &[u8], expected: u32) -> (r: Result<MultiLineString<T>, EwkbError>)
    ensures
        outcome_view(r, decode_multiline::<T>(buf@, expected)),
{
    let (h, start) = read_top_header(buf, expected)?;
    let mut pos: usize = start;
    read_multiline_body(h.g_type, buf, &mut pos, h.little)
}

/// Reads a count of lines, then each line after its envelope, which is passed
/// over: `g_type` announces the coordinates of every point.
pub fn read_multiline_body<T: PointT>(g_type: u32, buf: &[u8], pos: &mut usize, little: bool) -> (r: Result<MultiLineString<T>, EwkbError>)
    requires
        *old(pos) <= buf@.len(),
    ensures
        *final(pos) <= buf@.len(),
        *old(pos) <= *final(pos),
        agrees_view(r, *final(pos), parse_multiline_body::<T>(buf@, *old(pos) as int, little, g_type)),
{
    let ghost pos0: int = *pos as int;
    let n: u32 = read_u32(buf, pos, little)?;
    let ghost start: int = *pos as int;
    let mut lines: Vec<LineString<T>> = Vec::new();
    assert(lines@.map_values(|l: LineString<T>| l@) =~= Seq::<Seq<T>>::empty());
    let mut k: u32 = 0;
    while k < n
        invariant
            *pos <= buf@.len(),
            k <= n,
            pos0 == *old(pos) as int,
            pos0 <= *pos as int,
            parse_multiline_body::<T>(buf@, pos0, little, g_type) == parse_lines::<T>(buf@, start, little, g_type, n as nat),
            parse_lines::<T>(buf@, start, little, g_type, k as nat) == Ok::<(Seq<Seq<T>>, int), DecodeFailure>((lines@.map_values(|l: LineString<T>| l@), *pos as int)),
        decreases n - k,
    {
        let step = match skip(buf, pos, 5) {
            Ok(()) => read_linestring_body::<T>(g_type, buf, pos, little),
            Err(e) => Err(e),
        };
        match step {
            Ok(line) => {
                let ghost before = lines@.map_values(|l: LineString<T>| l@);
                lines.push(line);
                assert(lines@.map_values(|l: LineString<T>| l@) =~= before.push(line@));
            },
            Err(e) => {
                proof {
                    assert(parse_lines::<T>(buf@, start, little, g_type, (k + 1) as nat) is Err);
                    lemma_lines_err::<T>(buf@, start, little, g_type, (k + 1) as nat, n as nat);
                }
                return Err(e);
            },
        }
        k = k + 1;
    }
    Ok(MultiLineString { lines })
}

} // verus!
