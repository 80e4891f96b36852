use vstd::prelude::*;
use crate::error::{DecodeFailure, EwkbError};
use crate::ewkb::{
    decode_collection, enc_geometry, enc_models, lemma_models_err, model_dim,
    parse_collection_body, parse_models, parse_nested, read_top_header, write_ewkb_header,
    SRID_FLAG,
};
use crate::geometry_container::{model_fits, read_container_body, write_geometry_container};
use crate::types::{container_models, lemma_container_models, GeometryCollection, GeometryContainer, GeometryModel, PointT};
use crate::wire::{agrees_view, outcome_view, read_u32, skip, write_u32};

verus! {

impl<T: PointT> GeometryCollection<T> {
    pub fn new() -> (r: Self)
        ensures
            r@ == Seq::<GeometryModel<T>>::empty(),
    {
        Self { geometries: Vec::new() }
    }

    /// The dimension flags of the first geometry, or none.
    pub fn dimension(&self) -> (r: u32)
        ensures
            r == model_dim(GeometryModel::GeometryCollection(self@)),
        decreases self,
    {
        proof {
            lemma_container_models(self.geometries@);
        }
        if self.geometries.len() > 0 {
            self.geometries[0].dimension()
        } else {
            0
        }
    }
}

/// Writes a collection with its envelope; each geometry follows under an
/// envelope of its own, without SRID.
pub fn write_geometry_collection<T: PointT>(geometrycollection: &GeometryCollection<T>, srid: Option<u32>, out: &mut Vec<u8>)
    requires
        model_fits(GeometryModel::GeometryCollection(geometrycollection@)),
    ensures
        final(out)@ == old(out)@ + enc_geometry(GeometryModel::GeometryCollection(geometrycollection@), srid, true),
    decreases geometrycollection,
{
    let geometries = &geometrycollection.geometries;
    proof {
        lemma_container_models(geometries@);
    }
    write_ewkb_header(7 | geometrycollection.dimension(), srid, out);
    write_u32(out, geometries.len() as u32);
    let ghost mid = out@;
    let mut i: usize = 0;
    while i < geometries.len()
        invariant
            i <= geometries@.len(),
            geometrycollection@.len() == geometries@.len(),
            forall|j: int| 0 <= j < geometries@.len() ==> #[trigger] geometrycollection@[j] == geometries@[j]@,
            model_fits(GeometryModel::GeometryCollection(geometrycollection@)),
            geometries == &geometrycollection.geometries,
            out@ == mid + enc_models(geometrycollection@.subrange(0, i as int), true),
        decreases geometries@.len() - i,
    {
        assert(geometrycollection@[i as int] == geometries@[i as int]@);
        write_geometry_container(&geometries[i], None, out);
        i = i + 1;
        assert(geometrycollection@.subrange(0, i as int).drop_last() =~= geometrycollection@.subrange(0, i - 1));
    }
    assert(geometrycollection@.subrange(0, i as int) =~= geometrycollection@);
    assert(final(out)@ =~= old(out)@ + enc_geometry(GeometryModel::GeometryCollection(geometrycollection@), srid, true));
}

/// Decodes a top-level collection whose SRID must be `expected`.
pub fn read_geometry_collection<T: PointT>(buf: &[u8], expected: u32) -> (r: Result<GeometryCollection<T>, EwkbError>)
    ensures
        outcome_view(r, decode_collection::<T>(buf@, expected)),
{
    let (h, start) = read_top_header(buf, expected)?;
    let mut pos: usize = start;
    read_collection_fueled(buf, &mut pos, h.little, Ghost(buf@.len()))
}

/// Reads a count of geometries, then each geometry under its own envelope.
pub fn read_geometry_collection_body<T: PointT>(buf: &[u8], pos: &mut usize, little: bool) -> (r: Result<GeometryCollection<T>, EwkbError>)
    requires
        *old(pos) <= buf@.len(),
    ensures
        *final(pos) <= buf@.len(),
        *old(pos) <= *final(pos),
        agrees_view(r, *final(pos), parse_collection_body::<T>(buf@, *old(pos) as int, little, buf@.len())),
{
    read_collection_fueled(buf, pos, little, Ghost(buf@.len()))
}

/// One geometry inside a collection: marker passed over, type word, SRID
/// word passed over if flagged, payload.
fn read_nested<T: PointT>(buf: &[u8], pos: &mut usize, little: bool, Ghost(fuel): Ghost<nat>) -> (r: Result<GeometryContainer<T>, EwkbError>)
    requires
        *old(pos) <= buf@.len(),
        fuel >= buf@.len() - *old(pos),
    ensures
        *final(pos) <= buf@.len(),
        *old(pos) <= *final(pos),
        agrees_view(r, *final(pos), parse_nested::<T>(buf@, *old(pos) as int, little, fuel)),
    decreases fuel, 1nat,
{
    skip(buf, pos, 1)?;
    let g_type: u32 = read_u32(buf, pos, little)?;
    if g_type & SRID_FLAG == SRID_FLAG {
        skip(buf, pos, 4)?;
    }
    read_container_body(g_type, buf, pos, little, Ghost(fuel))
}

pub fn read_collection_fueled<T: PointT>(buf: &[u8], pos: &mut usize, little: bool, Ghost(fuel): Ghost<nat>) -> (r: Result<GeometryCollection<T>, EwkbError>)
    requires
        *old(pos) <= buf@.len(),
        fuel >= buf@.len() - *old(pos),
    ensures
        *final(pos) <= buf@.len(),
        *old(pos) <= *final(pos),
        agrees_view(r, *final(pos), parse_collection_body::<T>(buf@, *old(pos) as int, little, fuel)),
    decreases fuel, 2nat,
{
    let ghost pos0: int = *pos as int;
    let n: u32 = read_u32(buf, pos, little)?;
    let ghost start: int = *pos as int;
    let mut geometries: Vec<GeometryContainer<T>> = Vec::new();
    assert(container_models(geometries@) =~= Seq::<GeometryModel<T>>::empty());
    let mut k: u32 = 0;
    while k < n
        invariant
            *pos <= buf@.len(),
            k <= n,
            pos0 == *old(pos) as int,
            pos0 <= *pos as int,
            fuel >= buf@.len() - pos0,
            parse_collection_body::<T>(buf@, pos0, little, fuel) == parse_models::<T>(buf@, start, little, n as nat, fuel),
            parse_models::<T>(buf@, start, little, k as nat, fuel) == Ok::<(Seq<GeometryModel<T>>, int), DecodeFailure>((container_models(geometries@), *pos as int)),
        decreases n - k,
    {
        match read_nested::<T>(buf, pos, little, Ghost(fuel)) {
            Ok(g) => {
                let ghost before = geometries@;
                geometries.push(g);
                assert(geometries@.drop_last() =~= before);
            },
            Err(e) => {
                proof {
                    assert(parse_models::<T>(buf@, start, little, (k + 1) as nat, fuel) is Err);
                    lemma_models_err::<T>(buf@, start, little, (k + 1) as nat, n as nat, fuel);
                }
                return Err(e);
            },
        }
        k = k + 1;
    }
    Ok(GeometryCollection { geometries })
}

} // verus!
