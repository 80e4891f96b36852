use vstd::prelude::*;
use crate::error::DecodeFailure;
use crate::ewkb::{
    decode_collection, decode_geometry, decode_linestring, decode_multiline, decode_multipoint,
    decode_multipolygon, decode_point, decode_polygon, enc_coords, enc_geometry, enc_header,
    enc_lines, enc_models, enc_point_elems, enc_points, enc_polygons, enc_rings, has_flag,
    linestring_body, marker, model_body, model_dim, model_type, model_word, multiline_body,
    multipoint_body, multipolygon_body, opt_bytes, parse_coords,
    parse_header, parse_lines, parse_linestring_body, parse_model_body, parse_models,
    parse_multiline_body, parse_multipoint_body, parse_multipolygon_body, parse_nested,
    parse_point_elems, parse_points, parse_polygon_body, parse_polygons, parse_rings, parse_top,
    point_word, polygon_body, count_bytes, EwkbHeader, GeometryType, SRID_FLAG,
};
use crate::geometry_container::model_fits;
use crate::multipolygon::polygons_fit;
use crate::polygon::rings_fit;
use crate::types::{
    dim_flags, point_dim, points_dim, polygons_dim, rings_dim, GeometryModel, PointT, M_FLAG,
    Z_FLAG,
};
use crate::wire::{
    lemma_long_bytes, lemma_word_bytes, long_bytes, parse_u32, parse_u64, word_bytes,
};

verus! {

/// `e` stands in `s` from position `i` on.
pub open spec fn holds_at(s: Seq<u8>, i: int, e: Seq<u8>) -> bool {
    0 <= i && i + e.len() <= s.len() && s.subrange(i, i + e.len()) == e
}

proof fn lemma_split(s: Seq<u8>, i: int, a: Seq<u8>, b: Seq<u8>)
    requires
        holds_at(s, i, a + b),
    ensures
        holds_at(s, i, a),
        holds_at(s, i + a.len(), b),
{
    let whole = s.subrange(i, i + (a + b).len());
    assert(whole == a + b);
    assert forall|k: int| 0 <= k < a.len() implies #[trigger] s.subrange(i, i + a.len())[k] == a[k] by {
        assert(whole[k] == (a + b)[k]);
    }
    assert forall|k: int| 0 <= k < b.len() implies #[trigger] s.subrange(i + a.len(), i + a.len() + b.len())[k] == b[k] by {
        assert(whole[k + a.len()] == (a + b)[k + a.len()]);
    }
    assert(s.subrange(i, i + a.len()) =~= a);
    assert(s.subrange(i + a.len(), i + a.len() + b.len()) =~= b);
}

proof fn lemma_u32_at(s: Seq<u8>, i: int, v: u32, little: bool)
    requires
        holds_at(s, i, word_bytes(v, little)),
    ensures
        parse_u32(s, i, little) == Ok::<(u32, int), DecodeFailure>((v, i + 4)),
{
    lemma_word_bytes(v, little);
}

proof fn lemma_u64_at(s: Seq<u8>, i: int, v: u64, little: bool)
    requires
        holds_at(s, i, long_bytes(v, little)),
    ensures
        parse_u64(s, i, little) == Ok::<(u64, int), DecodeFailure>((v, i + 8)),
{
    lemma_long_bytes(v, little);
}

/// The Z and M flags of a type word agree with those of `d`.
pub open spec fn same_flags(t: u32, d: u32) -> bool {
    &&& has_flag(t, Z_FLAG) == has_flag(d, Z_FLAG)
    &&& has_flag(t, M_FLAG) == has_flag(d, M_FLAG)
}

proof fn lemma_dim_bits(z: bool, m: bool)
    ensures
        dim_flags(z, m) & 0x3FFF_FFFFu32 == 0u32,
        has_flag(dim_flags(z, m), Z_FLAG) == z,
        has_flag(dim_flags(z, m), M_FLAG) == m,
{
    let d = dim_flags(z, m);
    assert(dim_flags(false, false) == 0u32) by (bit_vector);
    assert(dim_flags(true, false) == 0x8000_0000u32) by (bit_vector);
    assert(dim_flags(false, true) == 0x4000_0000u32) by (bit_vector);
    assert(dim_flags(true, true) == 0xC000_0000u32) by (bit_vector);
    assert(d == 0u32 || d == 0x8000_0000u32 || d == 0x4000_0000u32 || d == 0xC000_0000u32);
    lemma_flag_values(d);
}

proof fn lemma_flag_values(d: u32)
    by (bit_vector)
    requires
        d == 0u32 || d == 0x8000_0000u32 || d == 0x4000_0000u32 || d == 0xC000_0000u32,
    ensures
        d & 0x3FFF_FFFFu32 == 0u32,
        (d & 0x8000_0000u32 == 0x8000_0000u32) == (d == 0x8000_0000u32 || d == 0xC000_0000u32),
        (d & 0x4000_0000u32 == 0x4000_0000u32) == (d == 0x4000_0000u32 || d == 0xC000_0000u32),
{
}

/// A type word made of a type code and dimension flags, with or without the
/// SRID flag, gives back the code and the flags.
proof fn lemma_word_bits(code: u32, d: u32)
    by (bit_vector)
    requires
        1 <= code <= 7,
        d & 0x3FFF_FFFFu32 == 0u32,
    ensures
        (code | d) & 0x1FFF_FFFFu32 == code,
        ((code | d) | 0x2000_0000u32) & 0x1FFF_FFFFu32 == code,
        (code | d) & 0x2000_0000u32 != 0x2000_0000u32,
        ((code | d) | 0x2000_0000u32) & 0x2000_0000u32 == 0x2000_0000u32,
        ((code | d) & 0x8000_0000u32) == (d & 0x8000_0000u32),
        (((code | d) | 0x2000_0000u32) & 0x8000_0000u32) == (d & 0x8000_0000u32),
        ((code | d) & 0x4000_0000u32) == (d & 0x4000_0000u32),
        (((code | d) | 0x2000_0000u32) & 0x4000_0000u32) == (d & 0x4000_0000u32),
{
}

/// Every dimension flag set the geometries carry is one of the four.
proof fn lemma_model_dim_bits<T: PointT>(g: GeometryModel<T>)
    ensures
        model_dim(g) & 0x3FFF_FFFFu32 == 0u32,
        model_dim(g) == point_dim::<T>() || model_dim(g) == 0u32,
    decreases g,
{
    lemma_dim_bits(T::spec_has_z(), T::spec_has_m());
    assert(0u32 & 0x3FFF_FFFFu32 == 0u32) by (bit_vector);
    match g {
        GeometryModel::GeometryCollection(gs) => {
            if gs.len() > 0 {
                lemma_model_dim_bits(gs[0]);
            }
        },
        _ => {},
    }
}

/// The word written for a geometry, with or without the SRID flag, names its
/// type and carries its dimension flags.
proof fn lemma_model_word<T: PointT>(g: GeometryModel<T>)
    ensures
        GeometryType::spec_of_word(model_word(g)) == Some(model_type(g)),
        GeometryType::spec_of_word(model_word(g) | SRID_FLAG) == Some(model_type(g)),
        !has_flag(model_word(g), SRID_FLAG),
        has_flag(model_word(g) | SRID_FLAG, SRID_FLAG),
        same_flags(model_word(g), model_dim(g)),
        same_flags(model_word(g) | SRID_FLAG, model_dim(g)),
{
    lemma_model_dim_bits(g);
    lemma_word_bits(model_type(g).spec_code(), model_dim(g));
}

proof fn lemma_header<T>(s: Seq<u8>, i: int, t: u32, srid: Option<u32>, little: bool)
    requires
        holds_at(s, i, enc_header(t, srid, little)),
        !has_flag(t, SRID_FLAG),
        has_flag(t | SRID_FLAG, SRID_FLAG),
    ensures
        parse_header(s, i) == Ok::<(EwkbHeader, int), DecodeFailure>((
            EwkbHeader {
                little,
                g_type: match srid {
                    Some(_) => t | SRID_FLAG,
                    None => t,
                },
                srid,
            },
            i + enc_header(t, srid, little).len(),
        )),
{
    let m = seq![marker(little)];
    match srid {
        Some(v) => {
            let w = word_bytes(t | SRID_FLAG, little);
            lemma_word_bytes(t | SRID_FLAG, little);
            lemma_word_bytes(v, little);
            assert(enc_header(t, srid, little) == m + w + word_bytes(v, little));
            lemma_split(s, i, m + w, word_bytes(v, little));
            lemma_split(s, i, m, w);
            assert(s[i] == s.subrange(i, i + 1)[0]);
            lemma_u32_at(s, i + 1, t | SRID_FLAG, little);
            lemma_u32_at(s, i + 5, v, little);
            lemma_word_bytes(t | SRID_FLAG, little);
            lemma_word_bytes(v, little);
        },
        None => {
            let w = word_bytes(t, little);
            lemma_split(s, i, m, w);
            assert(s[i] == s.subrange(i, i + 1)[0]);
            lemma_u32_at(s, i + 1, t, little);
            lemma_word_bytes(t, little);
        },
    }
}

/// The flags of `t` are those of the point variant `T`.
pub open spec fn flags_match<T: PointT>(t: u32) -> bool {
    same_flags(t, point_dim::<T>())
}

proof fn lemma_coords<T: PointT>(s: Seq<u8>, i: int, little: bool, t: u32, p: T)
    requires
        holds_at(s, i, enc_coords(p, little)),
        flags_match::<T>(t),
    ensures
        parse_coords::<T>(s, i, little, t) == Ok::<(T, int), DecodeFailure>((p, i + enc_coords(p, little).len())),
{
    T::lemma_point(p);
    lemma_dim_bits(T::spec_has_z(), T::spec_has_m());
    let bx = long_bytes(p.spec_x(), little);
    let by = long_bytes(p.spec_y(), little);
    let bz = opt_bytes(p.spec_z(), little);
    let bm = opt_bytes(p.spec_m(), little);
    lemma_long_bytes(p.spec_x(), little);
    lemma_long_bytes(p.spec_y(), little);
    lemma_split(s, i, bx + by + bz, bm);
    lemma_split(s, i, bx + by, bz);
    lemma_split(s, i, bx, by);
    lemma_u64_at(s, i, p.spec_x(), little);
    lemma_u64_at(s, i + 8, p.spec_y(), little);
    match p.spec_z() {
        Some(z) => {
            lemma_long_bytes(z, little);
            lemma_u64_at(s, i + 16, z, little);
        },
        None => {},
    }
    let k = i + 16 + bz.len();
    match p.spec_m() {
        Some(m) => {
            lemma_long_bytes(m, little);
            lemma_u64_at(s, k, m, little);
        },
        None => {},
    }
}

proof fn lemma_points<T: PointT>(s: Seq<u8>, i: int, little: bool, t: u32, ps: Seq<T>)
    requires
        holds_at(s, i, enc_points(ps, little)),
        ps.len() > 0 ==> flags_match::<T>(t),
    ensures
        parse_points::<T>(s, i, little, t, ps.len()) == Ok::<(Seq<T>, int), DecodeFailure>((ps, i + enc_points(ps, little).len())),
    decreases ps.len(),
{
    if ps.len() > 0 {
        let pre = ps.drop_last();
        lemma_split(s, i, enc_points(pre, little), enc_coords(ps.last(), little));
        lemma_points::<T>(s, i, little, t, pre);
        lemma_coords::<T>(s, i + enc_points(pre, little).len(), little, t, ps.last());
        assert(pre.push(ps.last()) =~= ps);
    } else {
        assert(ps =~= Seq::<T>::empty());
    }
}

proof fn lemma_count_at(s: Seq<u8>, i: int, n: nat, little: bool)
    requires
        holds_at(s, i, count_bytes(n, little)),
        n <= u32::MAX,
    ensures
        parse_u32(s, i, little) == Ok::<(u32, int), DecodeFailure>((n as u32, i + 4)),
        count_bytes(n, little).len() == 4,
        (n as u32) as nat == n,
{
    lemma_word_bytes(n as u32, little);
    lemma_u32_at(s, i, n as u32, little);
}

proof fn lemma_linestring_body<T: PointT>(s: Seq<u8>, i: int, little: bool, t: u32, ps: Seq<T>)
    requires
        holds_at(s, i, linestring_body(ps, little)),
        ps.len() <= u32::MAX,
        ps.len() > 0 ==> flags_match::<T>(t),
    ensures
        parse_linestring_body::<T>(s, i, little, t) == Ok::<(Seq<T>, int), DecodeFailure>((ps, i + linestring_body(ps, little).len())),
{
    lemma_split(s, i, count_bytes(ps.len(), little), enc_points(ps, little));
    lemma_count_at(s, i, ps.len(), little);
    lemma_points::<T>(s, i + 4, little, t, ps);
}

proof fn lemma_bare_header_len(t: u32, little: bool)
    ensures
        enc_header(t, None, little).len() == 5,
{
    lemma_word_bytes(t, little);
}

proof fn lemma_point_elems<T: PointT>(s: Seq<u8>, i: int, little: bool, t: u32, ps: Seq<T>)
    requires
        holds_at(s, i, enc_point_elems(ps, little)),
        ps.len() > 0 ==> flags_match::<T>(t),
    ensures
        parse_point_elems::<T>(s, i, little, t, ps.len()) == Ok::<(Seq<T>, int), DecodeFailure>((ps, i + enc_point_elems(ps, little).len())),
    decreases ps.len(),
{
    if ps.len() > 0 {
        let pre = ps.drop_last();
        let h = enc_header(point_word::<T>(), None, little);
        let c = enc_coords(ps.last(), little);
        lemma_bare_header_len(point_word::<T>(), little);
        lemma_split(s, i, enc_point_elems(pre, little) + h, c);
        lemma_split(s, i, enc_point_elems(pre, little), h);
        lemma_point_elems::<T>(s, i, little, t, pre);
        lemma_coords::<T>(s, i + enc_point_elems(pre, little).len() + 5, little, t, ps.last());
        assert(pre.push(ps.last()) =~= ps);
    } else {
        assert(ps =~= Seq::<T>::empty());
    }
}

proof fn lemma_multipoint_body<T: PointT>(s: Seq<u8>, i: int, little: bool, t: u32, ps: Seq<T>)
    requires
        holds_at(s, i, multipoint_body(ps, little)),
        ps.len() <= u32::MAX,
        ps.len() > 0 ==> flags_match::<T>(t),
    ensures
        parse_multipoint_body::<T>(s, i, little, t) == Ok::<(Seq<T>, int), DecodeFailure>((ps, i + multipoint_body(ps, little).len())),
{
    lemma_split(s, i, count_bytes(ps.len(), little), enc_point_elems(ps, little));
    lemma_count_at(s, i, ps.len(), little);
    lemma_point_elems::<T>(s, i + 4, little, t, ps);
}

/// No ring (or line) holds a point.
pub open spec fn rings_empty<T>(rs: Seq<Seq<T>>) -> bool {
    forall|k: int| 0 <= k < rs.len() ==> (#[trigger] rs[k]).len() == 0
}

/// No polygon holds a point.
pub open spec fn polygons_empty<T>(ps: Seq<Seq<Seq<T>>>) -> bool {
    forall|k: int| 0 <= k < ps.len() ==> rings_empty(#[trigger] ps[k])
}

proof fn lemma_rings<T: PointT>(s: Seq<u8>, i: int, little: bool, t: u32, rs: Seq<Seq<T>>)
    requires
        holds_at(s, i, enc_rings(rs, little)),
        rings_fit(rs),
        rings_empty(rs) || flags_match::<T>(t),
    ensures
        parse_rings::<T>(s, i, little, t, rs.len()) == Ok::<(Seq<Seq<T>>, int), DecodeFailure>((rs, i + enc_rings(rs, little).len())),
    decreases rs.len(),
{
    if rs.len() > 0 {
        let pre = rs.drop_last();
        let last = rs[rs.len() - 1];
        lemma_split(s, i, enc_rings(pre, little), linestring_body(last, little));
        assert(rings_fit(pre)) by {
            assert forall|k: int| 0 <= k < pre.len() implies #[trigger] pre[k].len() <= u32::MAX by {
                assert(pre[k] == rs[k]);
            }
        }
        if !rings_empty(pre) {
            let k = choose|k: int| 0 <= k < pre.len() && (#[trigger] pre[k]).len() != 0;
            assert(rs[k] == pre[k]);
        }
        lemma_rings::<T>(s, i, little, t, pre);
        lemma_linestring_body::<T>(s, i + enc_rings(pre, little).len(), little, t, last);
        assert(pre.push(last) =~= rs);
    } else {
        assert(rs =~= Seq::<Seq<T>>::empty());
    }
}

proof fn lemma_polygon_body<T: PointT>(s: Seq<u8>, i: int, little: bool, t: u32, rs: Seq<Seq<T>>)
    requires
        holds_at(s, i, polygon_body(rs, little)),
        rings_fit(rs),
        rings_empty(rs) || flags_match::<T>(t),
    ensures
        parse_polygon_body::<T>(s, i, little, t) == Ok::<(Seq<Seq<T>>, int), DecodeFailure>((rs, i + polygon_body(rs, little).len())),
{
    lemma_split(s, i, count_bytes(rs.len(), little), enc_rings(rs, little));
    lemma_count_at(s, i, rs.len(), little);
    lemma_rings::<T>(s, i + 4, little, t, rs);
}

proof fn lemma_lines<T: PointT>(s: Seq<u8>, i: int, little: bool, t: u32, ls: Seq<Seq<T>>)
    requires
        holds_at(s, i, enc_lines(ls, little)),
        rings_fit(ls),
        rings_empty(ls) || flags_match::<T>(t),
    ensures
        parse_lines::<T>(s, i, little, t, ls.len()) == Ok::<(Seq<Seq<T>>, int), DecodeFailure>((ls, i + enc_lines(ls, little).len())),
    decreases ls.len(),
{
    if ls.len() > 0 {
        let pre = ls.drop_last();
        let last = ls[ls.len() - 1];
        let h = enc_header(2u32 | points_dim(last), None, little);
        lemma_bare_header_len(2u32 | points_dim(last), little);
        lemma_split(s, i, enc_lines(pre, little) + h, linestring_body(last, little));
        lemma_split(s, i, enc_lines(pre, little), h);
        assert(rings_fit(pre)) by {
            assert forall|k: int| 0 <= k < pre.len() implies #[trigger] pre[k].len() <= u32::MAX by {
                assert(pre[k] == ls[k]);
            }
        }
        if !rings_empty(pre) {
            let k = choose|k: int| 0 <= k < pre.len() && (#[trigger] pre[k]).len() != 0;
            assert(ls[k] == pre[k]);
        }
        lemma_lines::<T>(s, i, little, t, pre);
        lemma_linestring_body::<T>(s, i + enc_lines(pre, little).len() + 5, little, t, last);
        assert(pre.push(last) =~= ls);
    } else {
        assert(ls =~= Seq::<Seq<T>>::empty());
    }
}

proof fn lemma_multiline_body<T: PointT>(s: Seq<u8>, i: int, little: bool, t: u32, ls: Seq<Seq<T>>)
    requires
        holds_at(s, i, multiline_body(ls, little)),
        rings_fit(ls),
        rings_empty(ls) || flags_match::<T>(t),
    ensures
        parse_multiline_body::<T>(s, i, little, t) == Ok::<(Seq<Seq<T>>, int), DecodeFailure>((ls, i + multiline_body(ls, little).len())),
{
    lemma_split(s, i, count_bytes(ls.len(), little), enc_lines(ls, little));
    lemma_count_at(s, i, ls.len(), little);
    lemma_lines::<T>(s, i + 4, little, t, ls);
}

proof fn lemma_polygons<T: PointT>(s: Seq<u8>, i: int, little: bool, t: u32, ps: Seq<Seq<Seq<T>>>)
    requires
        holds_at(s, i, enc_polygons(ps, little)),
        polygons_fit(ps),
        polygons_empty(ps) || flags_match::<T>(t),
    ensures
        parse_polygons::<T>(s, i, little, t, ps.len()) == Ok::<(Seq<Seq<Seq<T>>>, int), DecodeFailure>((ps, i + enc_polygons(ps, little).len())),
    decreases ps.len(),
{
    if ps.len() > 0 {
        let pre = ps.drop_last();
        let last = ps[ps.len() - 1];
        let h = enc_header(3u32 | rings_dim(last), None, little);
        lemma_bare_header_len(3u32 | rings_dim(last), little);
        lemma_split(s, i, enc_polygons(pre, little) + h, polygon_body(last, little));
        lemma_split(s, i, enc_polygons(pre, little), h);
        assert(polygons_fit(pre)) by {
            assert forall|k: int| 0 <= k < pre.len() implies rings_fit(#[trigger] pre[k]) by {
                assert(pre[k] == ps[k]);
            }
        }
        if !polygons_empty(pre) {
            let k = choose|k: int| 0 <= k < pre.len() && !rings_empty(#[trigger] pre[k]);
            assert(ps[k] == pre[k]);
        }
        if !rings_empty(last) {
            assert(!rings_empty(ps[ps.len() - 1]));
        }
        lemma_polygons::<T>(s, i, little, t, pre);
        lemma_polygon_body::<T>(s, i + enc_polygons(pre, little).len() + 5, little, t, last);
        assert(pre.push(last) =~= ps);
    } else {
        assert(ps =~= Seq::<Seq<Seq<T>>>::empty());
    }
}

proof fn lemma_multipolygon_body<T: PointT>(s: Seq<u8>, i: int, little: bool, t: u32, ps: Seq<Seq<Seq<T>>>)
    requires
        holds_at(s, i, multipolygon_body(ps, little)),
        polygons_fit(ps),
        polygons_empty(ps) || flags_match::<T>(t),
    ensures
        parse_multipolygon_body::<T>(s, i, little, t) == Ok::<(Seq<Seq<Seq<T>>>, int), DecodeFailure>((ps, i + multipolygon_body(ps, little).len())),
{
    lemma_split(s, i, count_bytes(ps.len(), little), enc_polygons(ps, little));
    lemma_count_at(s, i, ps.len(), little);
    lemma_polygons::<T>(s, i + 4, little, t, ps);
}

/// The geometry can be read back with the coordinates its type word announces:
/// where the first elements hold no point, nothing later does either.
pub open spec fn model_decodable<T: PointT>(g: GeometryModel<T>) -> bool
    decreases g,
{
    match g {
        GeometryModel::Polygon(rs) => rings_dim(rs) == point_dim::<T>() || rings_empty(rs),
        GeometryModel::MultiLineString(ls) => rings_dim(ls) == point_dim::<T>() || rings_empty(ls),
        GeometryModel::MultiPolygon(ps) => polygons_dim(ps) == point_dim::<T>() || polygons_empty(ps),
        GeometryModel::GeometryCollection(gs) => forall|k: int|
            0 <= k < gs.len() ==> model_decodable(#[trigger] gs[k]),
        _ => true,
    }
}

proof fn lemma_model_body<T: PointT>(s: Seq<u8>, i: int, little: bool, t: u32, g: GeometryModel<T>, fuel: nat)
    requires
        holds_at(s, i, model_body(g, little)),
        model_fits(g),
        model_decodable(g),
        GeometryType::spec_of_word(t) == Some(model_type(g)),
        same_flags(t, model_dim(g)),
        fuel > s.len() - i,
    ensures
        parse_model_body::<T>(s, i, little, t, fuel) == Ok::<(GeometryModel<T>, int), DecodeFailure>((g, i + model_body(g, little).len())),
    decreases g,
{
    match g {
        GeometryModel::Point(p) => {
            lemma_coords::<T>(s, i, little, t, p);
        },
        GeometryModel::LineString(ps) => {
            lemma_linestring_body::<T>(s, i, little, t, ps);
        },
        GeometryModel::Polygon(rs) => {
            lemma_polygon_body::<T>(s, i, little, t, rs);
        },
        GeometryModel::MultiPoint(ps) => {
            lemma_multipoint_body::<T>(s, i, little, t, ps);
        },
        GeometryModel::MultiLineString(ls) => {
            lemma_multiline_body::<T>(s, i, little, t, ls);
        },
        GeometryModel::MultiPolygon(ps) => {
            lemma_multipolygon_body::<T>(s, i, little, t, ps);
        },
        GeometryModel::GeometryCollection(gs) => {
            lemma_split(s, i, count_bytes(gs.len(), little), enc_models(gs, little));
            lemma_count_at(s, i, gs.len(), little);
            lemma_models::<T>(s, i + 4, little, gs, (fuel - 1) as nat);
        },
    }
}

proof fn lemma_models<T: PointT>(s: Seq<u8>, i: int, little: bool, gs: Seq<GeometryModel<T>>, fuel: nat)
    requires
        holds_at(s, i, enc_models(gs, little)),
        forall|k: int| 0 <= k < gs.len() ==> model_fits(#[trigger] gs[k]) && model_decodable(gs[k]),
        fuel >= s.len() - i,
    ensures
        parse_models::<T>(s, i, little, gs.len(), fuel) == Ok::<(Seq<GeometryModel<T>>, int), DecodeFailure>((gs, i + enc_models(gs, little).len())),
    decreases gs,
{
    if gs.len() > 0 {
        let pre = gs.drop_last();
        let g = gs[gs.len() - 1];
        let w = model_word(g);
        let h = enc_header(w, None, little);
        lemma_bare_header_len(w, little);
        lemma_split(s, i, enc_models(pre, little) + h, model_body(g, little));
        lemma_split(s, i, enc_models(pre, little), h);
        let j = i + enc_models(pre, little).len();
        lemma_split(s, j, seq![marker(little)], word_bytes(w, little));
        lemma_u32_at(s, j + 1, w, little);
        lemma_model_word(g);
        assert forall|k: int| 0 <= k < pre.len() implies model_fits(#[trigger] pre[k]) && model_decodable(pre[k]) by {
            assert(pre[k] == gs[k]);
        }
        lemma_models::<T>(s, i, little, pre, fuel);
        lemma_model_body::<T>(s, j + 5, little, w, g, fuel);
        assert(parse_nested::<T>(s, j, little, fuel) == Ok::<(GeometryModel<T>, int), DecodeFailure>((g, j + 5 + model_body(g, little).len())));
        assert(pre.push(g) =~= gs);
    } else {
        assert(gs =~= Seq::<GeometryModel<T>>::empty());
    }
}

/// The envelope of an encoded top-level geometry reads back, with the SRID.
proof fn lemma_top<T: PointT>(g: GeometryModel<T>, srid: u32, little: bool)
    ensures
        ({
            let s = enc_geometry(g, Some(srid), little);
            &&& parse_header(s, 0) == Ok::<(EwkbHeader, int), DecodeFailure>((
                EwkbHeader { little, g_type: model_word(g) | SRID_FLAG, srid: Some(srid) },
                9,
            ))
            &&& holds_at(s, 9, model_body(g, little))
            &&& s.len() == 9 + model_body(g, little).len()
        }),
        GeometryType::spec_of_word(model_word(g) | SRID_FLAG) == Some(model_type(g)),
        same_flags(model_word(g) | SRID_FLAG, model_dim(g)),
{
    let s = enc_geometry(g, Some(srid), little);
    let h = enc_header(model_word(g), Some(srid), little);
    lemma_model_word(g);
    lemma_word_bytes(model_word(g) | SRID_FLAG, little);
    lemma_word_bytes(srid, little);
    assert(s.subrange(0, s.len() as int) =~= s);
    lemma_split(s, 0, h, model_body(g, little));
    lemma_header::<T>(s, 0, model_word(g), Some(srid), little);
}

/// A point written with an SRID reads back unchanged under that SRID, whether
/// the data is little- or big-endian.
pub proof fn law_point_round_trip<T: PointT>(p: T, srid: u32, little: bool)
    ensures
        decode_point::<T>(enc_geometry(GeometryModel::Point(p), Some(srid), little), srid) == Ok::<T, DecodeFailure>(p),
{
    let g = GeometryModel::Point(p);
    lemma_top::<T>(g, srid, little);
    lemma_coords::<T>(enc_geometry(g, Some(srid), little), 9, little, model_word(g) | SRID_FLAG, p);
}

/// A line string reads back unchanged under the SRID it was written with.
pub proof fn law_linestring_round_trip<T: PointT>(ps: Seq<T>, srid: u32, little: bool)
    requires
        ps.len() <= u32::MAX,
    ensures
        decode_linestring::<T>(enc_geometry(GeometryModel::LineString(ps), Some(srid), little), srid) == Ok::<Seq<T>, DecodeFailure>(ps),
{
    let g = GeometryModel::LineString(ps);
    lemma_top::<T>(g, srid, little);
    lemma_linestring_body::<T>(enc_geometry(g, Some(srid), little), 9, little, model_word(g) | SRID_FLAG, ps);
}

/// A multi-point reads back unchanged under the SRID it was written with.
pub proof fn law_multipoint_round_trip<T: PointT>(ps: Seq<T>, srid: u32, little: bool)
    requires
        ps.len() <= u32::MAX,
    ensures
        decode_multipoint::<T>(enc_geometry(GeometryModel::MultiPoint(ps), Some(srid), little), srid) == Ok::<Seq<T>, DecodeFailure>(ps),
{
    let g = GeometryModel::MultiPoint(ps);
    lemma_top::<T>(g, srid, little);
    lemma_multipoint_body::<T>(enc_geometry(g, Some(srid), little), 9, little, model_word(g) | SRID_FLAG, ps);
}

/// A polygon reads back unchanged under the SRID it was written with, unless
/// its first ring is empty while a later one is not.
pub proof fn law_polygon_round_trip<T: PointT>(rs: Seq<Seq<T>>, srid: u32, little: bool)
    requires
        rings_fit(rs),
        model_decodable(GeometryModel::Polygon(rs)),
    ensures
        decode_polygon::<T>(enc_geometry(GeometryModel::Polygon(rs), Some(srid), little), srid) == Ok::<Seq<Seq<T>>, DecodeFailure>(rs),
{
    let g = GeometryModel::Polygon(rs);
    lemma_top::<T>(g, srid, little);
    lemma_polygon_body::<T>(enc_geometry(g, Some(srid), little), 9, little, model_word(g) | SRID_FLAG, rs);
}

/// A multi-line-string reads back unchanged under the SRID it was written
/// with, unless its first line is empty while a later one is not.
pub proof fn law_multiline_round_trip<T: PointT>(ls: Seq<Seq<T>>, srid: u32, little: bool)
    requires
        rings_fit(ls),
        model_decodable(GeometryModel::MultiLineString(ls)),
    ensures
        decode_multiline::<T>(enc_geometry(GeometryModel::MultiLineString(ls), Some(srid), little), srid) == Ok::<Seq<Seq<T>>, DecodeFailure>(ls),
{
    let g = GeometryModel::MultiLineString(ls);
    lemma_top::<T>(g, srid, little);
    lemma_multiline_body::<T>(enc_geometry(g, Some(srid), little), 9, little, model_word(g) | SRID_FLAG, ls);
}

/// A multi-polygon, the empty one included, reads back unchanged under the
/// SRID it was written with, unless its first polygon holds no point while a
/// later one does.
pub proof fn law_multipolygon_round_trip<T: PointT>(ps: Seq<Seq<Seq<T>>>, srid: u32, little: bool)
    requires
        polygons_fit(ps),
        model_decodable(GeometryModel::MultiPolygon(ps)),
    ensures
        decode_multipolygon::<T>(enc_geometry(GeometryModel::MultiPolygon(ps), Some(srid), little), srid) == Ok::<Seq<Seq<Seq<T>>>, DecodeFailure>(ps),
{
    let g = GeometryModel::MultiPolygon(ps);
    lemma_top::<T>(g, srid, little);
    lemma_multipolygon_body::<T>(enc_geometry(g, Some(srid), little), 9, little, model_word(g) | SRID_FLAG, ps);
}

/// Any geometry, nested collections included, reads back unchanged (element
/// for element, with its nesting) under the SRID it was written with.
pub proof fn law_geometry_round_trip<T: PointT>(g: GeometryModel<T>, srid: u32, little: bool)
    requires
        model_fits(g),
        model_decodable(g),
    ensures
        decode_geometry::<T>(enc_geometry(g, Some(srid), little), srid) == Ok::<GeometryModel<T>, DecodeFailure>(g),
{
    let s = enc_geometry(g, Some(srid), little);
    lemma_top::<T>(g, srid, little);
    lemma_model_body::<T>(s, 9, little, model_word(g) | SRID_FLAG, g, s.len());
}

/// A collection read by its own decoder comes back unchanged too.
pub proof fn law_collection_round_trip<T: PointT>(gs: Seq<GeometryModel<T>>, srid: u32, little: bool)
    requires
        model_fits(GeometryModel::GeometryCollection(gs)),
        model_decodable(GeometryModel::GeometryCollection(gs)),
    ensures
        decode_collection::<T>(enc_geometry(GeometryModel::GeometryCollection(gs), Some(srid), little), srid) == Ok::<Seq<GeometryModel<T>>, DecodeFailure>(gs),
{
    let g = GeometryModel::GeometryCollection(gs);
    let s = enc_geometry(g, Some(srid), little);
    lemma_top::<T>(g, srid, little);
    lemma_split(s, 9, count_bytes(gs.len(), little), enc_models(gs, little));
    lemma_count_at(s, 9, gs.len(), little);
    lemma_models::<T>(s, 13, little, gs, s.len());
}

/// Data written under one SRID is refused by every decoder that expects
/// another, with an error naming the SRID found and the one expected.
pub proof fn law_srid_mismatch<T: PointT>(g: GeometryModel<T>, srid: u32, expected: u32, little: bool)
    requires
        srid != expected,
    ensures
        ({
            let s = enc_geometry(g, Some(srid), little);
            let e = DecodeFailure::Srid(Some(srid), expected);
            &&& parse_top(s, expected) == Err::<(EwkbHeader, int), DecodeFailure>(e)
            &&& decode_point::<T>(s, expected) == Err::<T, DecodeFailure>(e)
            &&& decode_linestring::<T>(s, expected) == Err::<Seq<T>, DecodeFailure>(e)
            &&& decode_multipoint::<T>(s, expected) == Err::<Seq<T>, DecodeFailure>(e)
            &&& decode_polygon::<T>(s, expected) == Err::<Seq<Seq<T>>, DecodeFailure>(e)
            &&& decode_multiline::<T>(s, expected) == Err::<Seq<Seq<T>>, DecodeFailure>(e)
            &&& decode_multipolygon::<T>(s, expected) == Err::<Seq<Seq<Seq<T>>>, DecodeFailure>(e)
            &&& decode_collection::<T>(s, expected) == Err::<Seq<GeometryModel<T>>, DecodeFailure>(e)
            &&& decode_geometry::<T>(s, expected) == Err::<GeometryModel<T>, DecodeFailure>(e)
        }),
{
    lemma_top::<T>(g, srid, little);
}

} // verus!
