use postgis_diesel::error::{check_srid, EwkbError, PointConstructorError, SRIDError};
use postgis_diesel::ewkb::{read_ewkb_header, EwkbHeader, GeometryType};
use postgis_diesel::geometry_container::{read_geometry_container, write_geometry_container};
use postgis_diesel::geometrycollection::{read_geometry_collection, write_geometry_collection};
use postgis_diesel::linestring::{read_linestring, write_linestring};
use postgis_diesel::multiline::{read_multiline, write_multiline};
use postgis_diesel::multipolygon::{read_multi_polygon, write_multi_polygon};
use postgis_diesel::points::{read_point, write_point, Dimension};
use postgis_diesel::polygon::{read_polygon, write_polygon};
use postgis_diesel::types::{
    GeometryCollection, GeometryContainer, LineString, MultiLineString, MultiPolygon, Point,
    PointM, PointT, PointZ, PointZM, Polygon,
};

fn p(x: f64, y: f64) -> Point {
    Point { x: x.to_bits(), y: y.to_bits() }
}

fn pz(x: f64, y: f64, z: f64) -> PointZ {
    PointZ { x: x.to_bits(), y: y.to_bits(), z: z.to_bits() }
}

/// The same value written big-endian by hand: marker, type word with the
/// SRID flag, SRID, then coordinates.
fn big_endian_point(g_type: u32, srid: u32, coords: &[f64]) -> Vec<u8> {
    let mut out = vec![0u8];
    out.extend_from_slice(&(g_type | 0x2000_0000).to_be_bytes());
    out.extend_from_slice(&srid.to_be_bytes());
    for c in coords {
        out.extend_from_slice(&c.to_bits().to_be_bytes());
    }
    out
}

#[test]
fn point_variants_round_trip_little_endian() {
    let a = p(1.5, -2.25);
    let mut out = Vec::new();
    write_point(&a, Some(4326), &mut out);
    assert_eq!(read_point::<Point>(&out, 4326).unwrap(), a);

    let b = pz(1.0, 2.0, 3.0);
    let mut out = Vec::new();
    write_point(&b, Some(4326), &mut out);
    assert_eq!(read_point::<PointZ>(&out, 4326).unwrap(), b);

    let c = PointM::new(1.0f64.to_bits(), 2.0f64.to_bits(), 4.0f64.to_bits());
    let mut out = Vec::new();
    write_point(&c, Some(4326), &mut out);
    assert_eq!(read_point::<PointM>(&out, 4326).unwrap(), c);

    let d = PointZM::new(1.0f64.to_bits(), 2.0f64.to_bits(), 3.0f64.to_bits(), 4.0f64.to_bits());
    let mut out = Vec::new();
    write_point(&d, Some(4326), &mut out);
    assert_eq!(read_point::<PointZM>(&out, 4326).unwrap(), d);
}

#[test]
fn point_variants_round_trip_big_endian() {
    let buf = big_endian_point(1, 4326, &[1.5, -2.25]);
    assert_eq!(read_point::<Point>(&buf, 4326).unwrap(), p(1.5, -2.25));

    let buf = big_endian_point(0x8000_0001, 4326, &[1.0, 2.0, 3.0]);
    assert_eq!(read_point::<PointZ>(&buf, 4326).unwrap(), pz(1.0, 2.0, 3.0));

    let buf = big_endian_point(0x4000_0001, 4326, &[1.0, 2.0, 4.0]);
    assert_eq!(
        read_point::<PointM>(&buf, 4326).unwrap(),
        PointM::new(1.0f64.to_bits(), 2.0f64.to_bits(), 4.0f64.to_bits())
    );

    let buf = big_endian_point(0xC000_0001, 4326, &[1.0, 2.0, 3.0, 4.0]);
    assert_eq!(
        read_point::<PointZM>(&buf, 4326).unwrap(),
        PointZM::new(1.0f64.to_bits(), 2.0f64.to_bits(), 3.0f64.to_bits(), 4.0f64.to_bits())
    );
}

#[test]
fn point_bytes_are_exact() {
    let mut out = Vec::new();
    write_point(&p(1.0, 2.0), Some(4326), &mut out);
    let expected: Vec<u8> = vec![
        0x01, 0x01, 0x00, 0x00, 0x20, 0xE6, 0x10, 0x00, 0x00, 0x00, 0x00, 0x00, 0x00, 0x00, 0x00,
        0xF0, 0x3F, 0x00, 0x00, 0x00, 0x00, 0x00, 0x00, 0x00, 0x40,
    ];
    assert_eq!(out, expected);

    let mut out = Vec::new();
    write_point(&pz(1.0, 2.0, 3.0), None, &mut out);
    assert_eq!(&out[0..5], &[0x01, 0x01, 0x00, 0x00, 0x80]);
    assert_eq!(out.len(), 5 + 24);
}

#[test]
fn srid_mismatch_reports_found_and_expected() {
    let mut out = Vec::new();
    write_point(&p(72.0, 64.0), Some(4326), &mut out);
    let err = read_point::<Point>(&out, 9999).unwrap_err();
    assert_eq!(err, EwkbError::Srid(SRIDError { got: Some(4326), want: 9999 }));

    let g = GeometryContainer::LineString(LineString { points: vec![p(1.0, 2.0)] });
    let mut out = Vec::new();
    write_geometry_container(&g, Some(4326), &mut out);
    let err = read_geometry_container::<Point>(&out, 9999).unwrap_err();
    assert_eq!(err, EwkbError::Srid(SRIDError { got: Some(4326), want: 9999 }));
}

#[test]
fn missing_srid_is_refused() {
    let mut out = Vec::new();
    write_point(&p(72.0, 64.0), None, &mut out);
    let err = read_point::<Point>(&out, 4326).unwrap_err();
    assert_eq!(err, EwkbError::Srid(SRIDError::new(None, 4326)));
    assert_eq!(err.to_string(), "Wrong SRID in database: None, Expected: 4326");
}

#[test]
fn check_srid_cases() {
    assert_eq!(check_srid(Some(4326), 4326), Ok(()));
    assert_eq!(check_srid(Some(1), 4326), Err(SRIDError::new(Some(1), 4326)));
    assert_eq!(check_srid(None, 0), Err(SRIDError::new(None, 0)));
    assert_eq!(
        SRIDError::new(Some(0), 4294967295).to_string(),
        "Wrong SRID in database: Some(0), Expected: 4294967295"
    );
}

#[test]
fn point_construction_validation() {
    let point = PointZ::new_point(72.0f64.to_bits(), 63.0f64.to_bits(), None, None);
    assert_eq!(
        point,
        Err(PointConstructorError { reason: "Z is not defined, but mandatory for PointZ".to_string() })
    );
    let point = Point::new_point(72.0f64.to_bits(), 63.0f64.to_bits(), Some(10.0f64.to_bits()), None);
    assert_eq!(
        point,
        Err(PointConstructorError { reason: "unexpectedly defined Z or M for Point".to_string() })
    );
    assert_eq!(
        point.unwrap_err().to_string(),
        "can't construct point: unexpectedly defined Z or M for Point"
    );
    let point = PointM::new_point(1, 2, Some(3), None);
    assert_eq!(
        point,
        Err(PointConstructorError { reason: "M is not defined, but mandatory for PointM".to_string() })
    );
    let point = PointZM::new_point(1, 2, Some(3), None);
    assert_eq!(
        point,
        Err(PointConstructorError { reason: "M is not defined, but mandatory for PointZM".to_string() })
    );
    assert_eq!(PointZM::new_point(1, 2, Some(3), Some(4)), Ok(PointZM { x: 1, y: 2, z: 3, m: 4 }));
    assert_eq!(PointZ::new_point(1, 2, Some(3), Some(4)).unwrap_err().reason, "unexpectedly defined m for PointZ");
    assert_eq!(PointM::new_point(1, 2, Some(3), Some(4)).unwrap_err().reason, "unexpectedly defined z for PointM");
}

#[test]
fn decoding_into_wrong_variant_fails() {
    let mut out = Vec::new();
    write_point(&p(72.0, 64.0), Some(4326), &mut out);
    let err = read_point::<PointZ>(&out, 4326).unwrap_err();
    assert_eq!(
        err,
        EwkbError::PointConstruction(PointConstructorError {
            reason: "Z is not defined, but mandatory for PointZ".to_string()
        })
    );
    assert_eq!(err.to_string(), "can't construct point: Z is not defined, but mandatory for PointZ");
}

#[test]
fn empty_multipolygon_round_trip() {
    let empty: MultiPolygon<Point> = MultiPolygon::new();
    let mut out = Vec::new();
    write_multi_polygon(&empty, Some(4326), &mut out);
    assert_eq!(out.len(), 13);
    let back = read_multi_polygon::<Point>(&out, 4326).unwrap();
    assert_eq!(back.polygons.len(), 0);
    assert_eq!(back, empty);
}

#[test]
fn nested_collection_round_trip() {
    let mut multiline = MultiLineString::new();
    multiline.add_points(&[p(1.0, 2.0), p(3.0, 4.0)]);
    multiline.add_line();
    multiline.add_points(&[p(5.0, 6.0), p(7.0, 8.0)]);
    let mut inner = GeometryCollection::new();
    inner.geometries.push(GeometryContainer::Point(p(9.0, 9.5)));
    let mut gc = GeometryCollection::new();
    gc.geometries.push(GeometryContainer::Point(p(0.5, 0.25)));
    gc.geometries.push(GeometryContainer::MultiLineString(multiline));
    gc.geometries.push(GeometryContainer::GeometryCollection(inner));

    let mut out = Vec::new();
    write_geometry_collection(&gc, Some(4326), &mut out);
    let back = read_geometry_collection::<Point>(&out, 4326).unwrap();
    assert_eq!(back.geometries.len(), 3);
    match &back.geometries[2] {
        GeometryContainer::GeometryCollection(c) => {
            assert_eq!(c.geometries, vec![GeometryContainer::Point(p(9.0, 9.5))])
        }
        other => panic!("unexpected element {:?}", other),
    }
    assert_eq!(back, gc);

    let g = GeometryContainer::GeometryCollection(back);
    let mut again = Vec::new();
    write_geometry_container(&g, Some(4326), &mut again);
    assert_eq!(again, out);
    assert_eq!(read_geometry_container::<Point>(&again, 4326).unwrap(), g);
}

#[test]
fn multiline_round_trip_is_byte_exact() {
    let mut multiline = MultiLineString::new();
    multiline.add_points(&[p(1.0, 2.0), p(3.0, 4.0)]);
    multiline.add_line();
    multiline.add_point(p(5.0, 6.0));
    let mut out = Vec::new();
    write_multiline(&multiline, Some(4326), &mut out);
    // header 9, count 4, then per line: bare header 5, count 4, points
    assert_eq!(out.len(), 9 + 4 + (5 + 4 + 32) + (5 + 4 + 16));
    assert_eq!(&out[13..18], &[0x01, 0x02, 0x00, 0x00, 0x00]);
    let back = read_multiline::<Point>(&out, 4326).unwrap();
    let mut again = Vec::new();
    write_multiline(&back, Some(4326), &mut again);
    assert_eq!(again, out);
}

#[test]
fn polygon_dimension_derivation() {
    let mut polygon: Polygon<PointZ> = Polygon::new();
    assert_eq!(polygon.dimension(), 0);
    polygon.add_point(pz(1.0, 2.0, 3.0));
    assert_eq!(polygon.dimension(), 0x8000_0000);
    assert_eq!(polygon.dimension(), Dimension::Z.flags());

    let empty: Polygon<PointZ> = Polygon::new();
    assert_eq!(empty.dimension(), Dimension::Plain.flags());

    let mut out = Vec::new();
    write_polygon(&polygon, Some(4326), &mut out);
    assert_eq!(&out[1..5], &[0x03, 0x00, 0x00, 0xA0]);
    assert_eq!(read_polygon::<PointZ>(&out, 4326).unwrap(), polygon);
}

#[test]
fn dimension_flags() {
    assert_eq!(Dimension::Plain.flags(), 0);
    assert_eq!(Dimension::Z.flags(), 0x8000_0000);
    assert_eq!(Dimension::M.flags(), 0x4000_0000);
    assert_eq!(Dimension::ZM.flags(), 0xC000_0000);
    assert_eq!(PointM::new(1, 2, 3).dimension(), 0x4000_0000);
    assert_eq!(PointZM::new(1, 2, 3, 4).dimension(), 0xC000_0000);
    assert_eq!(Point::new(1, 2).dimension(), 0);
}

#[test]
fn linestring_srid_scenario() {
    let coords = [(1.0, 3.0), (2.0, 1.0), (3.0, 4.0), (2.0, 1.0), (1.0, 3.0)];
    let line = LineString { points: coords.iter().map(|c| p(c.0, c.1)).collect() };
    let mut out = Vec::new();
    write_linestring(&line, Some(4326), &mut out);
    assert_eq!(read_linestring::<Point>(&out, 4326).unwrap(), line);
    let err = read_linestring::<Point>(&out, 9999).unwrap_err();
    assert_eq!(err.to_string(), "Wrong SRID in database: Some(4326), Expected: 9999");
}

#[test]
fn truncated_input_is_refused() {
    let mut out = Vec::new();
    write_linestring(&LineString { points: vec![p(1.0, 3.0), p(2.0, 1.0)] }, Some(4326), &mut out);
    for cut in [0, 1, 4, 8, 12, out.len() - 1] {
        let err = read_linestring::<Point>(&out[..cut], 4326).unwrap_err();
        assert_eq!(err, EwkbError::UnexpectedEnd);
    }
    assert_eq!(EwkbError::UnexpectedEnd.to_string(), "unexpected end of input");
}

#[test]
fn unknown_geometry_type_is_refused() {
    let buf = vec![1u8, 9, 0, 0, 0x20, 0xE6, 0x10, 0, 0];
    let err = read_geometry_container::<Point>(&buf, 4326).unwrap_err();
    assert_eq!(err, EwkbError::UnknownGeometryType(9));
    assert_eq!(err.to_string(), "unknown geometry type: 9");
}

#[test]
fn header_reads_both_byte_orders() {
    let le = [1u8, 0x02, 0x00, 0x00, 0x20, 0xE6, 0x10, 0x00, 0x00];
    let mut pos = 0usize;
    let h = read_ewkb_header(&le, &mut pos).unwrap();
    assert_eq!(h, EwkbHeader { little: true, g_type: 0x2000_0002, srid: Some(4326) });
    assert_eq!(pos, 9);

    let be = [0u8, 0x00, 0x00, 0x00, 0x03];
    let mut pos = 0usize;
    let h = read_ewkb_header(&be, &mut pos).unwrap();
    assert_eq!(h, EwkbHeader { little: false, g_type: 3, srid: None });
    assert_eq!(pos, 5);
    assert_eq!(GeometryType::of_word(h.g_type), Some(GeometryType::Polygon));
    assert_eq!(GeometryType::of_word(0xC000_0007), Some(GeometryType::GeometryCollection));
    assert_eq!(GeometryType::of_word(8), None);
    assert_eq!(GeometryType::MultiPolygon.code(), 6);
}

#[test]
fn builders_fill_the_last_element() {
    let mut polygon: Polygon<Point> = Polygon::new();
    polygon.add_point(p(1.0, 1.0));
    polygon.add_ring();
    polygon.add_points(&[p(2.0, 2.0), p(3.0, 3.0)]);
    assert_eq!(polygon.rings, vec![vec![p(1.0, 1.0)], vec![p(2.0, 2.0), p(3.0, 3.0)]]);

    let mut multipolygon: MultiPolygon<Point> = MultiPolygon::new();
    multipolygon.add_points(&[]);
    assert_eq!(multipolygon.polygons, vec![Polygon { rings: vec![] }]);
    multipolygon.add_point(p(1.0, 1.0));
    assert_eq!(multipolygon.polygons, vec![Polygon { rings: vec![vec![p(1.0, 1.0)]] }]);
    assert_eq!(multipolygon.dimension(), 0);
}

#[test]
fn default_polygon_has_one_empty_ring() {
    let polygon: Polygon<Point> = Polygon::default();
    assert_eq!(polygon.rings, vec![Vec::<Point>::new()]);
    assert_eq!(polygon.dimension(), 0);
}

#[test]
fn nested_srid_word_is_passed_over() {
    let mut buf = vec![1u8, 0x07, 0x00, 0x00, 0x20, 0xE6, 0x10, 0x00, 0x00, 0x01, 0x00, 0x00, 0x00];
    buf.extend_from_slice(&[0x01, 0x01, 0x00, 0x00, 0x20, 0xE6, 0x10, 0x00, 0x00]);
    buf.extend_from_slice(&1.0f64.to_bits().to_le_bytes());
    buf.extend_from_slice(&2.0f64.to_bits().to_le_bytes());
    let gc = read_geometry_collection::<Point>(&buf, 4326).unwrap();
    assert_eq!(gc.geometries, vec![GeometryContainer::Point(p(1.0, 2.0))]);
}

#[test]
fn big_endian_collection_reads() {
    let mut buf = vec![0u8, 0x20, 0x00, 0x00, 0x07, 0x00, 0x00, 0x10, 0xE6, 0x00, 0x00, 0x00, 0x01];
    buf.extend_from_slice(&[0x00, 0x00, 0x00, 0x00, 0x02, 0x00, 0x00, 0x00, 0x01]);
    buf.extend_from_slice(&3.0f64.to_bits().to_be_bytes());
    buf.extend_from_slice(&4.0f64.to_bits().to_be_bytes());
    let g = read_geometry_container::<Point>(&buf, 4326).unwrap();
    let mut inner = GeometryCollection::new();
    inner.geometries.push(GeometryContainer::LineString(LineString { points: vec![p(3.0, 4.0)] }));
    assert_eq!(g, GeometryContainer::GeometryCollection(inner));
}
