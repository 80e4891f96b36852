use postgis_diesel::geometry_container::{read_geometry_container, write_geometry_container};
use postgis_diesel::geometrycollection::{read_geometry_collection, write_geometry_collection};
use postgis_diesel::linestring::{read_linestring, write_linestring};
use postgis_diesel::multiline::{read_multiline, write_multiline};
use postgis_diesel::multipoint::{read_multipoint, write_multi_point};
use postgis_diesel::multipolygon::{read_multi_polygon, write_multi_polygon};
use postgis_diesel::points::{read_point, write_point};
use postgis_diesel::polygon::{read_polygon, write_polygon};
use postgis_diesel::types::{
    GeometryCollection, GeometryContainer, LineString, MultiLineString, MultiPoint, MultiPolygon,
    Point, PointT, PointZ, Polygon,
};

struct Sample<P> {
    point: P,
    linestring: LineString<P>,
    polygon: Polygon<P>,
    multipoint: MultiPoint<P>,
    multiline: MultiLineString<P>,
    multipolygon: MultiPolygon<P>,
    geometrycollection: GeometryCollection<P>,
}

const TUPLES: [(f64, f64, f64); 5] = [
    (1., 3., 1.),
    (2., 1., 2.),
    (3., 4., 3.),
    (4., 2., 4.),
    (1., 3., 1.),
];

fn mock<P: PointT + Clone>(from_tuple: fn((f64, f64, f64)) -> P) -> Sample<P> {
    let points: Vec<P> = TUPLES.iter().copied().map(from_tuple).collect();
    let linestring = || LineString { points: points.clone() };
    let polygon = || Polygon { rings: vec![points.clone()] };
    let multipoint = || MultiPoint { points: points.clone() };
    let multiline = || MultiLineString { lines: vec![linestring(), linestring()] };
    let multipolygon = || MultiPolygon { polygons: vec![polygon(), polygon()] };
    let geometrycollection = GeometryCollection {
        geometries: vec![
            GeometryContainer::Point(points[0]),
            GeometryContainer::MultiPoint(multipoint()),
            GeometryContainer::MultiLineString(multiline()),
            GeometryContainer::MultiPolygon(multipolygon()),
        ],
    };
    Sample {
        point: points[0],
        linestring: linestring(),
        polygon: polygon(),
        multipoint: multipoint(),
        multiline: multiline(),
        multipolygon: multipolygon(),
        geometrycollection,
    }
}

fn point_2d(t: (f64, f64, f64)) -> Point {
    Point { x: t.0.to_bits(), y: t.1.to_bits() }
}

fn point_3d(t: (f64, f64, f64)) -> PointZ {
    PointZ { x: t.0.to_bits(), y: t.1.to_bits(), z: t.2.to_bits() }
}

fn check_sample<P: PointT + Clone + PartialEq + std::fmt::Debug>(sample: &Sample<P>) {
    let mut out = Vec::new();
    write_point(&sample.point, Some(4326), &mut out);
    assert_eq!(sample.point, read_point::<P>(&out, 4326).unwrap());

    let mut out = Vec::new();
    write_linestring(&sample.linestring, Some(4326), &mut out);
    assert_eq!(sample.linestring, read_linestring::<P>(&out, 4326).unwrap());

    let mut out = Vec::new();
    write_polygon(&sample.polygon, Some(4326), &mut out);
    assert_eq!(sample.polygon, read_polygon::<P>(&out, 4326).unwrap());

    let mut out = Vec::new();
    write_multi_point(&sample.multipoint, Some(4326), &mut out);
    assert_eq!(sample.multipoint, read_multipoint::<P>(&out, 4326).unwrap());

    let mut out = Vec::new();
    write_multiline(&sample.multiline, Some(4326), &mut out);
    assert_eq!(sample.multiline, read_multiline::<P>(&out, 4326).unwrap());

    let mut out = Vec::new();
    write_multi_polygon(&sample.multipolygon, Some(4326), &mut out);
    assert_eq!(sample.multipolygon, read_multi_polygon::<P>(&out, 4326).unwrap());

    let mut out = Vec::new();
    write_geometry_collection(&sample.geometrycollection, Some(4326), &mut out);
    assert_eq!(
        sample.geometrycollection,
        read_geometry_collection::<P>(&out, 4326).unwrap()
    );
}

#[test]
fn from_to_sql_test_srid_test() {
    let sample = mock(point_2d);
    let mut out = Vec::new();
    write_point(&sample.point, Some(4326), &mut out);

    let point_4326 = read_point::<Point>(&out, 4326).unwrap();
    assert_eq!(point_4326, sample.point);

    let point_9999 = read_point::<Point>(&out, 9999);
    assert!(point_9999.is_err());
    assert_eq!(
        point_9999.unwrap_err().to_string(),
        "Wrong SRID in database: Some(4326), Expected: 9999"
    );
}

#[test]
fn from_to_sql_test_smoke_test() {
    check_sample(&mock(point_2d));
    check_sample(&mock(point_3d));
}

fn read_back(g: &GeometryContainer<PointZ>) -> GeometryContainer<PointZ> {
    let mut out = Vec::new();
    write_geometry_container(g, Some(4326), &mut out);
    read_geometry_container::<PointZ>(&out, 4326).expect("could not get from sample")
}

#[test]
fn geo_container_test() {
    let checks: Vec<fn(Sample<PointZ>) -> GeometryContainer<PointZ>> = vec![
        |s| GeometryContainer::Point(s.point),
        |s| GeometryContainer::LineString(s.linestring),
        |s| GeometryContainer::Polygon(s.polygon),
        |s| GeometryContainer::MultiPoint(s.multipoint),
        |s| GeometryContainer::MultiLineString(s.multiline),
        |s| GeometryContainer::MultiPolygon(s.multipolygon),
        |s| GeometryContainer::GeometryCollection(s.geometrycollection),
    ];
    for pick in checks {
        let expected = pick(mock(point_3d));
        assert_eq!(read_back(&pick(mock(point_3d))), expected);
    }
}
