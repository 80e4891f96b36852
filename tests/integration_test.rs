use postgis_diesel::geometrycollection::{read_geometry_collection, write_geometry_collection};
use postgis_diesel::linestring::{read_linestring, write_linestring};
use postgis_diesel::multiline::{read_multiline, write_multiline};
use postgis_diesel::multipoint::{read_multipoint, write_multi_point};
use postgis_diesel::multipolygon::{read_multi_polygon, write_multi_polygon};
use postgis_diesel::points::{read_point, write_point};
use postgis_diesel::polygon::{read_polygon, write_polygon};
use postgis_diesel::types::{
    GeometryCollection, GeometryContainer, LineString, MultiLineString, MultiPoint, MultiPolygon,
    Point, PointM, PointZ, PointZM, Polygon,
};

fn new_line(points: Vec<(f64, f64)>) -> LineString<Point> {
    let mut l_points = Vec::with_capacity(points.len());
    for p in points {
        l_points.push(new_point(p.0, p.1));
    }
    LineString { points: l_points }
}

fn new_point(x: f64, y: f64) -> Point {
    Point { x: x.to_bits(), y: y.to_bits() }
}

fn new_point_z(x: f64, y: f64, z: f64) -> PointZ {
    PointZ { x: x.to_bits(), y: y.to_bits(), z: z.to_bits() }
}

fn new_point_m(x: f64, y: f64, m: f64) -> PointM {
    PointM { x: x.to_bits(), y: y.to_bits(), m: m.to_bits() }
}

fn new_point_zm(x: f64, y: f64, z: f64, m: f64) -> PointZM {
    PointZM { x: x.to_bits(), y: y.to_bits(), z: z.to_bits(), m: m.to_bits() }
}

fn new_polygon() -> Polygon<Point> {
    let mut polygon = Polygon::new();
    polygon.add_points(&vec![
        new_point(72.0, 64.0),
        new_point(73.0, 65.0),
        new_point(71.0, 62.0),
        new_point(72.0, 64.0),
    ]);
    polygon
}

fn new_multiline() -> MultiLineString<Point> {
    let mut multiline = MultiLineString::new();
    multiline.add_points(&vec![new_point(72.0, 64.0), new_point(73.0, 65.0)]);
    multiline.add_line();
    multiline.add_points(&vec![new_point(71.0, 62.0), new_point(72.0, 64.0)]);
    multiline
}

fn new_multipolygon() -> MultiPolygon<Point> {
    let mut multipolygon = MultiPolygon::new();
    multipolygon.add_empty_polygon();
    multipolygon.add_points(&vec![
        new_point(72.0, 64.0),
        new_point(73.0, 65.0),
        new_point(71.0, 62.0),
        new_point(72.0, 64.0),
    ]);
    multipolygon.add_empty_polygon();
    multipolygon.add_points(&vec![
        new_point(75.0, 64.0),
        new_point(74.0, 65.0),
        new_point(74.0, 62.0),
        new_point(75.0, 64.0),
    ]);
    multipolygon
}

fn new_geometry_collection() -> GeometryCollection<Point> {
    let mut gc = GeometryCollection::new();
    gc.geometries.push(GeometryContainer::Point(new_point(73.0, 64.0)));
    gc.geometries.push(GeometryContainer::LineString(new_line(vec![(72.0, 64.0), (73.0, 64.0)])));
    gc.geometries.push(GeometryContainer::Polygon(new_polygon()));
    gc.geometries.push(GeometryContainer::MultiPoint(MultiPoint {
        points: vec![new_point(72.0, 64.0), new_point(73.0, 64.0)],
    }));
    gc.geometries.push(GeometryContainer::MultiLineString(new_multiline()));
    gc.geometries.push(GeometryContainer::MultiPolygon(new_multipolygon()));
    let mut inner_gc = GeometryCollection::new();
    inner_gc.geometries.push(GeometryContainer::Point(new_point(74.0, 64.0)));
    gc.geometries.push(GeometryContainer::GeometryCollection(inner_gc));
    gc
}

#[test]
fn integration_test_srid_test() {
    let point = new_point(72.0, 64.0);
    let mut out = Vec::new();
    write_point(&point, Some(4326), &mut out);

    let point_4326 = read_point::<Point>(&out, 4326).unwrap();
    assert_eq!(point_4326, point);

    let point_9999 = read_point::<Point>(&out, 9999);
    assert!(point_9999.is_err());
    assert_eq!(
        point_9999.unwrap_err().to_string(),
        "Wrong SRID in database: Some(4326), Expected: 9999"
    );
}

#[test]
fn integration_test_smoke_test() {
    let point = new_point(72.0, 64.0);
    let mut out = Vec::new();
    write_point(&point, Some(4326), &mut out);
    assert_eq!(point, read_point::<Point>(&out, 4326).unwrap());

    let point_z = new_point_z(72.0, 64.0, 10.0);
    let mut out = Vec::new();
    write_point(&point_z, Some(4326), &mut out);
    assert_eq!(point_z, read_point::<PointZ>(&out, 4326).unwrap());

    let point_m = new_point_m(72.0, 64.0, 11.0);
    let mut out = Vec::new();
    write_point(&point_m, Some(4326), &mut out);
    assert_eq!(point_m, read_point::<PointM>(&out, 4326).unwrap());

    let point_zm = new_point_zm(72.0, 64.0, 10.0, 11.0);
    let mut out = Vec::new();
    write_point(&point_zm, Some(4326), &mut out);
    assert_eq!(point_zm, read_point::<PointZM>(&out, 4326).unwrap());

    let linestring = new_line(vec![(72.0, 64.0), (73.0, 64.0)]);
    let mut out = Vec::new();
    write_linestring(&linestring, Some(4326), &mut out);
    assert_eq!(linestring, read_linestring::<Point>(&out, 4326).unwrap());

    let polygon = new_polygon();
    let mut out = Vec::new();
    write_polygon(&polygon, Some(4326), &mut out);
    assert_eq!(polygon, read_polygon::<Point>(&out, 4326).unwrap());

    let multipoint = MultiPoint { points: vec![new_point(72.0, 64.0), new_point(73.0, 64.0)] };
    let mut out = Vec::new();
    write_multi_point(&multipoint, Some(4326), &mut out);
    assert_eq!(multipoint, read_multipoint::<Point>(&out, 4326).unwrap());

    let multiline = new_multiline();
    let mut out = Vec::new();
    write_multiline(&multiline, Some(4326), &mut out);
    assert_eq!(multiline, read_multiline::<Point>(&out, 4326).unwrap());

    let multipolygon = new_multipolygon();
    let mut out = Vec::new();
    write_multi_polygon(&multipolygon, Some(4326), &mut out);
    assert_eq!(multipolygon, read_multi_polygon::<Point>(&out, 4326).unwrap());

    let gemetrycollection = new_geometry_collection();
    let mut out = Vec::new();
    write_geometry_collection(&gemetrycollection, Some(4326), &mut out);
    assert_eq!(gemetrycollection, read_geometry_collection::<Point>(&out, 4326).unwrap());
}
