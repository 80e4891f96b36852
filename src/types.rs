use vstd::prelude::*;
use crate::error::PointConstructorError;

verus! {

/// A two-dimensional point. Coordinates are IEEE-754 bit patterns.
#[derive(Copy, Clone, Debug, PartialEq, Eq, Structural)]
pub struct Point {
    pub x: u64,
    pub y: u64,
}

/// A point with an elevation.
#[derive(Copy, Clone, Debug, PartialEq, Eq, Structural)]
pub struct PointZ {
    pub x: u64,
    pub y: u64,
    pub z: u64,
}

/// A point with a measure.
#[derive(Copy, Clone, Debug, PartialEq, Eq, Structural)]
pub struct PointM {
    pub x: u64,
    pub y: u64,
    pub m: u64,
}

/// A point with an elevation and a measure.
#[derive(Copy, Clone, Debug, PartialEq, Eq, Structural)]
pub struct PointZM {
    pub x: u64,
    pub y: u64,
    pub z: u64,
    pub m: u64,
}

/// What every point variant offers: its coordinates, its dimension flags and a
/// constructor that checks the optional coordinates against the variant.
pub trait PointT: Sized + Copy {
    spec fn spec_x(&self) -> u64;

    spec fn spec_y(&self) -> u64;

    spec fn spec_z(&self) -> Option<u64>;

    spec fn spec_m(&self) -> Option<u64>;

    /// Whether the variant carries an elevation.
    spec fn spec_has_z() -> bool;

    /// Whether the variant carries a measure.
    spec fn spec_has_m() -> bool;

    /// The point built from these coordinates, or the reason none can be.
    spec fn spec_new_point(x: u64, y: u64, z: Option<u64>, m: Option<u64>) -> Result<Self, Seq<char>>;

    /// A point carries exactly the coordinates of its variant, and building a
    /// point from its own coordinates gives it back.
    proof fn lemma_point(p: Self)
        ensures
            p.spec_z().is_some() == Self::spec_has_z(),
            p.spec_m().is_some() == Self::spec_has_m(),
            Self::spec_new_point(p.spec_x(), p.spec_y(), p.spec_z(), p.spec_m()) == Ok::<
                Self,
                Seq<char>,
            >(p),
    ;

    /// The constructor succeeds exactly when the optional coordinates present
    /// are the ones the variant carries, and keeps them all.
    proof fn lemma_new_point(x: u64, y: u64, z: Option<u64>, m: Option<u64>)
        ensures
            Self::spec_new_point(x, y, z, m) is Ok <==> (z.is_some() == Self::spec_has_z()
                && m.is_some() == Self::spec_has_m()),
            Self::spec_new_point(x, y, z, m) is Ok ==> {
                let p = Self::spec_new_point(x, y, z, m)->Ok_0;
                &&& p.spec_x() == x
                &&& p.spec_y() == y
                &&& p.spec_z() == z
                &&& p.spec_m() == m
            },
    ;

    fn new_point(x: u64, y: u64, z: Option<u64>, m: Option<u64>) -> (r: Result<
        Self,
        PointConstructorError,
    >)
        ensures
            match r {
                Ok(p) => Self::spec_new_point(x, y, z, m) == Ok::<Self, Seq<char>>(p),
                Err(e) => Self::spec_new_point(x, y, z, m) == Err::<Self, Seq<char>>(e.reason@),
            },
    ;

    fn get_x(&self) -> (r: u64)
        ensures
            r == self.spec_x(),
    ;

    fn get_y(&self) -> (r: u64)
        ensures
            r == self.spec_y(),
    ;

    fn get_z(&self) -> (r: Option<u64>)
        ensures
            r == self.spec_z(),
    ;

    fn get_m(&self) -> (r: Option<u64>)
        ensures
            r == self.spec_m(),
    ;

    /// The dimension flags of the variant.
    fn dimension(&self) -> (r: u32)
        ensures
            r == dim_flags(Self::spec_has_z(), Self::spec_has_m()),
    ;
}

/// Flag bit of the type word: the geometry carries elevations.
pub const Z_FLAG: u32 = 0x8000_0000;

/// Flag bit of the type word: the geometry carries measures.
pub const M_FLAG: u32 = 0x4000_0000;

pub open spec fn dim_flags(has_z: bool, has_m: bool) -> u32 {
    (if has_z {
        Z_FLAG
    } else {
        0u32
    }) | (if has_m {
        M_FLAG
    } else {
        0u32
    })
}

/// The dimension flags of a point variant.
pub open spec fn point_dim<T: PointT>() -> u32 {
    dim_flags(T::spec_has_z(), T::spec_has_m())
}

/// The dimension flags of a sequence of points: those of its first point.
pub open spec fn points_dim<T: PointT>(ps: Seq<T>) -> u32 {
    if ps.len() > 0 {
        point_dim::<T>()
    } else {
        0
    }
}

/// The dimension flags of a sequence of rings or lines: those of its first one.
pub open spec fn rings_dim<T: PointT>(rs: Seq<Seq<T>>) -> u32 {
    if rs.len() > 0 {
        points_dim(rs[0])
    } else {
        0
    }
}

/// The dimension flags of a sequence of polygons: those of its first one.
pub open spec fn polygons_dim<T: PointT>(ps: Seq<Seq<Seq<T>>>) -> u32 {
    if ps.len() > 0 {
        rings_dim(ps[0])
    } else {
        0
    }
}

/// A set of points.
#[derive(Clone, Debug, PartialEq)]
pub struct MultiPoint<T> {
    pub points: Vec<T>,
}

/// A path through a sequence of points.
#[derive(Clone, Debug, PartialEq)]
pub struct LineString<T> {
    pub points: Vec<T>,
}

/// A set of paths.
#[derive(Clone, Debug, PartialEq)]
pub struct MultiLineString<T> {
    pub lines: Vec<LineString<T>>,
}

/// A surface: the first ring bounds it, the others are holes.
#[derive(Clone, Debug, PartialEq)]
pub struct Polygon<T> {
    pub rings: Vec<Vec<T>>,
}

/// A set of surfaces.
#[derive(Clone, Debug, PartialEq)]
pub struct MultiPolygon<T> {
    pub polygons: Vec<Polygon<T>>,
}

/// Any one geometry.
#[derive(Debug, PartialEq)]
pub enum GeometryContainer<T> {
    Point(T),
    LineString(LineString<T>),
    Polygon(Polygon<T>),
    MultiPoint(MultiPoint<T>),
    MultiLineString(MultiLineString<T>),
    MultiPolygon(MultiPolygon<T>),
    GeometryCollection(GeometryCollection<T>),
}

/// A sequence of geometries of any kind, collections included.
#[derive(Debug, PartialEq)]
pub struct GeometryCollection<T> {
    pub geometries: Vec<GeometryContainer<T>>,
}

/// A geometry as a mathematical value.
pub enum GeometryModel<T> {
    Point(T),
    LineString(Seq<T>),
    Polygon(Seq<Seq<T>>),
    MultiPoint(Seq<T>),
    MultiLineString(Seq<Seq<T>>),
    MultiPolygon(Seq<Seq<Seq<T>>>),
    GeometryCollection(Seq<GeometryModel<T>>),
}

impl<T> View for MultiPoint<T> {
    type V = Seq<T>;

    open spec fn view(&self) -> Seq<T> {
        self.points@
    }
}

impl<T> View for LineString<T> {
    type V = Seq<T>;

    open spec fn view(&self) -> Seq<T> {
        self.points@
    }
}

impl<T> View for MultiLineString<T> {
    type V = Seq<Seq<T>>;

    open spec fn view(&self) -> Seq<Seq<T>> {
        self.lines@.map_values(|l: LineString<T>| l@)
    }
}

impl<T> View for Polygon<T> {
    type V = Seq<Seq<T>>;

    open spec fn view(&self) -> Seq<Seq<T>> {
        self.rings@.map_values(|r: Vec<T>| r@)
    }
}

impl<T> View for MultiPolygon<T> {
    type V = Seq<Seq<Seq<T>>>;

    open spec fn view(&self) -> Seq<Seq<Seq<T>>> {
        self.polygons@.map_values(|p: Polygon<T>| p@)
    }
}

pub open spec fn container_model<T>(g: GeometryContainer<T>) -> GeometryModel<T>
    decreases g,
{
    match g {
        GeometryContainer::Point(p) => GeometryModel::Point(p),
        GeometryContainer::LineString(l) => GeometryModel::LineString(l@),
        GeometryContainer::Polygon(p) => GeometryModel::Polygon(p@),
        GeometryContainer::MultiPoint(m) => GeometryModel::MultiPoint(m@),
        GeometryContainer::MultiLineString(m) => GeometryModel::MultiLineString(m@),
        GeometryContainer::MultiPolygon(m) => GeometryModel::MultiPolygon(m@),
        GeometryContainer::GeometryCollection(c) => {
            GeometryModel::GeometryCollection(container_models(c.geometries@))
        },
    }
}

pub open spec fn container_models<T>(s: Seq<GeometryContainer<T>>) -> Seq<GeometryModel<T>>
    decreases s,
{
    if s.len() == 0 {
        Seq::empty()
    } else {
        container_models(s.drop_last()).push(container_model(s.last()))
    }
}

/// The model of a sequence of geometries is element for element.
pub proof fn lemma_container_models<T>(s: Seq<GeometryContainer<T>>)
    ensures
        container_models(s).len() == s.len(),
        forall|i: int| 0 <= i < s.len() ==> #[trigger] container_models(s)[i] == container_model(s[i]),
    decreases s.len(),
{
    if s.len() > 0 {
        lemma_container_models(s.drop_last());
    }
}

impl<T> View for GeometryContainer<T> {
    type V = GeometryModel<T>;

    open spec fn view(&self) -> GeometryModel<T> {
        container_model(*self)
    }
}

impl<T> View for GeometryCollection<T> {
    type V = Seq<GeometryModel<T>>;

    open spec fn view(&self) -> Seq<GeometryModel<T>> {
        container_models(self.geometries@)
    }
}

} // verus!
