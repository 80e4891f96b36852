use vstd::prelude::*;
use vstd::string::StringExecFns;
use crate::error::PointConstructorError;
use crate::ewkb::{
    decode_point, enc_coords, enc_geometry, parse_coords, read_top_header, write_ewkb_header,
};
use crate::error::EwkbError;
use crate::wire::{agrees, outcome, read_u64, write_u64};
use crate::types::{dim_flags, GeometryModel, Point, PointM, PointT, PointZ, PointZM, M_FLAG, Z_FLAG};

verus! {

/// The coordinates a geometry carries beyond x and y.
#[derive(Copy, Clone, Debug, PartialEq, Eq, Structural)]
pub enum Dimension {
    Plain,
    Z,
    M,
    ZM,
}

impl Dimension {
    pub open spec fn spec_flags(self) -> u32 {
        match self {
            Dimension::Plain => dim_flags(false, false),
            Dimension::Z => dim_flags(true, false),
            Dimension::M => dim_flags(false, true),
            Dimension::ZM => dim_flags(true, true),
        }
    }

    /// The bits this dimension sets in a type word.
    pub fn flags(&self) -> (r: u32)
        ensures
            r == self.spec_flags(),
    {
        assert(dim_flags(false, false) == 0u32) by (bit_vector);
        assert(dim_flags(true, false) == 0x8000_0000u32) by (bit_vector);
        assert(dim_flags(false, true) == 0x4000_0000u32) by (bit_vector);
        assert(dim_flags(true, true) == 0xC000_0000u32) by (bit_vector);
        match self {
            Dimension::Plain => 0,
            Dimension::Z => Z_FLAG,
            Dimension::M => M_FLAG,
            Dimension::ZM => Z_FLAG | M_FLAG,
        }
    }
}

fn reason(s: &str) -> (r: PointConstructorError)
    ensures
        r.reason@ == s@,
{
    PointConstructorError { reason: String::from_str(s) }
}

impl Point {
    pub fn new(x: u64, y: u64) -> (r: Self)
        ensures
            r == (Point { x, y }),
    {
        Self { x, y }
    }
}

impl PointZ {
    pub fn new(x: u64, y: u64, z: u64) -> (r: Self)
        ensures
            r == (PointZ { x, y, z }),
    {
        Self { x, y, z }
    }
}

impl PointM {
    pub fn new(x: u64, y: u64, m: u64) -> (r: Self)
        ensures
            r == (PointM { x, y, m }),
    {
        Self { x, y, m }
    }
}

impl PointZM {
    pub fn new(x: u64, y: u64, z: u64, m: u64) -> (r: Self)
        ensures
            r == (PointZM { x, y, z, m }),
    {
        Self { x, y, z, m }
    }
}

impl PointT for Point {
    open spec fn spec_x(&self) -> u64 {
        self.x
    }

    open spec fn spec_y(&self) -> u64 {
        self.y
    }

    open spec fn spec_z(&self) -> Option<u64> {
        None
    }

    open spec fn spec_m(&self) -> Option<u64> {
        None
    }

    open spec fn spec_has_z() -> bool {
        false
    }

    open spec fn spec_has_m() -> bool {
        false
    }

    open spec fn spec_new_point(x: u64, y: u64, z: Option<u64>, m: Option<u64>) -> Result<Self, Seq<char>> {
        if z.is_some() || m.is_some() {
            Err("unexpectedly defined Z or M for Point"@)
        } else {
            Ok(Point { x, y })
        }
    }

    proof fn lemma_point(p: Self) {
    }

    proof fn lemma_new_point(x: u64, y: u64, z: Option<u64>, m: Option<u64>) {
    }

    fn new_point(x: u64, y: u64, z: Option<u64>, m: Option<u64>) -> (r: Result<Self, PointConstructorError>) {
        if z.is_some() || m.is_some() {
            proof {
                reveal_strlit("unexpectedly defined Z or M for Point");
            }
            return Err(reason("unexpectedly defined Z or M for Point"));
        }
        Ok(Point { x, y })
    }

    fn get_x(&self) -> (r: u64) {
        self.x
    }

    fn get_y(&self) -> (r: u64) {
        self.y
    }

    fn get_z(&self) -> (r: Option<u64>) {
        None
    }

    fn get_m(&self) -> (r: Option<u64>) {
        None
    }

    fn dimension(&self) -> (r: u32) {
        Dimension::Plain.flags()
    }
}

impl PointT for PointZ {
    open spec fn spec_x(&self) -> u64 {
        self.x
    }

    open spec fn spec_y(&self) -> u64 {
        self.y
    }

    open spec fn spec_z(&self) -> Option<u64> {
        Some(self.z)
    }

    open spec fn spec_m(&self) -> Option<u64> {
        None
    }

    open spec fn spec_has_z() -> bool {
        true
    }

    open spec fn spec_has_m() -> bool {
        false
    }

    open spec fn spec_new_point(x: u64, y: u64, z: Option<u64>, m: Option<u64>) -> Result<Self, Seq<char>> {
        match z {
            None => Err("Z is not defined, but mandatory for PointZ"@),
            Some(z) => if m.is_some() {
                Err("unexpectedly defined m for PointZ"@)
            } else {
                Ok(PointZ { x, y, z })
            },
        }
    }

    proof fn lemma_point(p: Self) {
    }

    proof fn lemma_new_point(x: u64, y: u64, z: Option<u64>, m: Option<u64>) {
    }

    fn new_point(x: u64, y: u64, z: Option<u64>, m: Option<u64>) -> (r: Result<Self, PointConstructorError>) {
        proof {
            reveal_strlit("Z is not defined, but mandatory for PointZ");
            reveal_strlit("unexpectedly defined m for PointZ");
        }
        match z {
            None => Err(reason("Z is not defined, but mandatory for PointZ")),
            Some(z) => if m.is_some() {
                Err(reason("unexpectedly defined m for PointZ"))
            } else {
                Ok(PointZ { x, y, z })
            },
        }
    }

    fn get_x(&self) -> (r: u64) {
        self.x
    }

    fn get_y(&self) -> (r: u64) {
        self.y
    }

    fn get_z(&self) -> (r: Option<u64>) {
        Some(self.z)
    }

    fn get_m(&self) -> (r: Option<u64>) {
        None
    }

    fn dimension(&self) -> (r: u32) {
        Dimension::Z.flags()
    }
}

impl PointT for PointM {
    open spec fn spec_x(&self) -> u64 {
        self.x
    }

    open spec fn spec_y(&self) -> u64 {
        self.y
    }

    open spec fn spec_z(&self) -> Option<u64> {
        None
    }

    open spec fn spec_m(&self) -> Option<u64> {
        Some(self.m)
    }

    open spec fn spec_has_z() -> bool {
        false
    }

    open spec fn spec_has_m() -> bool {
        true
    }

    open spec fn spec_new_point(x: u64, y: u64, z: Option<u64>, m: Option<u64>) -> Result<Self, Seq<char>> {
        match m {
            None => Err("M is not defined, but mandatory for PointM"@),
            Some(m) => if z.is_some() {
                Err("unexpectedly defined z for PointM"@)
            } else {
                Ok(PointM { x, y, m })
            },
        }
    }

    proof fn lemma_point(p: Self) {
    }

    proof fn lemma_new_point(x: u64, y: u64, z: Option<u64>, m: Option<u64>) {
    }

    fn new_point(x: u64, y: u64, z: Option<u64>, m: Option<u64>) -> (r: Result<Self, PointConstructorError>) {
        proof {
            reveal_strlit("M is not defined, but mandatory for PointM");
            reveal_strlit("unexpectedly defined z for PointM");
        }
        match m {
            None => Err(reason("M is not defined, but mandatory for PointM")),
            Some(m) => if z.is_some() {
                Err(reason("unexpectedly defined z for PointM"))
            } else {
                Ok(PointM { x, y, m })
            },
        }
    }

    fn get_x(&self) -> (r: u64) {
        self.x
    }

    fn get_y(&self) -> (r: u64) {
        self.y
    }

    fn get_z(&self) -> (r: Option<u64>) {
        None
    }

    fn get_m(&self) -> (r: Option<u64>) {
        Some(self.m)
    }

    fn dimension(&self) -> (r: u32) {
        Dimension::M.flags()
    }
}

impl PointT for PointZM {
    open spec fn spec_x(&self) -> u64 {
        self.x
    }

    open spec fn spec_y(&self) -> u64 {
        self.y
    }

    open spec fn spec_z(&self) -> Option<u64> {
        Some(self.z)
    }

    open spec fn spec_m(&self) -> Option<u64> {
        Some(self.m)
    }

    open spec fn spec_has_z() -> bool {
        true
    }

    open spec fn spec_has_m() -> bool {
        true
    }

    open spec fn spec_new_point(x: u64, y: u64, z: Option<u64>, m: Option<u64>) -> Result<Self, Seq<char>> {
        match z {
            None => Err("Z is not defined, but mandatory for PointZM"@),
            Some(z) => match m {
                None => Err("M is not defined, but mandatory for PointZM"@),
                Some(m) => Ok(PointZM { x, y, z, m }),
            },
        }
    }

    proof fn lemma_point(p: Self) {
    }

    proof fn lemma_new_point(x: u64, y: u64, z: Option<u64>, m: Option<u64>) {
    }

    fn new_point(x: u64, y: u64, z: Option<u64>, m: Option<u64>) -> (r: Result<Self, PointConstructorError>) {
        proof {
            reveal_strlit("Z is not defined, but mandatory for PointZM");
            reveal_strlit("M is not defined, but mandatory for PointZM");
        }
        match z {
            None => Err(reason("Z is not defined, but mandatory for PointZM")),
            Some(z) => match m {
                None => Err(reason("M is not defined, but mandatory for PointZM")),
                Some(m) => Ok(PointZM { x, y, z, m }),
            },
        }
    }

    fn get_x(&self) -> (r: u64) {
        self.x
    }

    fn get_y(&self) -> (r: u64) {
        self.y
    }

    fn get_z(&self) -> (r: Option<u64>) {
        Some(self.z)
    }

    fn get_m(&self) -> (r: Option<u64>) {
        Some(self.m)
    }

    fn dimension(&self) -> (r: u32) {
        Dimension::ZM.flags()
    }
}

/// Writes a point with its envelope.
pub fn write_point<T: PointT>(point: &T, srid: Option<u32>, out: &mut Vec<u8>)
    ensures
        final(out)@ == old(out)@ + enc_geometry(GeometryModel::Point(*point), srid, true),
{
    write_ewkb_header(1 | point.dimension(), srid, out);
    write_point_coordinates(point, out);
    assert(final(out)@ =~= old(out)@ + enc_geometry(GeometryModel::Point(*point), srid, true));
}

/// Writes x, y, then z and m where the point has them, little-endian.
pub fn write_point_coordinates<T: PointT>(point: &T, out: &mut Vec<u8>)
    ensures
        final(out)@ == old(out)@ + enc_coords(*point, true),
{
    write_u64(out, point.get_x());
    write_u64(out, point.get_y());
    match point.get_z() {
        Some(z) => write_u64(out, z),
        None => {},
    }
    match point.get_m() {
        Some(m) => write_u64(out, m),
        None => {},
    }
    assert(final(out)@ =~= old(out)@ + enc_coords(*point, true));
}

/// Reads the coordinates that the flags of `g_type` announce and builds a
/// point of variant `T` from them.
pub fn read_point_coordinates<T: PointT>(buf: &[u8], pos: &mut usize, little: bool, g_type: u32) -> (r: Result<T, EwkbError>)
    requires
        *old(pos) <= buf@.len(),
    ensures
        *final(pos) <= buf@.len(),
        *old(pos) <= *final(pos),
        agrees(r, *final(pos), parse_coords::<T>(buf@, *old(pos) as int, little, g_type)),
{
    let x: u64 = read_u64(buf, pos, little)?;
    let y: u64 = read_u64(buf, pos, little)?;
    let z: Option<u64> = if g_type & Z_FLAG == Z_FLAG {
        Some(read_u64(buf, pos, little)?)
    } else {
        None
    };
    let m: Option<u64> = if g_type & M_FLAG == M_FLAG {
        Some(read_u64(buf, pos, little)?)
    } else {
        None
    };
    match T::new_point(x, y, z, m) {
        Ok(p) => Ok(p),
        Err(e) => Err(EwkbError::PointConstruction(e)),
    }
}

/// Decodes a top-level point whose SRID must be `expected`.
pub fn read_point<T: PointT>(buf: &[u8], expected: u32) -> (r: Result<T, EwkbError>)
    ensures
        outcome(r, decode_point::<T>(buf@, expected)),
{
    let (h, start) = read_top_header(buf, expected)?;
    let mut pos: usize = start;
    read_point_coordinates::<T>(buf, &mut pos, h.little, h.g_type)
}

} // verus!
