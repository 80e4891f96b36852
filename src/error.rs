use vstd::prelude::*;
use vstd::string::StringExecFns;

verus! {

/// Raised when the SRID found in encoded data is not the one the caller expects.
#[derive(Debug, Clone, PartialEq, Eq, Structural)]
pub struct SRIDError {
    pub got: Option<u32>,
    pub want: u32,
}

impl SRIDError {
    pub fn new(got: Option<u32>, want: u32) -> (r: Self)
        ensures
            r.got == got,
            r.want == want,
    {
        Self { got, want }
    }

    /// "Wrong SRID in database: <found-or-None>, Expected: <expected>"
    pub fn to_string(&self) -> (r: String)
        ensures
            r@ == srid_message(self.got, self.want),
    {
        let mut s = String::from_str("Wrong SRID in database: ");
        match self.got {
            Some(g) => {
                s.append("Some(");
                push_decimal(&mut s, g);
                s.append(")");
            },
            None => {
                s.append("None");
            },
        }
        s.append(", Expected: ");
        push_decimal(&mut s, self.want);
        proof {
            reveal_strlit("Wrong SRID in database: ");
            reveal_strlit("Some(");
            reveal_strlit(")");
            reveal_strlit("None");
            reveal_strlit(", Expected: ");
        }
        assert(s@ =~= srid_message(self.got, self.want));
        s
    }
}

/// Succeeds exactly when the SRID found is present and equal to the expected one.
pub fn check_srid(got: Option<u32>, want: u32) -> (r: Result<(), SRIDError>)
    ensures
        r == (if got == Some(want) {
            Ok::<(), SRIDError>(())
        } else {
            Err(SRIDError { got, want })
        }),
{
    let matches = match got {
        Some(g) => g == want,
        None => false,
    };
    if !matches {
        Err(SRIDError::new(got, want))
    } else {
        Ok(())
    }
}

/// Raised when a point is built with coordinates its variant does not carry,
/// or without one it requires.
#[derive(Debug, Clone, PartialEq)]
pub struct PointConstructorError {
    pub reason: String,
}

impl PointConstructorError {
    /// "can't construct point: <reason>"
    pub fn to_string(&self) -> (r: String)
        ensures
            r@ == "can't construct point: "@ + self.reason@,
    {
        let s = String::from_str("can't construct point: ");
        let r = s.concat(self.reason.as_str());
        proof {
            reveal_strlit("can't construct point: ");
        }
        r
    }
}

/// The ways a decode can fail, as plain values.
pub enum DecodeFailure {
    UnexpectedEnd,
    UnknownGeometryType(u32),
    Srid(Option<u32>, u32),
    PointConstruction(Seq<char>),
}

/// Errors raised while decoding EWKB data.
#[derive(Debug, Clone, PartialEq)]
pub enum EwkbError {
    /// The buffer ended before the value did.
    UnexpectedEnd,
    /// The type word names no known geometry type.
    UnknownGeometryType(u32),
    /// The SRID does not match the expected one.
    Srid(SRIDError),
    /// The coordinates read do not fit the requested point variant.
    PointConstruction(PointConstructorError),
}

impl View for EwkbError {
    type V = DecodeFailure;

    open spec fn view(&self) -> DecodeFailure {
        match self {
            EwkbError::UnexpectedEnd => DecodeFailure::UnexpectedEnd,
            EwkbError::UnknownGeometryType(c) => DecodeFailure::UnknownGeometryType(*c),
            EwkbError::Srid(e) => DecodeFailure::Srid(e.got, e.want),
            EwkbError::PointConstruction(e) => DecodeFailure::PointConstruction(e.reason@),
        }
    }
}

impl EwkbError {
    pub fn to_string(&self) -> (r: String)
        ensures
            r@ == failure_message(self@),
    {
        match self {
            EwkbError::UnexpectedEnd => {
                proof {
                    reveal_strlit("unexpected end of input");
                }
                String::from_str("unexpected end of input")
            },
            EwkbError::UnknownGeometryType(c) => {
                let mut s = String::from_str("unknown geometry type: ");
                push_decimal(&mut s, *c);
                proof {
                    reveal_strlit("unknown geometry type: ");
                }
                s
            },
            EwkbError::Srid(e) => e.to_string(),
            EwkbError::PointConstruction(e) => e.to_string(),
        }
    }
}

pub open spec fn failure_message(f: DecodeFailure) -> Seq<char> {
    match f {
        DecodeFailure::UnexpectedEnd => "unexpected end of input"@,
        DecodeFailure::UnknownGeometryType(c) => "unknown geometry type: "@ + decimal(c as nat),
        DecodeFailure::Srid(got, want) => srid_message(got, want),
        DecodeFailure::PointConstruction(reason) => "can't construct point: "@ + reason,
    }
}

pub open spec fn srid_message(got: Option<u32>, want: u32) -> Seq<char> {
    "Wrong SRID in database: "@ + match got {
        Some(g) => "Some("@ + decimal(g as nat) + ")"@,
        None => "None"@,
    } + ", Expected: "@ + decimal(want as nat)
}

pub open spec fn digit_char(d: nat) -> char {
    if d == 0 {
        '0'
    } else if d == 1 {
        '1'
    } else if d == 2 {
        '2'
    } else if d == 3 {
        '3'
    } else if d == 4 {
        '4'
    } else if d == 5 {
        '5'
    } else if d == 6 {
        '6'
    } else if d == 7 {
        '7'
    } else if d == 8 {
        '8'
    } else {
        '9'
    }
}

/// The decimal digits of `n`, most significant first, without leading zeros.
pub open spec fn decimal(n: nat) -> Seq<char>
    decreases n,
{
    if n < 10 {
        seq![digit_char(n)]
    } else {
        decimal(n / 10) + seq![digit_char(n % 10)]
    }
}

fn digit_str(d: u32) -> (r: &'static str)
    requires
        d < 10,
    ensures
        r@ == seq![digit_char(d as nat)],
{
    proof {
        reveal_strlit("0");
        reveal_strlit("1");
        reveal_strlit("2");
        reveal_strlit("3");
        reveal_strlit("4");
        reveal_strlit("5");
        reveal_strlit("6");
        reveal_strlit("7");
        reveal_strlit("8");
        reveal_strlit("9");
    }
    if d == 0 {
        "0"
    } else if d == 1 {
        "1"
    } else if d == 2 {
        "2"
    } else if d == 3 {
        "3"
    } else if d == 4 {
        "4"
    } else if d == 5 {
        "5"
    } else if d == 6 {
        "6"
    } else if d == 7 {
        "7"
    } else if d == 8 {
        "8"
    } else {
        "9"
    }
}

fn push_decimal(s: &mut String, n: u32)
    ensures
        final(s)@ == old(s)@ + decimal(n as nat),
    decreases n,
{
    if n >= 10 {
        push_decimal(s, n / 10);
    }
    s.append(digit_str(n % 10));
    assert(final(s)@ =~= old(s)@ + decimal(n as nat));
}

} // verus!
