//! The ways in which building a zip can fail.
use vstd::prelude::*;
use vstd::string::{StrSliceExecFns, StringExecFns};

use crate::Axis;

verus! {

/// Why a zip could not be built.
#[derive(Debug, Clone, Copy, PartialEq, Eq)]
pub enum Error {
    /// The axis is not one that this kind of zip can advance along.
    InvalidAxis(Axis),
    /// The two ending points do not share the value of the named axis: (axis, first, second).
    InvalidCoordinate(&'static str, i64, i64),
    /// No axis was given before building.
    MissingAxis,
    /// The named point was not given before building.
    MissingPoint(&'static str),
}


/// The decimal digits, in order.
pub open spec fn digit_chars() -> Seq<char> {
    seq!['0', '1', '2', '3', '4', '5', '6', '7', '8', '9']
}

/// The decimal digits of `n`, most significant first, without leading zeros.
pub open spec fn digits(n: nat) -> Seq<char>
    decreases n,
{
    if n < 10 {
        seq![digit_chars()[n as int]]
    } else {
        digits(n / 10) + seq![digit_chars()[(n % 10) as int]]
    }
}

/// `v` written in decimal, with a leading `-` when negative.
pub open spec fn decimal(v: int) -> Seq<char> {
    if v < 0 {
        seq!['-'] + digits((-v) as nat)
    } else {
        digits(v as nat)
    }
}

/// Appends the decimal digits of `n` to `s`.
fn append_digits(s: &mut String, n: u64)
    ensures
        final(s)@ == old(s)@ + digits(n as nat),
    decreases n,
{
    if n >= 10 {
        append_digits(s, n / 10);
    }
    let d = (n % 10) as usize;
    proof {
        reveal_strlit("0123456789");
    }
    let t = "0123456789".substring_char(d, d + 1);
    assert(t@ =~= seq![digit_chars()[d as int]]);
    s.append(t);
    assert(final(s)@ =~= old(s)@ + digits(n as nat));
}

/// Appends `v`, in decimal, to `s`.
fn append_decimal(s: &mut String, v: i64)
    ensures
        final(s)@ == old(s)@ + decimal(v as int),
{
    if v < 0 {
        proof {
            reveal_strlit("-");
        }
        s.append("-");
        let m = (-(v + 1)) as u64 + 1;
        append_digits(s, m);
        assert(final(s)@ =~= old(s)@ + decimal(v as int));
    } else {
        append_digits(s, v as u64);
    }
}

impl Error {
    /// The message that describes the error.
    pub open spec fn spec_message(&self) -> Seq<char> {
        match self {
            Error::InvalidAxis(axis) => "Invalid axis. This BresenhamZip doesn't accept "@
                + axis.spec_name(),
            Error::InvalidCoordinate(name, left, right) => "Invalid "@ + name@
                + ". Both values must have the same "@ + name@ + " ("@ + decimal(*left as int)
                + " != "@ + decimal(*right as int) + ")"@,
            Error::MissingAxis => "Missing axis. A valid axis must be specified before attempting the build"@,
            Error::MissingPoint(point) => "Missing point. You must specify the \""@ + point@
                + "\""@,
        }
    }

    /// A readable message naming the offending axis or missing point and, for ends that
    /// differ, their two values.
    pub fn message(&self) -> (r: String)
        ensures
            r@ == self.spec_message(),
    {
        match self {
            Error::InvalidAxis(axis) => {
                let mut s = String::from_str("Invalid axis. This BresenhamZip doesn't accept ");
                s.append(axis.name());
                s
            },
            Error::InvalidCoordinate(name, left, right) => {
                let mut s = String::from_str("Invalid ");
                s.append(name);
                s.append(". Both values must have the same ");
                s.append(name);
                s.append(" (");
                append_decimal(&mut s, *left);
                s.append(" != ");
                append_decimal(&mut s, *right);
                s.append(")");
                s
            },
            Error::MissingAxis => String::from_str(
                "Missing axis. A valid axis must be specified before attempting the build",
            ),
            Error::MissingPoint(point) => {
                let mut s = String::from_str("Missing point. You must specify the \"");
                s.append(point);
                s.append("\"");
                s
            },
        }
    }
}

} // verus!
