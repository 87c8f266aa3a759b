//! A curve coordinate: a signed integer, or the marker that stands for
//! "no coordinate" at the point at infinity.

use vstd::prelude::*;
use vstd::string::StringExecFns;

verus! {

/// A coordinate of a curve point.
#[derive(Debug, Clone, Copy, PartialEq, Eq, Structural)]
pub enum CurveElement {
    /// The coordinate of the point at infinity, which has none.
    Absent,
    /// A finite coordinate.
    Value(i32),
}

/// The character of a decimal digit below ten.
pub open spec fn digit_char(d: nat) -> char {
    if d == 0 {
        '0'
    } else if d == 1 {
        '1'
    } else if d == 2 {
        '2'
    } else if d == 3 {
        '3'
    } else if d == 4 {
        '4'
    } else if d == 5 {
        '5'
    } else if d == 6 {
        '6'
    } else if d == 7 {
        '7'
    } else if d == 8 {
        '8'
    } else {
        '9'
    }
}

/// The text of one decimal digit.
pub open spec fn digit_text(d: nat) -> Seq<char> {
    seq![digit_char(d)]
}

/// The decimal digits of a natural number, most significant first.
pub open spec fn nat_text(n: nat) -> Seq<char>
    decreases n,
{
    if n < 10 {
        digit_text(n)
    } else {
        nat_text(n / 10) + digit_text(n % 10)
    }
}

/// The decimal text of an integer, with a leading `-` when it is negative.
pub open spec fn int_text(n: int) -> Seq<char> {
    if n < 0 {
        seq!['-'] + nat_text((-n) as nat)
    } else {
        nat_text(n as nat)
    }
}

impl CurveElement {
    /// The coordinate of the point at infinity.
    pub const NONE: CurveElement = CurveElement::Absent;

    /// The text of a coordinate: its decimal value, or `None`.
    pub open spec fn text(self) -> Seq<char> {
        match self {
            CurveElement::Absent => seq!['N', 'o', 'n', 'e'],
            CurveElement::Value(n) => int_text(n as int),
        }
    }

    /// Renders the coordinate as its decimal value, or `None`.
    pub fn to_string(&self) -> (r: String)
        ensures
            r@ == self.text(),
    {
        match self {
            CurveElement::Absent => {
                proof {
                    reveal_strlit("None");
                }
                String::from_str("None")
            },
            CurveElement::Value(n) => {
                let mut s = String::new();
                push_int(&mut s, *n);
                s
            },
        }
    }

    /// Wraps an integer as a finite coordinate.
    pub fn int_to_curve(n: i32) -> (r: CurveElement)
        ensures
            r == CurveElement::Value(n),
    {
        CurveElement::Value(n)
    }

    /// Whether this is the coordinate of the point at infinity.
    pub fn is_none(&self) -> (r: bool)
        ensures
            r == (*self is Absent),
    {
        match self {
            CurveElement::Absent => true,
            CurveElement::Value(_) => false,
        }
    }

    /// The integer held by a finite coordinate.
    pub fn unwrap(&self) -> (r: &i32)
        requires
            self is Value,
        ensures
            *r == self->Value_0,
    {
        match self {
            CurveElement::Value(n) => n,
            CurveElement::Absent => {
                proof {
                    assert(false);
                }
                &0
            },
        }
    }
}

/// The text of a digit below ten.
fn digit_str(d: u32) -> (r: &'static str)
    requires
        d < 10,
    ensures
        r@ == digit_text(d as nat),
{
    let r = if d == 0 {
        "0"
    } else if d == 1 {
        "1"
    } else if d == 2 {
        "2"
    } else if d == 3 {
        "3"
    } else if d == 4 {
        "4"
    } else if d == 5 {
        "5"
    } else if d == 6 {
        "6"
    } else if d == 7 {
        "7"
    } else if d == 8 {
        "8"
    } else {
        "9"
    };
    proof {
        reveal_strlit("0");
        reveal_strlit("1");
        reveal_strlit("2");
        reveal_strlit("3");
        reveal_strlit("4");
        reveal_strlit("5");
        reveal_strlit("6");
        reveal_strlit("7");
        reveal_strlit("8");
        reveal_strlit("9");
    }
    r
}

/// Appends the decimal digits of `n` to `s`.
fn push_nat(s: &mut String, n: u32)
    ensures
        final(s)@ == old(s)@ + nat_text(n as nat),
    decreases n,
{
    if n >= 10 {
        push_nat(s, n / 10);
    }
    s.append(digit_str(n % 10));
    proof {
        if n >= 10 {
            assert(final(s)@ == old(s)@ + nat_text((n / 10) as nat) + digit_text((n % 10) as nat));
        }
    }
}

/// Appends the decimal text of `n` to `s`.
pub(crate) fn push_int(s: &mut String, n: i32)
    ensures
        final(s)@ == old(s)@ + int_text(n as int),
{
    if n < 0 {
        s.append("-");
        proof {
            reveal_strlit("-");
        }
        push_nat(s, (-(n as i64)) as u32);
    } else {
        push_nat(s, n as u32);
    }
}

} // verus!
