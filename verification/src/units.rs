//! Units of dimensions. `NoUnit` is compatible with any unit and yields the
//! other side's unit under arithmetic; `%` is compatible only with `%` and
//! `NoUnit`; any other unit only with itself and `NoUnit`.

use vstd::prelude::*;
use crate::strutil::str_eq;

verus! {

#[derive(Clone, Copy, Debug, PartialEq, Eq, Structural)]
pub enum Unit {
    NoUnit,
    Percent,
    Px,
    Mm,
    In,
    Cm,
    Pt,
    Pc,
    Em,
    Rem,
    Ex,
    Ch,
    Vw,
    Vh,
    Vmin,
    Vmax,
    Deg,
    Grad,
    Rad,
    Turn,
    S,
    Ms,
    Hz,
    Khz,
    Fr,
}

impl Unit {
    /// How the unit is written after a number.
    pub open spec fn spec_name(self) -> Seq<char> {
        match self {
            Unit::NoUnit => ""@,
            Unit::Percent => "%"@,
            Unit::Px => "px"@,
            Unit::Mm => "mm"@,
            Unit::In => "in"@,
            Unit::Cm => "cm"@,
            Unit::Pt => "pt"@,
            Unit::Pc => "pc"@,
            Unit::Em => "em"@,
            Unit::Rem => "rem"@,
            Unit::Ex => "ex"@,
            Unit::Ch => "ch"@,
            Unit::Vw => "vw"@,
            Unit::Vh => "vh"@,
            Unit::Vmin => "vmin"@,
            Unit::Vmax => "vmax"@,
            Unit::Deg => "deg"@,
            Unit::Grad => "grad"@,
            Unit::Rad => "rad"@,
            Unit::Turn => "turn"@,
            Unit::S => "s"@,
            Unit::Ms => "ms"@,
            Unit::Hz => "hz"@,
            Unit::Khz => "khz"@,
            Unit::Fr => "fr"@,
        }
    }

    pub fn as_str(self) -> (r: &'static str)
        ensures
            r@ == self.spec_name(),
    {
        match self {
            Unit::NoUnit => "",
            Unit::Percent => "%",
            Unit::Px => "px",
            Unit::Mm => "mm",
            Unit::In => "in",
            Unit::Cm => "cm",
            Unit::Pt => "pt",
            Unit::Pc => "pc",
            Unit::Em => "em",
            Unit::Rem => "rem",
            Unit::Ex => "ex",
            Unit::Ch => "ch",
            Unit::Vw => "vw",
            Unit::Vh => "vh",
            Unit::Vmin => "vmin",
            Unit::Vmax => "vmax",
            Unit::Deg => "deg",
            Unit::Grad => "grad",
            Unit::Rad => "rad",
            Unit::Turn => "turn",
            Unit::S => "s",
            Unit::Ms => "ms",
            Unit::Hz => "hz",
            Unit::Khz => "khz",
            Unit::Fr => "fr",
        }
    }

    /// The unit an identifier names, if any.
    pub open spec fn spec_from_name(s: Seq<char>) -> Option<Unit> {
        if s == "px"@ {
            Some(Unit::Px)
        } else if s == "mm"@ {
            Some(Unit::Mm)
        } else if s == "in"@ {
            Some(Unit::In)
        } else if s == "cm"@ {
            Some(Unit::Cm)
        } else if s == "pt"@ {
            Some(Unit::Pt)
        } else if s == "pc"@ {
            Some(Unit::Pc)
        } else if s == "em"@ {
            Some(Unit::Em)
        } else if s == "rem"@ {
            Some(Unit::Rem)
        } else if s == "ex"@ {
            Some(Unit::Ex)
        } else if s == "ch"@ {
            Some(Unit::Ch)
        } else if s == "vw"@ {
            Some(Unit::Vw)
        } else if s == "vh"@ {
            Some(Unit::Vh)
        } else if s == "vmin"@ {
            Some(Unit::Vmin)
        } else if s == "vmax"@ {
            Some(Unit::Vmax)
        } else if s == "deg"@ {
            Some(Unit::Deg)
        } else if s == "grad"@ {
            Some(Unit::Grad)
        } else if s == "rad"@ {
            Some(Unit::Rad)
        } else if s == "turn"@ {
            Some(Unit::Turn)
        } else if s == "s"@ {
            Some(Unit::S)
        } else if s == "ms"@ {
            Some(Unit::Ms)
        } else if s == "hz"@ {
            Some(Unit::Hz)
        } else if s == "khz"@ {
            Some(Unit::Khz)
        } else if s == "fr"@ {
            Some(Unit::Fr)
        } else {
            None
        }
    }

    pub fn from_name(s: &str) -> (r: Option<Unit>)
        ensures
            r == Unit::spec_from_name(s@),
    {
        if str_eq(s, "px") {
            Some(Unit::Px)
        } else if str_eq(s, "mm") {
            Some(Unit::Mm)
        } else if str_eq(s, "in") {
            Some(Unit::In)
        } else if str_eq(s, "cm") {
            Some(Unit::Cm)
        } else if str_eq(s, "pt") {
            Some(Unit::Pt)
        } else if str_eq(s, "pc") {
            Some(Unit::Pc)
        } else if str_eq(s, "em") {
            Some(Unit::Em)
        } else if str_eq(s, "rem") {
            Some(Unit::Rem)
        } else if str_eq(s, "ex") {
            Some(Unit::Ex)
        } else if str_eq(s, "ch") {
            Some(Unit::Ch)
        } else if str_eq(s, "vw") {
            Some(Unit::Vw)
        } else if str_eq(s, "vh") {
            Some(Unit::Vh)
        } else if str_eq(s, "vmin") {
            Some(Unit::Vmin)
        } else if str_eq(s, "vmax") {
            Some(Unit::Vmax)
        } else if str_eq(s, "deg") {
            Some(Unit::Deg)
        } else if str_eq(s, "grad") {
            Some(Unit::Grad)
        } else if str_eq(s, "rad") {
            Some(Unit::Rad)
        } else if str_eq(s, "turn") {
            Some(Unit::Turn)
        } else if str_eq(s, "s") {
            Some(Unit::S)
        } else if str_eq(s, "ms") {
            Some(Unit::Ms)
        } else if str_eq(s, "hz") {
            Some(Unit::Hz)
        } else if str_eq(s, "khz") {
            Some(Unit::Khz)
        } else if str_eq(s, "fr") {
            Some(Unit::Fr)
        } else {
            None
        }
    }

    /// Whether values of the two units may be added or subtracted.
    pub open spec fn spec_compatible(a: Unit, b: Unit) -> bool {
        a == b || a == Unit::NoUnit || b == Unit::NoUnit
    }

    pub fn compatible(a: Unit, b: Unit) -> (r: bool)
        ensures
            r == Unit::spec_compatible(a, b),
    {
        a == b || a == Unit::NoUnit || b == Unit::NoUnit
    }

    /// The unit arithmetic on compatible units propagates: a bare number
    /// takes the other side's unit.
    pub open spec fn spec_propagate(a: Unit, b: Unit) -> Unit {
        if a == Unit::NoUnit {
            b
        } else {
            a
        }
    }

    pub fn propagate(a: Unit, b: Unit) -> (r: Unit)
        ensures
            r == Unit::spec_propagate(a, b),
    {
        if a == Unit::NoUnit {
            b
        } else {
            a
        }
    }
}

} // verus!
