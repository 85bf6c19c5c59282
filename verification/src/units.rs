//! The sixteen compass points a wind direction can take, and the measurement
//! units the reports use.
use crate::text::{chars_of, eq_lit};
use vstd::prelude::*;

verus! {

/// One of the sixteen compass points.
#[derive(Clone, Copy, Debug, PartialEq, Eq, Structural)]
pub enum Direction {
    N,
    NNE,
    NE,
    ENE,
    E,
    ESE,
    SE,
    SSE,
    S,
    SSW,
    SW,
    WSW,
    W,
    WNW,
    NW,
    NNW,
}

/// The compass point a word names, if any.
pub open spec fn direction_of(s: Seq<char>) -> Option<Direction> {
    if s == "N"@ {
        Some(Direction::N)
    } else if s == "NNE"@ {
        Some(Direction::NNE)
    } else if s == "NE"@ {
        Some(Direction::NE)
    } else if s == "ENE"@ {
        Some(Direction::ENE)
    } else if s == "E"@ {
        Some(Direction::E)
    } else if s == "ESE"@ {
        Some(Direction::ESE)
    } else if s == "SE"@ {
        Some(Direction::SE)
    } else if s == "SSE"@ {
        Some(Direction::SSE)
    } else if s == "S"@ {
        Some(Direction::S)
    } else if s == "SSW"@ {
        Some(Direction::SSW)
    } else if s == "SW"@ {
        Some(Direction::SW)
    } else if s == "WSW"@ {
        Some(Direction::WSW)
    } else if s == "W"@ {
        Some(Direction::W)
    } else if s == "WNW"@ {
        Some(Direction::WNW)
    } else if s == "NW"@ {
        Some(Direction::NW)
    } else if s == "NNW"@ {
        Some(Direction::NNW)
    } else {
        None
    }
}

/// The compass point the characters of `v` name, if any.
pub fn direction_of_chars(v: &Vec<char>) -> (r: Option<Direction>)
    ensures
        r == direction_of(v@),
{
    if eq_lit(v, "N") {
        Some(Direction::N)
    } else if eq_lit(v, "NNE") {
        Some(Direction::NNE)
    } else if eq_lit(v, "NE") {
        Some(Direction::NE)
    } else if eq_lit(v, "ENE") {
        Some(Direction::ENE)
    } else if eq_lit(v, "E") {
        Some(Direction::E)
    } else if eq_lit(v, "ESE") {
        Some(Direction::ESE)
    } else if eq_lit(v, "SE") {
        Some(Direction::SE)
    } else if eq_lit(v, "SSE") {
        Some(Direction::SSE)
    } else if eq_lit(v, "S") {
        Some(Direction::S)
    } else if eq_lit(v, "SSW") {
        Some(Direction::SSW)
    } else if eq_lit(v, "SW") {
        Some(Direction::SW)
    } else if eq_lit(v, "WSW") {
        Some(Direction::WSW)
    } else if eq_lit(v, "W") {
        Some(Direction::W)
    } else if eq_lit(v, "WNW") {
        Some(Direction::WNW)
    } else if eq_lit(v, "NW") {
        Some(Direction::NW)
    } else if eq_lit(v, "NNW") {
        Some(Direction::NNW)
    } else {
        None
    }
}

impl Direction {
    /// Reads a compass point from its name, or reports the unknown name.
    pub fn from_str(s: &str) -> (r: Result<Direction, String>)
        ensures
            direction_of(s@) is Some ==> r == Ok::<Direction, String>(direction_of(s@)->0),
            direction_of(s@) is None ==> (r matches Err(m) && m@ == "Unknown wind direction: "@
                + s@),
    {
        let v = chars_of(s);
        match direction_of_chars(&v) {
            Some(d) => Ok(d),
            None => Err(String::from_str("Unknown wind direction: ").concat(s)),
        }
    }
}

/// The one temperature unit the reports use.
#[derive(Clone, Copy, Debug, PartialEq, Eq, Structural)]
pub enum TemperatureUnit {
    Celsius,
}

impl TemperatureUnit {
    /// Reads the temperature unit, or reports the unknown name.
    pub fn from_str(s: &str) -> (r: Result<TemperatureUnit, String>)
        ensures
            s@ == "ºC"@ ==> r == Ok::<TemperatureUnit, String>(TemperatureUnit::Celsius),
            s@ != "ºC"@ ==> (r matches Err(m) && m@ == "Unknown temperature unit "@ + s@
                + ". Expecting `ºC`"@),
    {
        let v = chars_of(s);
        if eq_lit(&v, "ºC") {
            Ok(TemperatureUnit::Celsius)
        } else {
            Err(String::from_str("Unknown temperature unit ").concat(s).concat(". Expecting `ºC`"))
        }
    }
}

/// The one rain unit the reports use.
#[derive(Clone, Copy, Debug, PartialEq, Eq, Structural)]
pub enum RainUnit {
    Mm,
}

impl RainUnit {
    /// Reads the rain unit, or reports the unknown name.
    pub fn from_str(s: &str) -> (r: Result<RainUnit, String>)
        ensures
            s@ == "mm"@ ==> r == Ok::<RainUnit, String>(RainUnit::Mm),
            s@ != "mm"@ ==> (r matches Err(m) && m@ == "Unknown rain unit "@ + s@
                + ". Expecting `mm`"@),
    {
        let v = chars_of(s);
        if eq_lit(&v, "mm") {
            Ok(RainUnit::Mm)
        } else {
            Err(String::from_str("Unknown rain unit ").concat(s).concat(". Expecting `mm`"))
        }
    }
}

/// The one wind-speed unit the reports use.
#[derive(Clone, Copy, Debug, PartialEq, Eq, Structural)]
pub enum WindSpeedUnit {
    KmHr,
}

impl WindSpeedUnit {
    /// Reads the wind-speed unit, or reports the unknown name.
    pub fn from_str(s: &str) -> (r: Result<WindSpeedUnit, String>)
        ensures
            s@ == "km/hr"@ ==> r == Ok::<WindSpeedUnit, String>(WindSpeedUnit::KmHr),
            s@ != "km/hr"@ ==> (r matches Err(m) && m@ == "Unknown wind speed unit "@ + s@
                + ". Expecting km/hr"@),
    {
        let v = chars_of(s);
        if eq_lit(&v, "km/hr") {
            Ok(WindSpeedUnit::KmHr)
        } else {
            Err(String::from_str("Unknown wind speed unit ").concat(s).concat(". Expecting km/hr"))
        }
    }
}

} // verus!
