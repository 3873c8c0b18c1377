//! The concrete content a statement value can carry.
//!
//! Coordinates carry their numeric fields as the decimal text seen on the
//! wire; the engine only ever compares them for equality.

use vstd::prelude::*;

verus! {

/// The Gregorian calendar model.
pub const GREGORIAN_CALENDAR: &'static str = "http://www.wikidata.org/entity/Q1985727";

/// The Julian calendar model.
pub const JULIAN_CALENDAR: &'static str = "http://www.wikidata.org/entity/Q11184";

/// The precision of a time value.
#[derive(Debug, Clone, Copy, PartialEq, Eq, Structural)]
pub enum TimePrecision {
    BillionYears,
    HundredMillionYears,
    TenMillionYears,
    MillionYears,
    HundredMillennia,
    TenMillennia,
    Millennia,
    Century,
    Decade,
    Year,
    Month,
    Day,
    Hour,
    Minute,
    Second,
}

impl Default for TimePrecision {
    /// The default precision is a day.
    fn default() -> (r: TimePrecision)
        ensures
            r is Day,
    {
        TimePrecision::Day
    }
}

/// The numeric value of a precision, as it appears on the wire.
pub open spec fn spec_precision_num(p: TimePrecision) -> int {
    match p {
        TimePrecision::BillionYears => 0,
        TimePrecision::HundredMillionYears => 1,
        TimePrecision::TenMillionYears => 2,
        TimePrecision::MillionYears => 3,
        TimePrecision::HundredMillennia => 4,
        TimePrecision::TenMillennia => 5,
        TimePrecision::Millennia => 6,
        TimePrecision::Century => 7,
        TimePrecision::Decade => 8,
        TimePrecision::Year => 9,
        TimePrecision::Month => 10,
        TimePrecision::Day => 11,
        TimePrecision::Hour => 12,
        TimePrecision::Minute => 13,
        TimePrecision::Second => 14,
    }
}

impl TimePrecision {
    /// Parses a wire value below fifteen; anything else is rejected.
    pub fn try_from_u8(value: u8) -> (r: Result<TimePrecision, &'static str>)
        ensures
            match r {
                Ok(p) => spec_precision_num(p) == value,
                Err(_) => value > 14,
            },
    {
        if value == 0 {
            Ok(TimePrecision::BillionYears)
        } else if value == 1 {
            Ok(TimePrecision::HundredMillionYears)
        } else if value == 2 {
            Ok(TimePrecision::TenMillionYears)
        } else if value == 3 {
            Ok(TimePrecision::MillionYears)
        } else if value == 4 {
            Ok(TimePrecision::HundredMillennia)
        } else if value == 5 {
            Ok(TimePrecision::TenMillennia)
        } else if value == 6 {
            Ok(TimePrecision::Millennia)
        } else if value == 7 {
            Ok(TimePrecision::Century)
        } else if value == 8 {
            Ok(TimePrecision::Decade)
        } else if value == 9 {
            Ok(TimePrecision::Year)
        } else if value == 10 {
            Ok(TimePrecision::Month)
        } else if value == 11 {
            Ok(TimePrecision::Day)
        } else if value == 12 {
            Ok(TimePrecision::Hour)
        } else if value == 13 {
            Ok(TimePrecision::Minute)
        } else if value == 14 {
            Ok(TimePrecision::Second)
        } else {
            Err("Invalid TimePrecision value")
        }
    }

    /// Parses a wire value below fifteen; anything else is rejected.
    pub fn try_from_u64(value: u64) -> (r: Result<TimePrecision, &'static str>)
        ensures
            match r {
                Ok(p) => spec_precision_num(p) == value,
                Err(_) => value > 14,
            },
    {
        if value > 255 {
            Err("Value too large for TimePrecision")
        } else {
            Self::try_from_u8(value as u8)
        }
    }

    /// Returns the wire value of the precision.
    pub fn as_u8(&self) -> (r: u8)
        ensures
            r == spec_precision_num(*self),
    {
        match self {
            TimePrecision::BillionYears => 0,
            TimePrecision::HundredMillionYears => 1,
            TimePrecision::TenMillionYears => 2,
            TimePrecision::MillionYears => 3,
            TimePrecision::HundredMillennia => 4,
            TimePrecision::TenMillennia => 5,
            TimePrecision::Millennia => 6,
            TimePrecision::Century => 7,
            TimePrecision::Decade => 8,
            TimePrecision::Year => 9,
            TimePrecision::Month => 10,
            TimePrecision::Day => 11,
            TimePrecision::Hour => 12,
            TimePrecision::Minute => 13,
            TimePrecision::Second => 14,
        }
    }

    /// Returns the wire value of the precision.
    pub fn as_u64(&self) -> (r: u64)
        ensures
            r == spec_precision_num(*self),
    {
        self.as_u8() as u64
    }
}

/// What parsing a wire value yields, by the numeric value alone.
pub open spec fn spec_precision_of(n: int) -> TimePrecision {
    if n == 0 {
        TimePrecision::BillionYears
    } else if n == 1 {
        TimePrecision::HundredMillionYears
    } else if n == 2 {
        TimePrecision::TenMillionYears
    } else if n == 3 {
        TimePrecision::MillionYears
    } else if n == 4 {
        TimePrecision::HundredMillennia
    } else if n == 5 {
        TimePrecision::TenMillennia
    } else if n == 6 {
        TimePrecision::Millennia
    } else if n == 7 {
        TimePrecision::Century
    } else if n == 8 {
        TimePrecision::Decade
    } else if n == 9 {
        TimePrecision::Year
    } else if n == 10 {
        TimePrecision::Month
    } else if n == 11 {
        TimePrecision::Day
    } else if n == 12 {
        TimePrecision::Hour
    } else if n == 13 {
        TimePrecision::Minute
    } else {
        TimePrecision::Second
    }
}

impl vstd::std_specs::convert::TryFromSpecImpl<u8> for TimePrecision {
    open spec fn obeys_try_from_spec() -> bool {
        false
    }

    open spec fn try_from_spec(v: u8) -> Result<TimePrecision, &'static str> {
        Ok(spec_precision_of(v as int))
    }
}

impl vstd::std_specs::convert::TryFromSpecImpl<u64> for TimePrecision {
    open spec fn obeys_try_from_spec() -> bool {
        false
    }

    open spec fn try_from_spec(v: u64) -> Result<TimePrecision, &'static str> {
        Ok(spec_precision_of(v as int))
    }
}

impl vstd::std_specs::convert::FromSpecImpl<TimePrecision> for u8 {
    open spec fn obeys_from_spec() -> bool {
        true
    }

    open spec fn from_spec(v: TimePrecision) -> u8 {
        spec_precision_num(v) as u8
    }
}

impl vstd::std_specs::convert::FromSpecImpl<TimePrecision> for u64 {
    open spec fn obeys_from_spec() -> bool {
        true
    }

    open spec fn from_spec(v: TimePrecision) -> u64 {
        spec_precision_num(v) as u64
    }
}

impl TryFrom<u8> for TimePrecision {
    type Error = &'static str;

    /// Parses a wire value below fifteen; anything else is rejected.
    fn try_from(value: u8) -> (r: Result<TimePrecision, &'static str>)
        ensures
            match r {
                Ok(p) => spec_precision_num(p) == value,
                Err(_) => value > 14,
            },
    {
        TimePrecision::try_from_u8(value)
    }
}

impl TryFrom<u64> for TimePrecision {
    type Error = &'static str;

    /// Parses a wire value below fifteen; anything else is rejected.
    fn try_from(value: u64) -> (r: Result<TimePrecision, &'static str>)
        ensures
            match r {
                Ok(p) => spec_precision_num(p) == value,
                Err(_) => value > 14,
            },
    {
        TimePrecision::try_from_u64(value)
    }
}

impl From<TimePrecision> for u8 {
    /// The wire value of a precision.
    fn from(precision: TimePrecision) -> (r: u8)
        ensures
            r == spec_precision_num(precision),
    {
        precision.as_u8()
    }
}

impl From<TimePrecision> for u64 {
    /// The wire value of a precision.
    fn from(precision: TimePrecision) -> (r: u64)
        ensures
            r == spec_precision_num(precision),
    {
        precision.as_u64()
    }
}

/// The concrete content of a statement value.  Coordinate fields carry
/// their decimal text.
#[derive(Debug, Clone, PartialEq)]
pub enum StatementValueContent {
    String(String),
    Time { time: String, precision: TimePrecision, calendarmodel: String },
    Location { latitude: String, longitude: String, precision: String, globe: String },
    Quantity { amount: String, unit: String },
    MonolingualText { language: String, text: String },
}

impl StatementValueContent {
    /// A monolingual-text content from a language code and a text.
    pub fn new_monolingual_text(language: &str, text: &str) -> (r: StatementValueContent)
        ensures
            r matches StatementValueContent::MonolingualText { language: l, text: t }
                && l@ == language@ && t@ == text@,
    {
        StatementValueContent::MonolingualText {
            language: language.to_owned(),
            text: text.to_owned(),
        }
    }
}

} // verus!
