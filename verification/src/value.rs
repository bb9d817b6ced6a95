//! The scalar values the library binds as parameters and reads from
//! columns, each tagged with its wire type. A calendar date travels as
//! plain year, month and day fields with the calendar rules as its
//! invariant; what only a calendar library can compute stays outside.

use vstd::prelude::*;

verus! {

/// A calendar date as plain fields. Nothing enforces validity at
/// construction; the wire encoder accepts only dates for which
/// `valid_date` holds.
#[derive(Clone, Copy, Debug, PartialEq, Eq, Structural)]
pub struct SqlDate {
    pub year: u16,
    pub month: u8,
    pub day: u8,
}

/// Whether `y` is a leap year of the Gregorian calendar.
pub open spec fn is_leap_year(y: int) -> bool {
    y % 4 == 0 && (y % 100 != 0 || y % 400 == 0)
}

/// How many days month `m` of year `y` has.
pub open spec fn days_in_month(y: int, m: int) -> int {
    if m == 2 {
        if is_leap_year(y) {
            29
        } else {
            28
        }
    } else if m == 4 || m == 6 || m == 9 || m == 11 {
        30
    } else {
        31
    }
}

/// A date that lies on the calendar: a year of the supported range, a real
/// month, and a day that month has.
pub open spec fn valid_date(d: SqlDate) -> bool {
    &&& 1 <= d.year as int <= 9999
    &&& 1 <= d.month as int <= 12
    &&& 1 <= d.day as int <= days_in_month(d.year as int, d.month as int)
}

impl SqlDate {
    /// Checks the calendar rules, leap years included.
    pub fn is_valid(&self) -> (r: bool)
        ensures
            r == valid_date(*self),
    {
        if !(1 <= self.year && self.year <= 9999) {
            return false;
        }
        if !(1 <= self.month && self.month <= 12) {
            return false;
        }
        let dim: u8 = if self.month == 2 {
            if self.year % 4 == 0 && (self.year % 100 != 0 || self.year % 400 == 0) {
                29
            } else {
                28
            }
        } else if self.month == 4 || self.month == 6 || self.month == 9 || self.month == 11 {
            30
        } else {
            31
        };
        1 <= self.day && self.day <= dim
    }
}

/// The wire types the library models.
#[derive(Clone, Copy, Debug, PartialEq, Eq, Structural)]
pub enum SqlType {
    SmallInt,
    Int,
    BigInt,
    VarChar,
    Bit,
    Date,
}

/// One typed scalar, as bound to a parameter or read from a column.
#[derive(Clone, Debug, PartialEq, Eq)]
pub enum SqlValue {
    SmallInt(i16),
    Int(i32),
    BigInt(i64),
    VarChar(String),
    Bit(bool),
    Date(SqlDate),
}

/// The wire type a value is tagged with.
pub open spec fn type_of(v: SqlValue) -> SqlType {
    match v {
        SqlValue::SmallInt(_) => SqlType::SmallInt,
        SqlValue::Int(_) => SqlType::Int,
        SqlValue::BigInt(_) => SqlType::BigInt,
        SqlValue::VarChar(_) => SqlType::VarChar,
        SqlValue::Bit(_) => SqlType::Bit,
        SqlValue::Date(_) => SqlType::Date,
    }
}

/// Whether the wire encoder accepts a value: every scalar does, a date only
/// when it lies on the calendar.
pub open spec fn supported_value(v: SqlValue) -> bool {
    match v {
        SqlValue::Date(d) => valid_date(d),
        _ => true,
    }
}

impl SqlValue {
    /// The wire type of this value.
    pub fn sql_type(&self) -> (r: SqlType)
        ensures
            r == type_of(*self),
    {
        match self {
            SqlValue::SmallInt(_) => SqlType::SmallInt,
            SqlValue::Int(_) => SqlType::Int,
            SqlValue::BigInt(_) => SqlType::BigInt,
            SqlValue::VarChar(_) => SqlType::VarChar,
            SqlValue::Bit(_) => SqlType::Bit,
            SqlValue::Date(_) => SqlType::Date,
        }
    }

    /// Whether the wire encoder accepts this value.
    pub fn is_supported(&self) -> (r: bool)
        ensures
            r == supported_value(*self),
    {
        match self {
            SqlValue::Date(d) => d.is_valid(),
            _ => true,
        }
    }
}

} // verus!
