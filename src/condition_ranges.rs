//! Range matchers of the condition language: integer ranges and local date-time ranges.
use vstd::prelude::*;
use crate::range::{
    parse_range, range_of, RangeKind, MAX_WALL_SECONDS, MIN_WALL_SECONDS,
};
use crate::text::{chars_of, trim, trim_chars};

verus! {

/// Bounds that `value` writes, or `None` when it does not follow the range grammar.
pub open spec fn written_range(kind: RangeKind, value: Seq<char>) -> Option<(int, int)> {
    range_of(kind, trim(value))
}

fn read_range(kind: RangeKind, value: &String) -> (r: Option<(i64, i64)>)
    ensures
        match r {
            Some((lo, hi)) => written_range(kind, value@) == Some((lo as int, hi as int)),
            None => written_range(kind, value@) is None,
        },
{
    let chars = chars_of(value.as_str());
    let trimmed = trim_chars(&chars);
    parse_range(kind, &trimmed)
}

/// An inclusive range of `i64`, written as `N`, `< N`, `<= N`, `> N`, `>= N`, `N <`, `N <=`,
/// `N >`, `N >=`, `A..B` or `A...B`.
#[derive(Debug)]
pub struct Int64Range {
    pub raw_value: String,
    pub min: i64,
    pub max: i64,
    pub error: Option<String>,
}

impl Int64Range {
    /// What a range read from `value` holds: the bounds it writes, or the whole of `i64` and
    /// an error when it writes none.
    pub open spec fn read_from(self, value: Seq<char>) -> bool {
        &&& self.raw_value@ == value
        &&& match written_range(RangeKind::Integer, value) {
            Some((lo, hi)) => self.min == lo && self.max == hi && self.error is None,
            None => self.min == i64::MIN && self.max == i64::MAX && self.error is Some,
        }
    }

    pub fn new(value: String) -> (r: Int64Range)
        ensures
            r.read_from(value@),
    {
        match read_range(RangeKind::Integer, &value) {
            Some((lo, hi)) => Int64Range { raw_value: value, min: lo, max: hi, error: None },
            None => Int64Range {
                raw_value: value,
                min: i64::MIN,
                max: i64::MAX,
                error: Some("invalid value".to_string()),
            },
        }
    }

    pub fn validate(&self) -> (r: Result<(), String>)
        ensures
            r is Ok <==> self.error is None,
    {
        match &self.error {
            Some(e) => Err(e.clone()),
            None => Ok(()),
        }
    }

    pub fn matches(&self, input: i64) -> (r: bool)
        ensures
            r == (self.min <= input <= self.max),
    {
        self.min <= input && input <= self.max
    }
}

impl Default for Int64Range {
    fn default() -> (r: Int64Range)
        ensures
            r.raw_value@.len() == 0,
            r.min == i64::MIN,
            r.max == i64::MAX,
            r.error is None,
    {
        let r = Int64Range::new(String::new());
        assert(trim(Seq::<char>::empty()) =~= Seq::<char>::empty());
        r
    }
}

/// A range of local wall-clock date-times, counted in seconds from 1970-01-01 00:00:00 of the
/// wall clock. Values are written `YYYY-MM-DD`, `YYYY-MM-DD HH:MM`, `YYYY-MM-DD HH:MM:SS`, or
/// with `T` in place of the space, in the same shapes as [`Int64Range`]; the unit is a second.
#[derive(Debug)]
pub struct DateTimeRange {
    pub raw_value: String,
    pub min: i64,
    pub max: i64,
    pub error: Option<String>,
}

impl DateTimeRange {
    /// What a range read from `value` holds: the bounds it writes, or every instant and an
    /// error when it writes none.
    pub open spec fn read_from(self, value: Seq<char>) -> bool {
        &&& self.raw_value@ == value
        &&& match written_range(RangeKind::DateTime, value) {
            Some((lo, hi)) => self.min == lo && self.max == hi && self.error is None,
            None => self.min == MIN_WALL_SECONDS && self.max == MAX_WALL_SECONDS
                && self.error is Some,
        }
    }

    pub fn new(value: String) -> (r: DateTimeRange)
        ensures
            r.read_from(value@),
    {
        match read_range(RangeKind::DateTime, &value) {
            Some((lo, hi)) => DateTimeRange { raw_value: value, min: lo, max: hi, error: None },
            None => DateTimeRange {
                raw_value: value,
                min: MIN_WALL_SECONDS,
                max: MAX_WALL_SECONDS,
                error: Some("invalid value".to_string()),
            },
        }
    }

    pub fn validate(&self) -> (r: Result<(), String>)
        ensures
            r is Ok <==> self.error is None,
    {
        match &self.error {
            Some(e) => Err(e.clone()),
            None => Ok(()),
        }
    }

    /// Whether a local wall-clock instant, in seconds, lies in the range.
    pub fn matches(&self, local_seconds: i64) -> (r: bool)
        ensures
            r == (self.min <= local_seconds <= self.max),
    {
        self.min <= local_seconds && local_seconds <= self.max
    }
}

impl Default for DateTimeRange {
    fn default() -> (r: DateTimeRange)
        ensures
            r.raw_value@.len() == 0,
            r.min == MIN_WALL_SECONDS,
            r.max == MAX_WALL_SECONDS,
            r.error is None,
    {
        let r = DateTimeRange::new(String::new());
        assert(trim(Seq::<char>::empty()) =~= Seq::<char>::empty());
        r
    }
}

} // verus!
