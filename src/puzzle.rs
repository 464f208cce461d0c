//! Puzzle keys: which puzzle (year, day) and which part of it.
use vstd::prelude::*;

verus! {

/// The first year in which puzzles were published.
pub const FIRST_YEAR: u16 = 2015;

/// The last puzzle day of a year.
pub const LAST_DAY: u8 = 25;

/// A year and a day that name a published puzzle.
pub open spec fn valid_puzzle(year: int, day: int) -> bool {
    year >= FIRST_YEAR && 1 <= day <= LAST_DAY
}

/// Each puzzle has a first and a second part.
pub open spec fn valid_part(part: int) -> bool {
    part == 1 || part == 2
}

/// Why a puzzle key was refused.
#[derive(Debug, Clone, Copy, PartialEq, Eq, Structural)]
pub enum KeyError {
    /// The year lies before the first year of puzzles.
    YearTooEarly,
    /// The day lies outside the days of a puzzle calendar.
    DayOutOfRange,
}

/// A (year, day) pair identifying one puzzle.
#[derive(Debug, Clone, Copy, PartialEq, Eq, Structural)]
pub struct PuzzleKey {
    year: u16,
    day: u8,
}

impl PuzzleKey {
    pub closed spec fn spec_year(&self) -> u16 {
        self.year
    }

    pub closed spec fn spec_day(&self) -> u8 {
        self.day
    }

    /// Every key that exists names a published puzzle.
    pub closed spec fn wf(&self) -> bool {
        valid_puzzle(self.year as int, self.day as int)
    }

    /// Checks the year and the day; nothing else is touched.
    pub fn new(year: u16, day: u8) -> (r: Result<PuzzleKey, KeyError>)
        ensures
            match r {
                Ok(k) => valid_puzzle(year as int, day as int) && k.spec_year() == year
                    && k.spec_day() == day && k.wf(),
                Err(e) => !valid_puzzle(year as int, day as int) && (e == KeyError::YearTooEarly
                    <==> year < FIRST_YEAR) && (e == KeyError::DayOutOfRange <==> year
                    >= FIRST_YEAR),
            },
    {
        if year < FIRST_YEAR {
            Err(KeyError::YearTooEarly)
        } else if day < 1 || day > LAST_DAY {
            Err(KeyError::DayOutOfRange)
        } else {
            Ok(PuzzleKey { year, day })
        }
    }

    pub fn year(&self) -> (r: u16)
        ensures
            r == self.spec_year(),
    {
        self.year
    }

    pub fn day(&self) -> (r: u8)
        ensures
            r == self.spec_day(),
    {
        self.day
    }
}

/// Tells whether `part` names one of the two parts of a puzzle.
pub fn is_valid_part(part: u8) -> (r: bool)
    ensures
        r == valid_part(part as int),
{
    part == 1 || part == 2
}

} // verus!
