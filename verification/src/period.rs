//! Periods of time delimited by two instants.

use crate::interval::{Interval, IntervalST};
use vstd::prelude::*;

verus! {

/// A Period is the span of time between two instants, both included.
#[derive(Debug, Clone, Copy, PartialEq, Eq, Structural)]
pub struct Period {
    pub lo: u64,
    pub hi: u64,
}

/// The errors of reading a period out of the texts of its bounds.
#[derive(Debug, PartialEq, Eq)]
pub enum Error {
    /// A bound is not a number; holds the reason the parser gave.
    NotANumber(String),
    /// There is not one bound, nor two.
    WrongCount,
}

/// Whether the text is one or more ASCII decimal digits.
pub open spec fn is_decimal(digits: Seq<char>) -> bool {
    &&& digits.len() > 0
    &&& forall|i: int| 0 <= i < digits.len() ==> '0' <= #[trigger] digits[i] <= '9'
}

/// The number that a text of decimal digits writes, most significant first.
pub open spec fn decimal_value(digits: Seq<char>) -> int
    decreases digits.len(),
{
    if digits.len() == 0 {
        0
    } else {
        decimal_value(digits.drop_last()) * 10 + (digits.last() as int - '0' as int)
    }
}

/// The value that std's `str::parse::<u64>` reads in a text: an optional `+`
/// followed by one or more decimal digits, whose number fits in a `u64`. Any
/// other text is refused.
pub open spec fn u64_parse(text: Seq<char>) -> Option<u64> {
    let digits = if text.len() > 0 && text[0] == '+' {
        text.drop_first()
    } else {
        text
    };
    if is_decimal(digits) && decimal_value(digits) <= u64::MAX {
        Some(decimal_value(digits) as u64)
    } else {
        None
    }
}

/// Calls std's `str::parse::<u64>`, turning its error into the error's
/// message. std documents that it reads an optional `+` and then only
/// decimal digits, and refuses a value beyond `u64::MAX`: the result is
/// stated by [u64_parse]. The words of the messages are left unsaid.
#[verifier::external_body]
fn parse_bound(text: &str) -> (bound: core::result::Result<u64, String>)
    ensures
        bound matches Ok(v) ==> u64_parse(text@) == Some(v),
        bound is Err ==> u64_parse(text@) is None,
{
    match text.parse::<u64>() {
        Ok(bound) => Ok(bound),
        Err(error) => Err(error.to_string()),
    }
}

/// The period that the texts of its bounds give: a single bound is an
/// instant, two are the lowest and the highest.
pub open spec fn period_of(bounds: Seq<String>) -> Option<Period> {
    if bounds.len() == 1 {
        match u64_parse(bounds[0]@) {
            Some(v) => Some(Period { lo: v, hi: v }),
            None => None,
        }
    } else if bounds.len() == 2 {
        match (u64_parse(bounds[0]@), u64_parse(bounds[1]@)) {
            (Some(lo), Some(hi)) => Some(Period { lo, hi }),
            _ => None,
        }
    } else {
        None
    }
}

impl Period {
    /// Reads the period out of the texts of its bounds: one bound makes an
    /// instant, two make the lowest and the highest bound.
    pub fn try_from(bounds: Vec<String>) -> (period: core::result::Result<Period, Error>)
        ensures
            period matches Ok(p) ==> period_of(bounds@) == Some(p),
            period is Err <==> period_of(bounds@) is None,
            period == Err::<Period, Error>(Error::WrongCount) <==> (bounds@.len() != 1
                && bounds@.len() != 2),
    {
        if bounds.len() != 1 && bounds.len() != 2 {
            return Err(Error::WrongCount);
        }
        let lo = match parse_bound(bounds[0].as_str()) {
            Ok(lo) => lo,
            Err(reason) => return Err(Error::NotANumber(reason)),
        };
        if bounds.len() == 1 {
            return Ok(Period { lo, hi: lo });
        }
        let hi = match parse_bound(bounds[1].as_str()) {
            Ok(hi) => hi,
            Err(reason) => return Err(Error::NotANumber(reason)),
        };
        Ok(Period { lo, hi })
    }

    /// Creates the period that goes from `lo` to `hi`.
    pub fn new(lo: u64, hi: u64) -> (period: Self)
        ensures
            period.lo == lo,
            period.hi == hi,
    {
        Period { lo, hi }
    }
}

impl Interval for Period {
    open spec fn spec_lo(&self) -> u64 {
        self.lo
    }

    open spec fn spec_hi(&self) -> u64 {
        self.hi
    }

    fn lo(&self) -> (bound: u64) {
        self.lo
    }

    fn hi(&self) -> (bound: u64) {
        self.hi
    }
}


/// A tree of periods gives back, through
/// [IntervalST::intervals](crate::interval::IntervalST::intervals), exactly the
/// periods it holds, in order: a period's clone is the period itself. With
/// [IntervalST::from](crate::interval::IntervalST::from), the periods of a
/// vector come back unchanged.
pub proof fn lemma_period_intervals(tree: IntervalST<Period>, intervals: Seq<Period>)
    requires
        intervals.len() == tree.intervals_seq().len(),
        forall|i: int|
            0 <= i < intervals.len() ==> cloned(tree.intervals_seq()[i], #[trigger] intervals[i]),
    ensures
        intervals == tree.intervals_seq(),
{
    assert(intervals =~= tree.intervals_seq());
}

} // verus!
