//! Classification of launch-timing sequences into named patterns.
//!
//! Confidences are fixed-point (see `decimal`): `100_000_000` is full confidence.
use vstd::prelude::*;
use vstd::string::*;

verus! {

/// Confidence reported for `sts:2` (0.95).
pub const STS_2_CONFIDENCE: u64 = 95_000_000;

/// Confidence reported for `st:2` (0.85).
pub const ST_2_CONFIDENCE: u64 = 85_000_000;

/// Confidence reported for `tt:4` (0.75).
pub const TT_4_CONFIDENCE: u64 = 75_000_000;

/// Least configured minimum that admits `sts:2` (0.90).
pub const STS_2_MIN: u64 = 90_000_000;

/// Least configured minimum that admits `st:2` (0.80).
pub const ST_2_MIN: u64 = 80_000_000;

/// Least configured minimum that admits `tt:4` (0.70).
pub const TT_4_MIN: u64 = 70_000_000;

/// The pattern for `n` observed intervals under the configured minimum
/// confidence `min`, rules taken in order; the first that holds wins.
pub open spec fn pattern_for(n: nat, min: nat) -> Option<(Seq<char>, nat)> {
    if n >= 3 && min >= STS_2_MIN {
        Some(("sts:2"@, STS_2_CONFIDENCE as nat))
    } else if n == 2 && min >= ST_2_MIN {
        Some(("st:2"@, ST_2_CONFIDENCE as nat))
    } else if n == 4 && min >= TT_4_MIN {
        Some(("tt:4"@, TT_4_CONFIDENCE as nat))
    } else {
        None
    }
}

/// A classified pattern with its fixed confidence.
pub struct DetectedPattern {
    pub pattern_type: String,
    /// Fixed-point confidence.
    pub confidence: u64,
}

/// Classifies launch-timing sequences; pure and without side effects.
pub struct PatternDetector {
    /// Configured minimum confidence, fixed-point.
    min_confidence: u64,
}

impl PatternDetector {
    pub closed spec fn min_confidence(&self) -> nat {
        self.min_confidence as nat
    }

    pub fn new(min_confidence: u64) -> (r: PatternDetector)
        ensures
            r.min_confidence() == min_confidence,
    {
        PatternDetector { min_confidence }
    }

    /// The pattern of `time_intervals`, if any rule admits it.
    pub fn detect_pattern(&self, token_name: &str, time_intervals: &[i64]) -> (r: Option<
        DetectedPattern,
    >)
        ensures
            match pattern_for(time_intervals@.len(), self.min_confidence()) {
                Some(p) => r is Some && r->0.pattern_type@ == p.0 && r->0.confidence == p.1,
                None => r is None,
            },
    {
        proof {
            reveal_strlit("sts:2");
            reveal_strlit("st:2");
            reveal_strlit("tt:4");
        }
        if self.is_sts_2_pattern(token_name, time_intervals) {
            return Some(
                DetectedPattern {
                    pattern_type: String::from_str("sts:2"),
                    confidence: STS_2_CONFIDENCE,
                },
            );
        }
        if self.is_st_2_pattern(token_name, time_intervals) {
            return Some(
                DetectedPattern { pattern_type: String::from_str("st:2"), confidence: ST_2_CONFIDENCE },
            );
        }
        if self.is_tt_4_pattern(token_name, time_intervals) {
            return Some(
                DetectedPattern { pattern_type: String::from_str("tt:4"), confidence: TT_4_CONFIDENCE },
            );
        }
        None
    }

    /// Three or more launches, under a strict minimum.
    fn is_sts_2_pattern(&self, _token: &str, intervals: &[i64]) -> (r: bool)
        ensures
            r == (intervals@.len() >= 3 && self.min_confidence >= STS_2_MIN),
    {
        intervals.len() >= 3 && self.min_confidence >= STS_2_MIN
    }

    /// Exactly two launches of the same token.
    fn is_st_2_pattern(&self, _token: &str, intervals: &[i64]) -> (r: bool)
        ensures
            r == (intervals@.len() == 2 && self.min_confidence >= ST_2_MIN),
    {
        intervals.len() >= 2 && intervals.len() < 3 && self.min_confidence >= ST_2_MIN
    }

    /// Exactly four launches.
    fn is_tt_4_pattern(&self, _token: &str, intervals: &[i64]) -> (r: bool)
        ensures
            r == (intervals@.len() == 4 && self.min_confidence >= TT_4_MIN),
    {
        intervals.len() == 4 && self.min_confidence >= TT_4_MIN
    }
}

} // verus!
