//! Ordering of an agent's per-tag reputation scores by the scale they use.

use vstd::prelude::*;
use crate::text::equals_text;

verus! {

/// Rank of a score scale when an agent's scores are listed: percentages
/// first, then Elo ratings, then boolean scores, then everything else.
pub open spec fn scale_rank(scale: Seq<char>) -> u8 {
    if scale == "percentage"@ {
        0
    } else if scale == "elo"@ {
        1
    } else if scale == "boolean"@ {
        2
    } else {
        3
    }
}

/// The rank of a score scale.
pub fn scale_priority(scale: &str) -> (r: u8)
    ensures
        r == scale_rank(scale@),
{
    if equals_text(scale, "percentage") {
        0
    } else if equals_text(scale, "elo") {
        1
    } else if equals_text(scale, "boolean") {
        2
    } else {
        3
    }
}

} // verus!
