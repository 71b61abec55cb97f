//! Error-correction levels and the mapping from the selector labels
//! shown in the user interface to those levels.

use vstd::prelude::*;

verus! {

/// A QR error-correction level, ordered from least to most resilient.
#[derive(Clone, Copy, PartialEq, Eq, Structural, Debug)]
pub enum EcLevel {
    Low,
    Medium,
    Quartile,
    High,
}

impl EcLevel {
    /// A small-integer code for each level, used where a spec speaks of a
    /// level as a plain value.
    pub open spec fn code(self) -> int {
        match self {
            EcLevel::Low => 0,
            EcLevel::Medium => 1,
            EcLevel::Quartile => 2,
            EcLevel::High => 3,
        }
    }
}

/// The level selected by a given selector label, or `None` for a label the
/// selector never shows.
pub open spec fn spec_level_from_label(s: Seq<char>) -> Option<EcLevel> {
    if s == "Low (7%)"@ {
        Some(EcLevel::Low)
    } else if s == "Medium (15%)"@ {
        Some(EcLevel::Medium)
    } else if s == "Quartile (25%)"@ {
        Some(EcLevel::Quartile)
    } else if s == "High (30%)"@ {
        Some(EcLevel::High)
    } else {
        None
    }
}

/// Character-for-character string equality.
fn str_eq(a: &str, b: &str) -> (r: bool)
    ensures
        r == (a@ == b@),
{
    let n = a.unicode_len();
    if n != b.unicode_len() {
        return false;
    }
    let mut i: usize = 0;
    while i < n
        invariant
            n == a@.len(),
            n == b@.len(),
            i <= n,
            forall|j: int| 0 <= j < i ==> a@[j] == b@[j],
        decreases n - i,
    {
        if a.get_char(i) != b.get_char(i) {
            return false;
        }
        i = i + 1;
    }
    proof {
        assert(a@ =~= b@);
    }
    true
}

/// Parses a selector label into its error-correction level.
pub fn level_from_label(label: &str) -> (r: Option<EcLevel>)
    ensures
        r == spec_level_from_label(label@),
{
    if str_eq(label, "Low (7%)") {
        Some(EcLevel::Low)
    } else if str_eq(label, "Medium (15%)") {
        Some(EcLevel::Medium)
    } else if str_eq(label, "Quartile (25%)") {
        Some(EcLevel::Quartile)
    } else if str_eq(label, "High (30%)") {
        Some(EcLevel::High)
    } else {
        None
    }
}

} // verus!
