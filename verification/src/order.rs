//! Natural lexical comparison of names, and the order that rankings use.

use crate::digits::{comes_plainly_before, digits_fit, has_fitting_digits, plainly_before};
use std::cmp::Ordering;
use vstd::prelude::*;

verus! {

/// How the natural lexical comparison orders `a` against `b`: case and
/// diacritics are folded, and runs of digits compare as numbers as long as
/// they fit 64 bits.
pub uninterp spec fn natural_lexical_ordering(a: Seq<char>, b: Seq<char>) -> Ordering;

/// Calls `lexical_sort::natural_lexical_cmp`. Trusted: the result is the
/// comparison's outcome for the two texts, which depends on nothing else.
/// The comparison walks the two transliterated texts in step and adds up,
/// in 64 bits, the digits of two runs for as long as both go on; the sum
/// fails where it does not fit. It has at most as many digits as the shorter
/// run, so a pair is left out only where both texts hold a run of more than
/// 19 digits.
#[verifier::external_body]
pub(crate) fn natural_lexical_cmp(a: &str, b: &str) -> (r: Ordering)
    requires
        digits_fit(a@) || digits_fit(b@),
    ensures
        r == natural_lexical_ordering(a@, b@),
{
    lexical_sort::natural_lexical_cmp(a, b)
}

/// Whether name `a` is strictly before name `b`: by the natural lexical
/// comparison, for every pair of which at least one name has no run of more
/// than 19 digits. Two names that both hold a longer run are past what the
/// comparison can add up; they are ordered character by character.
pub open spec fn name_before(a: Seq<char>, b: Seq<char>) -> bool {
    if digits_fit(a) || digits_fit(b) {
        natural_lexical_ordering(a, b) == Ordering::Less
    } else {
        plainly_before(a, b)
    }
}

/// Whether an entry of weight `wa` and name `na` ranks strictly before one of
/// weight `wb` and name `nb`: the lower weight first, and the names decide
/// between equal weights.
pub open spec fn ranks_before(wa: nat, na: Seq<char>, wb: nat, nb: Seq<char>) -> bool {
    wa < wb || (wa == wb && name_before(na, nb))
}

/// Whether name `a` sorts before name `b`.
pub fn name_precedes(a: &str, b: &str) -> (r: bool)
    ensures
        r == name_before(a@, b@),
{
    let fits = if has_fitting_digits(a) {
        true
    } else {
        has_fitting_digits(b)
    };
    if fits {
        match natural_lexical_cmp(a, b) {
            Ordering::Less => true,
            Ordering::Equal => false,
            Ordering::Greater => false,
        }
    } else {
        comes_plainly_before(a, b)
    }
}

} // verus!
