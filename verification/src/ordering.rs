//! Descending comparison of optional metrics, absent values last.
use vstd::prelude::*;
use std::cmp::Ordering;

verus! {

/// Compares two optional values in descending order, absent values after
/// present ones (`Less` puts `left` first).
pub fn cmp_option_i64_desc(left: Option<i64>, right: Option<i64>) -> (r: Ordering)
    ensures
        r == (match (left, right) {
            (Some(l), Some(g)) => if g < l { Ordering::Less } else if g == l { Ordering::Equal } else { Ordering::Greater },
            (Some(_), None) => Ordering::Less,
            (None, Some(_)) => Ordering::Greater,
            (None, None) => Ordering::Equal,
        }),
{
    match (left, right) {
        (Some(l), Some(g)) => {
            if g < l {
                Ordering::Less
            } else if g == l {
                Ordering::Equal
            } else {
                Ordering::Greater
            }
        },
        (Some(_), None) => Ordering::Less,
        (None, Some(_)) => Ordering::Greater,
        (None, None) => Ordering::Equal,
    }
}

} // verus!
