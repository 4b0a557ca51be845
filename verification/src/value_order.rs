//! The order between two values in the terms of the standard library.
use vstd::prelude::*;
use crate::text::Ordered;
use crate::value::{values_compare, EvalResult};
use std::cmp::Ordering;

verus! {

/// The standard order that stands for one of the library's.
pub open spec fn std_order(o: Ordered) -> Ordering {
    match o {
        Ordered::Less => Ordering::Less,
        Ordered::Equal => Ordering::Equal,
        Ordered::Greater => Ordering::Greater,
    }
}

/// The same, where there may be no order.
pub open spec fn std_order_of(o: Option<Ordered>) -> Option<Ordering> {
    match o {
        Some(x) => Some(std_order(x)),
        None => None,
    }
}

impl EvalResult {
    /// The order between the two values, where they are comparable.
    pub fn compare(&self, other: &EvalResult) -> (r: Option<Ordering>)
        ensures
            r == std_order_of(values_compare(self@, other@)),
    {
        match self.order_with(other) {
            Some(Ordered::Less) => Some(Ordering::Less),
            Some(Ordered::Equal) => Some(Ordering::Equal),
            Some(Ordered::Greater) => Some(Ordering::Greater),
            None => None,
        }
    }
}

} // verus!
