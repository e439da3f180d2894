//! Comparing route-field kinds: kinds compare equal by variant alone, and the
//! request body orders after every other kind.
use crate::route::{FieldKind, kind_class};
use std::cmp::Ordering;
use vstd::prelude::*;
use vstd::std_specs::cmp::{PartialEqSpecImpl, PartialOrdSpecImpl};

verus! {

impl PartialEq for FieldKind {
    fn eq(&self, other: &FieldKind) -> (r: bool) {
        match (self, other) {
            (FieldKind::State, FieldKind::State) => true,
            (FieldKind::Path { .. }, FieldKind::Path { .. }) => true,
            (FieldKind::QueryParams, FieldKind::QueryParams) => true,
            (FieldKind::RequestBody, FieldKind::RequestBody) => true,
            (FieldKind::Context, FieldKind::Context) => true,
            _ => false,
        }
    }
}

impl PartialEqSpecImpl for FieldKind {
    open spec fn obeys_eq_spec() -> bool {
        true
    }

    open spec fn eq_spec(&self, other: &FieldKind) -> bool {
        kind_class(self@) == kind_class(other@)
    }
}

/// How two kinds order: a request body is greater than anything (itself
/// included), anything is less than a request body, all else is equal.
pub open spec fn kind_order(a: FieldKind, b: FieldKind) -> Ordering {
    if a is RequestBody {
        Ordering::Greater
    } else if b is RequestBody {
        Ordering::Less
    } else {
        Ordering::Equal
    }
}

impl PartialOrd for FieldKind {
    fn partial_cmp(&self, other: &FieldKind) -> (r: Option<Ordering>) {
        Some(
            match (self, other) {
                (FieldKind::RequestBody, _) => Ordering::Greater,
                (_, FieldKind::RequestBody) => Ordering::Less,
                (_, _) => Ordering::Equal,
            },
        )
    }
}

impl PartialOrdSpecImpl for FieldKind {
    open spec fn obeys_partial_cmp_spec() -> bool {
        true
    }

    open spec fn partial_cmp_spec(&self, other: &FieldKind) -> Option<Ordering> {
        Some(kind_order(*self, *other))
    }
}

} // verus!
