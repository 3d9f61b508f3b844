//! How a VM was addressed by an invocation's selectors, and the order on it.
//!
//! The rank decides which display name a VM gets when listed: a VM matched in
//! several ways is treated as if addressed the most specific way.  The total
//! order is `All < Tag < Parent(p) < Name`, with `Parent(p) < Parent(q)`
//! exactly when `p` has fewer characters than `q`: a longer ancestor prefix
//! is a more specific match.

use vstd::prelude::*;

verus! {

use core::cmp::Ordering;
use crate::text::str_eq;
use vstd::string::StrSliceExecFns;

#[derive(Debug)]
pub enum SpecifiedBy {
    All,
    Tag,
    Parent(String),
    Name,
}

/// The mathematical model of a `SpecifiedBy`.
pub enum SpecifiedByV {
    All,
    Tag,
    Parent(Seq<char>),
    Name,
}

impl View for SpecifiedBy {
    type V = SpecifiedByV;

    open spec fn view(&self) -> SpecifiedByV {
        match self {
            SpecifiedBy::All => SpecifiedByV::All,
            SpecifiedBy::Tag => SpecifiedByV::Tag,
            SpecifiedBy::Parent(p) => SpecifiedByV::Parent(p@),
            SpecifiedBy::Name => SpecifiedByV::Name,
        }
    }
}

impl DeepView for SpecifiedBy {
    type V = SpecifiedByV;

    open spec fn deep_view(&self) -> SpecifiedByV {
        self@
    }
}

impl Clone for SpecifiedBy {
    fn clone(&self) -> (r: Self)
        ensures
            r@ == self@,
    {
        match self {
            SpecifiedBy::All => SpecifiedBy::All,
            SpecifiedBy::Tag => SpecifiedBy::Tag,
            SpecifiedBy::Parent(p) => SpecifiedBy::Parent(p.clone()),
            SpecifiedBy::Name => SpecifiedBy::Name,
        }
    }
}

/// The comparison of two specificity ranks.  Ancestor-prefix ranks compare by
/// the character count of the prefix, not by its contents.
pub open spec fn specificity_cmp(a: SpecifiedByV, b: SpecifiedByV) -> Ordering {
    match a {
        SpecifiedByV::All => match b {
            SpecifiedByV::All => Ordering::Equal,
            _ => Ordering::Less,
        },
        SpecifiedByV::Tag => match b {
            SpecifiedByV::All => Ordering::Greater,
            SpecifiedByV::Tag => Ordering::Equal,
            _ => Ordering::Less,
        },
        SpecifiedByV::Parent(p) => match b {
            SpecifiedByV::Name => Ordering::Less,
            SpecifiedByV::Parent(q) => if p.len() < q.len() {
                Ordering::Less
            } else if p.len() == q.len() {
                Ordering::Equal
            } else {
                Ordering::Greater
            },
            _ => Ordering::Greater,
        },
        SpecifiedByV::Name => match b {
            SpecifiedByV::Name => Ordering::Equal,
            _ => Ordering::Greater,
        },
    }
}

impl PartialEq for SpecifiedBy {
    fn eq(&self, other: &Self) -> (r: bool) {
        match (self, other) {
            (SpecifiedBy::All, SpecifiedBy::All) => true,
            (SpecifiedBy::Tag, SpecifiedBy::Tag) => true,
            (SpecifiedBy::Name, SpecifiedBy::Name) => true,
            (SpecifiedBy::Parent(p), SpecifiedBy::Parent(q)) => str_eq(p.as_str(), q.as_str()),
            _ => false,
        }
    }
}

impl vstd::std_specs::cmp::PartialEqSpecImpl for SpecifiedBy {
    open spec fn obeys_eq_spec() -> bool {
        true
    }

    open spec fn eq_spec(&self, other: &Self) -> bool {
        self@ == other@
    }
}

impl PartialOrd for SpecifiedBy {
    fn partial_cmp(&self, other: &Self) -> (r: Option<Ordering>) {
        match self {
            SpecifiedBy::All => match other {
                SpecifiedBy::All => Some(Ordering::Equal),
                _ => Some(Ordering::Less),
            },
            SpecifiedBy::Tag => match other {
                SpecifiedBy::All => Some(Ordering::Greater),
                SpecifiedBy::Tag => Some(Ordering::Equal),
                _ => Some(Ordering::Less),
            },
            SpecifiedBy::Parent(parent) => match other {
                SpecifiedBy::Name => Some(Ordering::Less),
                SpecifiedBy::Parent(other_parent) => {
                    let lp = parent.as_str().unicode_len();
                    let lq = other_parent.as_str().unicode_len();
                    if lp < lq {
                        Some(Ordering::Less)
                    } else if lp == lq {
                        Some(Ordering::Equal)
                    } else {
                        Some(Ordering::Greater)
                    }
                },
                _ => Some(Ordering::Greater),
            },
            SpecifiedBy::Name => match other {
                SpecifiedBy::Name => Some(Ordering::Equal),
                _ => Some(Ordering::Greater),
            },
        }
    }
}

impl vstd::std_specs::cmp::PartialOrdSpecImpl for SpecifiedBy {
    open spec fn obeys_partial_cmp_spec() -> bool {
        true
    }

    open spec fn partial_cmp_spec(&self, other: &Self) -> Option<Ordering> {
        Some(specificity_cmp(self@, other@))
    }
}

/// The specificity comparison is a total preorder whose strict part is a
/// strict partial order, and it orders the ranks as stated:
/// `All < Tag < Parent(p) < Name`, with ancestor prefixes ordered by length.
pub proof fn lemma_specificity_order(a: SpecifiedByV, b: SpecifiedByV, c: SpecifiedByV)
    ensures
        specificity_cmp(a, a) == Ordering::Equal,
        specificity_cmp(a, b) == Ordering::Less <==> specificity_cmp(b, a) == Ordering::Greater,
        specificity_cmp(a, b) == Ordering::Less && specificity_cmp(b, c) == Ordering::Less
            ==> specificity_cmp(a, c) == Ordering::Less,
        a is All && !(b is All) ==> specificity_cmp(a, b) == Ordering::Less,
        a is Tag && (b is Parent || b is Name) ==> specificity_cmp(a, b) == Ordering::Less,
        a is Parent && b is Name ==> specificity_cmp(a, b) == Ordering::Less,
        a matches SpecifiedByV::Parent(p) ==> b matches SpecifiedByV::Parent(q) ==> (
            specificity_cmp(a, b) == Ordering::Less <==> p.len() < q.len()
        ),
{
}

} // verus!
