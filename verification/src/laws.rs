//! The laws of token equality and token ordering.
//!
//! Equality of tokens is an equivalence relation; their ordering is a
//! strict total order; and the two agree: tokens compare `Equal` exactly
//! when they are equal, and both go by the canonical identifier's rank
//! alone, never by the diagnostic name. Each law is stated over the
//! specifications that the `PartialEq` and `PartialOrd` of
//! [`TypeInfo`] are verified against.

use vstd::prelude::*;

use core::cmp::Ordering;
use vstd::std_specs::cmp::PartialEqSpec;
use vstd::std_specs::cmp::PartialOrdIs;
use vstd::std_specs::cmp::PartialOrdSpec;

use crate::token::TypeInfo;

verus! {

/// Token equality is an equivalence relation: reflexive, symmetric and
/// transitive.
pub proof fn lemma_eq_equivalence(a: TypeInfo, b: TypeInfo, c: TypeInfo)
    ensures
        a.eq_spec(&a),
        a.eq_spec(&b) == b.eq_spec(&a),
        a.eq_spec(&b) && b.eq_spec(&c) ==> a.eq_spec(&c),
{
}

/// Equality and ordering agree, and both are decided by the canonical
/// identifier's rank alone: two tokens are equal exactly when they
/// compare `Equal`, exactly when their ranks coincide. The diagnostic
/// name takes no part in either.
pub proof fn lemma_eq_order_consistent(a: TypeInfo, b: TypeInfo)
    ensures
        a.eq_spec(&b) == (a.partial_cmp_spec(&b) == Some(Ordering::Equal)),
        a.eq_spec(&b) == (a.rank() == b.rank()),
{
}

/// The token order is irreflexive: every token compares `Equal` to
/// itself and is never below itself.
pub proof fn lemma_order_irreflexive(a: TypeInfo)
    ensures
        a.partial_cmp_spec(&a) == Some(Ordering::Equal),
        !a.is_lt(&a),
{
}

/// The token order is transitive.
pub proof fn lemma_order_transitive(a: TypeInfo, b: TypeInfo, c: TypeInfo)
    requires
        a.is_lt(&b),
        b.is_lt(&c),
    ensures
        a.is_lt(&c),
{
}

/// The token order is antisymmetric: a token strictly below another is
/// neither above it nor equal to it.
pub proof fn lemma_order_antisymmetric(a: TypeInfo, b: TypeInfo)
    requires
        a.is_lt(&b),
    ensures
        !b.is_lt(&a),
        !a.eq_spec(&b),
{
}

/// The token order is total: any two tokens stand in exactly one of the
/// three relations below, above, or equal.
pub proof fn lemma_order_total(a: TypeInfo, b: TypeInfo)
    ensures
        a.is_lt(&b) || b.is_lt(&a) || a.eq_spec(&b),
        a.is_lt(&b) ==> !b.is_lt(&a) && !a.eq_spec(&b),
        a.eq_spec(&b) ==> !a.is_lt(&b) && !b.is_lt(&a),
{
}

} // verus!
