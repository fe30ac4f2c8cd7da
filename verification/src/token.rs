//! The type-identity token and its trusted primitives.
//!
//! The runtime's own type-identity facility, `std::any::TypeId`, is the
//! authority on which types are the same; this module wraps it. A
//! `TypeId` is opaque here, so its contents are modelled by an
//! uninterpreted rank: a mathematical integer that two identifiers share
//! exactly when they are equal, and whose numeric order is the
//! identifiers' total order. Equality and ordering of tokens are
//! specified, and verified, purely in terms of that rank.
//!
//! The diagnostic name carried by a token is presentation data only. It
//! is drawn from a fixed table of well-known types; tokens for types
//! outside the table share a placeholder name. Names take no part in
//! equality, ordering or hashing, and nothing guarantees them unique.

use vstd::prelude::*;

use core::cmp::Ordering;
use std::any::TypeId;

verus! {

#[verifier::external_type_specification]
#[verifier::external_body]
pub struct ExTypeId(TypeId);

/// A numeric key realizing the total order of `std::any::TypeId`: two
/// identifiers have the same rank exactly when they are equal, and the
/// identifiers' order is the numeric order of their ranks. Such a key
/// exists because the derived `Ord` of `TypeId` is a total order,
/// consistent with its equality, on a finite value space.
pub uninterp spec fn type_id_rank(id: TypeId) -> int;

/// Relies on `std::any::TypeId::of`: returns the canonical identifier
/// of the type `T`, distinct from the identifier of every other type in
/// this process. Nothing is assumed about which identifier comes back.
#[verifier::external_body]
fn raw_type_id<T: 'static + ?Sized>() -> TypeId {
    TypeId::of::<T>()
}

/// Relies on the derived `PartialEq` of `std::any::TypeId`: two
/// identifiers compare equal exactly when they are the same value, that
/// is, exactly when they have the same rank.
#[verifier::external_body]
fn raw_id_eq(a: &TypeId, b: &TypeId) -> (r: bool)
    ensures
        r == (*a == *b),
        r == (type_id_rank(*a) == type_id_rank(*b)),
{
    a == b
}

/// Relies on the derived `Ord` of `std::any::TypeId`: comparison is a
/// total order consistent with equality, here expressed as the numeric
/// order of the identifiers' ranks.
#[verifier::external_body]
fn raw_id_cmp(a: &TypeId, b: &TypeId) -> (r: Ordering)
    ensures
        (r == Ordering::Equal) == (type_id_rank(*a) == type_id_rank(*b)),
        (r == Ordering::Less) == (type_id_rank(*a) < type_id_rank(*b)),
        (r == Ordering::Greater) == (type_id_rank(*a) > type_id_rank(*b)),
        (r == Ordering::Equal) == (*a == *b),
{
    a.cmp(b)
}

/// The diagnostic name for a well-known identifier: the table covers the
/// primitive types and the string types, and every other identifier gets
/// the one placeholder name. Names are presentation data; two types may
/// share one.
fn builtin_name(id: &TypeId) -> (r: &'static str)
    ensures
        r@.len() > 0,
{
    proof {
        reveal_strlit("<unnamed type>");
    }
    if raw_id_eq(id, &raw_type_id::<String>()) {
        proof {
            reveal_strlit("alloc::string::String");
        }
        "alloc::string::String"
    } else if raw_id_eq(id, &raw_type_id::<str>()) {
        proof {
            reveal_strlit("str");
        }
        "str"
    } else if raw_id_eq(id, &raw_type_id::<bool>()) {
        proof {
            reveal_strlit("bool");
        }
        "bool"
    } else if raw_id_eq(id, &raw_type_id::<char>()) {
        proof {
            reveal_strlit("char");
        }
        "char"
    } else if raw_id_eq(id, &raw_type_id::<()>()) {
        proof {
            reveal_strlit("()");
        }
        "()"
    } else if raw_id_eq(id, &raw_type_id::<u8>()) {
        proof {
            reveal_strlit("u8");
        }
        "u8"
    } else if raw_id_eq(id, &raw_type_id::<u16>()) {
        proof {
            reveal_strlit("u16");
        }
        "u16"
    } else if raw_id_eq(id, &raw_type_id::<u32>()) {
        proof {
            reveal_strlit("u32");
        }
        "u32"
    } else if raw_id_eq(id, &raw_type_id::<u64>()) {
        proof {
            reveal_strlit("u64");
        }
        "u64"
    } else if raw_id_eq(id, &raw_type_id::<u128>()) {
        proof {
            reveal_strlit("u128");
        }
        "u128"
    } else if raw_id_eq(id, &raw_type_id::<usize>()) {
        proof {
            reveal_strlit("usize");
        }
        "usize"
    } else if raw_id_eq(id, &raw_type_id::<i8>()) {
        proof {
            reveal_strlit("i8");
        }
        "i8"
    } else if raw_id_eq(id, &raw_type_id::<i16>()) {
        proof {
            reveal_strlit("i16");
        }
        "i16"
    } else if raw_id_eq(id, &raw_type_id::<i32>()) {
        proof {
            reveal_strlit("i32");
        }
        "i32"
    } else if raw_id_eq(id, &raw_type_id::<i64>()) {
        proof {
            reveal_strlit("i64");
        }
        "i64"
    } else if raw_id_eq(id, &raw_type_id::<i128>()) {
        proof {
            reveal_strlit("i128");
        }
        "i128"
    } else if raw_id_eq(id, &raw_type_id::<isize>()) {
        proof {
            reveal_strlit("isize");
        }
        "isize"
    } else {
        "<unnamed type>"
    }
}

/// A token identifying a runtime type: the type's canonical identifier
/// together with a diagnostic name. Small, copyable, and free of heap
/// ownership; constructing one never allocates.
///
/// Equality, ordering and hashing go by the canonical identifier alone:
/// the hand-written `PartialEq` and `PartialOrd` compare the identifiers
/// only, and the derived `Ord` and `Hash` agree with them because tokens
/// with equal identifiers also carry equal names (both fields are fixed
/// by the identifier at construction, and tokens cannot be built any
/// other way).
#[derive(Copy, Clone, Debug, Eq, Ord, Hash)]
pub struct TypeInfo {
    id: TypeId,
    name: &'static str,
}

impl TypeInfo {
    /// The canonical identifier this token carries.
    pub closed spec fn id_spec(self) -> TypeId {
        self.id
    }

    /// The rank of the carried identifier: the abstract value that
    /// equality and ordering of tokens are defined over.
    pub open spec fn rank(self) -> int {
        type_id_rank(self.id_spec())
    }

    /// The diagnostic name this token carries.
    pub closed spec fn name_spec(self) -> Seq<char> {
        self.name@
    }

    /// Builds the token for the type `T`. Total: every type has a token.
    pub fn new<T: 'static + ?Sized>() -> (t: TypeInfo)
        ensures
            t.name_spec().len() > 0,
    {
        let id = raw_type_id::<T>();
        let name = builtin_name(&id);
        TypeInfo { id, name }
    }

    /// Builds the token for the type of the referenced value; the same
    /// token `new::<T>()` builds, by the same construction. The value is
    /// only borrowed to fix `T`: it is never read.
    pub fn from_val<T: 'static + ?Sized>(_value: &T) -> (t: TypeInfo)
        ensures
            t.name_spec().len() > 0,
    {
        Self::new::<T>()
    }

    /// The diagnostic type name. Presentation data only: equality,
    /// ordering and hashing of tokens never consult it. Only the
    /// well-known types of the built-in table are named; tokens for all
    /// other types report one shared placeholder name, so the name never
    /// distinguishes types — the canonical identifier does.
    pub fn name(&self) -> (r: &'static str)
        ensures
            r@ == self.name_spec(),
    {
        self.name
    }

    /// The canonical identifier, by reference.
    pub fn type_id_ref(&self) -> (r: &TypeId)
        ensures
            *r == self.id_spec(),
    {
        &self.id
    }

    /// The canonical identifier, by value.
    pub fn type_id(&self) -> (r: TypeId)
        ensures
            r == self.id_spec(),
    {
        self.id
    }

    /// True exactly when this token identifies the type `T`: the token's
    /// identifier is compared with the identifier built for `T`, so this
    /// agrees with `*self == Self::new::<T>()`.
    pub fn is<T: 'static + ?Sized>(&self) -> bool {
        raw_id_eq(&self.id, &raw_type_id::<T>())
    }
}

impl PartialEq for TypeInfo {
    /// Tokens are equal exactly when their canonical identifiers are:
    /// the diagnostic name takes no part.
    fn eq(&self, other: &Self) -> (r: bool) {
        raw_id_eq(&self.id, &other.id)
    }
}

impl vstd::std_specs::cmp::PartialEqSpecImpl for TypeInfo {
    open spec fn obeys_eq_spec() -> bool {
        true
    }

    open spec fn eq_spec(&self, other: &Self) -> bool {
        self.rank() == other.rank()
    }
}

impl PartialOrd for TypeInfo {
    /// Tokens are ordered by their canonical identifiers alone. The
    /// order is total and consistent with equality; beyond that it
    /// carries no outside meaning.
    fn partial_cmp(&self, other: &Self) -> (r: Option<Ordering>) {
        Some(raw_id_cmp(&self.id, &other.id))
    }
}

impl vstd::std_specs::cmp::PartialOrdSpecImpl for TypeInfo {
    open spec fn obeys_partial_cmp_spec() -> bool {
        true
    }

    open spec fn partial_cmp_spec(&self, other: &Self) -> Option<Ordering> {
        if self.rank() < other.rank() {
            Some(Ordering::Less)
        } else if self.rank() == other.rank() {
            Some(Ordering::Equal)
        } else {
            Some(Ordering::Greater)
        }
    }
}

/// Every value can hand out the token of its own type.
pub trait AnyExt {
    fn type_info(&self) -> TypeInfo;
}

impl<T: 'static + ?Sized> AnyExt for T {
    /// The token for `T`, exactly as `TypeInfo::new::<T>()` builds it.
    fn type_info(&self) -> TypeInfo {
        TypeInfo::new::<T>()
    }
}

} // verus!
