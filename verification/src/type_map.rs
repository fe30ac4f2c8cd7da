//! A type-keyed associative container: one value per distinct runtime
//! type, keyed by [`TypeInfo`] tokens.
//!
//! The map's mathematical contents are a `Map<int, V>` from the rank of
//! each key token's canonical identifier to the stored value. Keying by
//! rank makes interchangeability of equal tokens a theorem: equal tokens
//! have equal ranks, so either retrieves what the other stored.

use vstd::prelude::*;

use vstd::std_specs::cmp::PartialEqSpec;

use crate::token::TypeInfo;

verus! {

/// The mathematical contents of an entry sequence: each entry's value
/// under the rank of its token, later entries overriding earlier ones.
pub open spec fn assoc_map<V>(s: Seq<(TypeInfo, V)>) -> Map<int, V>
    decreases s.len(),
{
    if s.len() == 0 {
        Map::empty()
    } else {
        assoc_map(s.drop_last()).insert(s.last().0.rank(), s.last().1)
    }
}

/// No two entries carry tokens of the same rank.
pub open spec fn distinct_ranks<V>(s: Seq<(TypeInfo, V)>) -> bool {
    forall|i: int, j: int|
        0 <= i < j < s.len() ==> #[trigger] s[i].0.rank() != #[trigger] s[j].0.rank()
}

proof fn lemma_distinct_drop_last<V>(s: Seq<(TypeInfo, V)>)
    requires
        distinct_ranks(s),
        s.len() > 0,
    ensures
        distinct_ranks(s.drop_last()),
{
    assert forall|i: int, j: int| 0 <= i < j < s.drop_last().len() implies #[trigger] s.drop_last()[i].0.rank()
        != #[trigger] s.drop_last()[j].0.rank() by {
        assert(s.drop_last()[i] == s[i]);
        assert(s.drop_last()[j] == s[j]);
    }
}

proof fn lemma_distinct_remove<V>(s: Seq<(TypeInfo, V)>, k: int)
    requires
        distinct_ranks(s),
        0 <= k < s.len(),
    ensures
        distinct_ranks(s.remove(k)),
{
    assert forall|i: int, j: int| 0 <= i < j < s.remove(k).len() implies #[trigger] s.remove(k)[i].0.rank()
        != #[trigger] s.remove(k)[j].0.rank() by {
        let i2: int = if i < k {
            i
        } else {
            i + 1
        };
        let j2: int = if j < k {
            j
        } else {
            j + 1
        };
        assert(s.remove(k)[i] == s[i2]);
        assert(s.remove(k)[j] == s[j2]);
    }
}

/// A rank is a key of the contents exactly when some entry's token has
/// that rank.
proof fn lemma_assoc_map_domain<V>(s: Seq<(TypeInfo, V)>, r: int)
    ensures
        assoc_map(s).contains_key(r) <==> exists|i: int|
            0 <= i < s.len() && #[trigger] s[i].0.rank() == r,
    decreases s.len(),
{
    if s.len() == 0 {
    } else {
        lemma_assoc_map_domain(s.drop_last(), r);
        if assoc_map(s).contains_key(r) {
            if s.last().0.rank() == r {
                assert(s[s.len() - 1].0.rank() == r);
            } else {
                let i = choose|i: int| 0 <= i < s.drop_last().len() && #[trigger] s.drop_last()[i].0.rank() == r;
                assert(s[i].0.rank() == r);
            }
        }
        if exists|i: int| 0 <= i < s.len() && #[trigger] s[i].0.rank() == r {
            let i = choose|i: int| 0 <= i < s.len() && #[trigger] s[i].0.rank() == r;
            if i < s.len() - 1 {
                assert(s.drop_last()[i].0.rank() == r);
            }
        }
    }
}

/// With distinct ranks, the contents hold each entry's value under its
/// token's rank.
proof fn lemma_assoc_map_value<V>(s: Seq<(TypeInfo, V)>, i: int)
    requires
        distinct_ranks(s),
        0 <= i < s.len(),
    ensures
        assoc_map(s).contains_key(s[i].0.rank()),
        assoc_map(s)[s[i].0.rank()] == s[i].1,
    decreases s.len(),
{
    if i == s.len() - 1 {
    } else {
        lemma_distinct_drop_last(s);
        lemma_assoc_map_value(s.drop_last(), i);
        assert(s.drop_last()[i] == s[i]);
        assert(s[i].0.rank() != s[s.len() - 1].0.rank());
    }
}

/// Removing the entry at an index removes exactly its rank from the
/// contents.
proof fn lemma_assoc_map_remove<V>(s: Seq<(TypeInfo, V)>, k: int)
    requires
        distinct_ranks(s),
        0 <= k < s.len(),
    ensures
        assoc_map(s.remove(k)) == assoc_map(s).remove(s[k].0.rank()),
    decreases s.len(),
{
    if k == s.len() - 1 {
        assert(s.remove(k) =~= s.drop_last());
        lemma_assoc_map_domain(s.drop_last(), s[k].0.rank());
        assert forall|j: int| 0 <= j < s.drop_last().len() implies #[trigger] s.drop_last()[j].0.rank()
            != s[k].0.rank() by {
            assert(s.drop_last()[j] == s[j]);
        }
        assert(!assoc_map(s.drop_last()).contains_key(s[k].0.rank()));
        assert(assoc_map(s.remove(k)) =~= assoc_map(s).remove(s[k].0.rank()));
    } else {
        lemma_distinct_drop_last(s);
        lemma_assoc_map_remove(s.drop_last(), k);
        assert(s.drop_last()[k] == s[k]);
        assert(s.remove(k).drop_last() =~= s.drop_last().remove(k));
        assert(s.remove(k).last() == s.last());
        assert(s.remove(k).len() > 0);
        assert(assoc_map(s.remove(k)) == assoc_map(s.remove(k).drop_last()).insert(
            s.remove(k).last().0.rank(),
            s.remove(k).last().1,
        ));
        assert(s[k].0.rank() != s.last().0.rank());
        assert(assoc_map(s.remove(k)) =~= assoc_map(s).remove(s[k].0.rank()));
    }
}

/// With distinct ranks, the contents have exactly one key per entry.
proof fn lemma_assoc_map_len<V>(s: Seq<(TypeInfo, V)>)
    requires
        distinct_ranks(s),
    ensures
        assoc_map(s).dom().finite(),
        assoc_map(s).dom().len() == s.len(),
    decreases s.len(),
{
    if s.len() == 0 {
        assert(assoc_map(s).dom() =~= Set::<int>::empty());
    } else {
        lemma_distinct_drop_last(s);
        lemma_assoc_map_len(s.drop_last());
        lemma_assoc_map_domain(s.drop_last(), s.last().0.rank());
        assert forall|j: int| 0 <= j < s.drop_last().len() implies #[trigger] s.drop_last()[j].0.rank()
            != s.last().0.rank() by {
            assert(s.drop_last()[j] == s[j]);
            assert(s[j].0.rank() != s[s.len() - 1].0.rank());
        }
        assert(!assoc_map(s.drop_last()).dom().contains(s.last().0.rank()));
        assert(assoc_map(s).dom() =~= assoc_map(s.drop_last()).dom().insert(s.last().0.rank()));
    }
}

/// A type-keyed map: at most one value per distinct runtime type, the
/// key being the type's token.
pub struct TypeMap<V> {
    entries: Vec<(TypeInfo, V)>,
}

impl<V> View for TypeMap<V> {
    type V = Map<int, V>;

    closed spec fn view(&self) -> Map<int, V> {
        assoc_map(self.entries@)
    }
}

impl<V> TypeMap<V> {
    #[verifier::type_invariant]
    spec fn wf(self) -> bool {
        distinct_ranks(self.entries@)
    }

    /// An empty map.
    pub fn new() -> (m: TypeMap<V>)
        ensures
            m@ == Map::<int, V>::empty(),
    {
        let entries: Vec<(TypeInfo, V)> = Vec::new();
        TypeMap { entries }
    }

    /// How many types have a value stored.
    pub fn len(&self) -> (n: usize)
        ensures
            n == self@.dom().len(),
    {
        proof {
            use_type_invariant(&*self);
            lemma_assoc_map_len(self.entries@);
        }
        self.entries.len()
    }

    /// The value stored under the given token's type, if any.
    pub fn get(&self, token: &TypeInfo) -> (r: Option<&V>)
        ensures
            match r {
                Some(v) => self@.contains_key(token.rank()) && *v == self@[token.rank()],
                None => !self@.contains_key(token.rank()),
            },
    {
        proof {
            use_type_invariant(&*self);
        }
        let n = self.entries.len();
        let mut i: usize = 0;
        while i < n
            invariant
                n == self.entries@.len(),
                i <= n,
                distinct_ranks(self.entries@),
                self@ == assoc_map(self.entries@),
                forall|j: int| 0 <= j < i ==> #[trigger] self.entries@[j].0.rank() != token.rank(),
            decreases n - i,
        {
            if self.entries[i].0 == *token {
                proof {
                    lemma_assoc_map_value(self.entries@, i as int);
                }
                return Some(&self.entries[i].1);
            }
            i += 1;
        }
        proof {
            lemma_assoc_map_domain(self.entries@, token.rank());
        }
        None
    }

    /// True exactly when a value is stored under the token's type.
    pub fn contains(&self, token: &TypeInfo) -> (r: bool)
        ensures
            r == self@.contains_key(token.rank()),
    {
        self.get(token).is_some()
    }

    /// Stores `value` under the token's type. The token's rank now maps
    /// to `value`; a value stored earlier under the same type — under
    /// this token or any token equal to it — is replaced and handed
    /// back.
    #[verifier::loop_isolation(false)]
    pub fn insert(&mut self, token: TypeInfo, value: V) -> (prev: Option<V>)
        ensures
            final(self)@ == old(self)@.insert(token.rank(), value),
            match prev {
                Some(p) => old(self)@.contains_key(token.rank()) && p == old(self)@[token.rank()],
                None => !old(self)@.contains_key(token.rank()),
            },
    {
        proof {
            use_type_invariant(&*self);
        }
        let ghost s0 = self.entries@;
        let mut entries: Vec<(TypeInfo, V)> = Vec::new();
        std::mem::swap(&mut entries, &mut self.entries);
        let n = entries.len();
        let mut i: usize = 0;
        while i < n
            invariant
                entries@ == s0,
                n == s0.len(),
                i <= n,
                distinct_ranks(s0),
                forall|j: int| 0 <= j < i ==> #[trigger] s0[j].0.rank() != token.rank(),
            decreases n - i,
        {
            if entries[i].0 == token {
                proof {
                    lemma_assoc_map_value(s0, i as int);
                    lemma_assoc_map_remove(s0, i as int);
                    lemma_distinct_remove(s0, i as int);
                }
                let pair = entries.remove(i);
                proof {
                    assert forall|p: int, q: int|
                        0 <= p < q < entries@.push((token, value)).len() implies #[trigger] entries@.push(
                        (token, value),
                    )[p].0.rank() != #[trigger] entries@.push((token, value))[q].0.rank() by {
                        if q < entries@.len() {
                            assert(entries@.push((token, value))[p] == entries@[p]);
                            assert(entries@.push((token, value))[q] == entries@[q]);
                        } else {
                            assert(entries@.push((token, value))[q] == (token, value));
                            assert(entries@.push((token, value))[p] == entries@[p]);
                            let p2: int = if p < i {
                                p
                            } else {
                                p + 1
                            };
                            assert(entries@[p] == s0[p2]);
                            assert(s0[p2].0.rank() != s0[i as int].0.rank());
                        }
                    }
                }
                entries.push((token, value));
                proof {
                    assert(entries@.drop_last() =~= s0.remove(i as int));
                    assert(assoc_map(entries@) =~= assoc_map(s0).insert(token.rank(), value));
                }
                self.entries = entries;
                return Some(pair.1);
            }
            i += 1;
        }
        proof {
            lemma_assoc_map_domain(s0, token.rank());
            assert forall|p: int, q: int| 0 <= p < q < s0.push((token, value)).len() implies #[trigger] s0.push(
                (token, value),
            )[p].0.rank() != #[trigger] s0.push((token, value))[q].0.rank() by {
                if q < s0.len() {
                    assert(s0.push((token, value))[p] == s0[p]);
                    assert(s0.push((token, value))[q] == s0[q]);
                } else {
                    assert(s0.push((token, value))[q] == (token, value));
                    assert(s0.push((token, value))[p] == s0[p]);
                }
            }
        }
        entries.push((token, value));
        proof {
            assert(entries@.drop_last() =~= s0);
            assert(assoc_map(entries@) =~= assoc_map(s0).insert(token.rank(), value));
        }
        self.entries = entries;
        None
    }
}

/// A second insertion under an equal token replaces the first entry:
/// after storing `v1` under `a`, the map holds `v1` under `b`'s rank —
/// so by [`TypeMap::insert`]'s contract an insertion under `b` hands
/// `v1` back — and inserting `v2` under `b` leaves the map exactly as if
/// `v2` had been stored under `a` in one step: one entry for the one
/// shared rank, holding the later value.
pub proof fn lemma_second_insert_replaces<V>(m0: Map<int, V>, a: TypeInfo, b: TypeInfo, v1: V, v2: V)
    requires
        a.eq_spec(&b),
    ensures
        m0.insert(a.rank(), v1).contains_key(b.rank()),
        m0.insert(a.rank(), v1)[b.rank()] == v1,
        m0.insert(a.rank(), v1).insert(b.rank(), v2) == m0.insert(a.rank(), v2),
{
    assert(m0.insert(a.rank(), v1).insert(b.rank(), v2) =~= m0.insert(a.rank(), v2));
}

/// Equal tokens are interchangeable as keys: a lookup or an insertion
/// goes by the token's rank alone, and equal tokens have equal ranks, so
/// whichever of two equal tokens stored a value, either retrieves it.
pub proof fn lemma_equal_tokens_interchangeable<V>(m: TypeMap<V>, a: TypeInfo, b: TypeInfo)
    requires
        a.eq_spec(&b),
    ensures
        m@.contains_key(a.rank()) == m@.contains_key(b.rank()),
        m@.contains_key(a.rank()) ==> m@[a.rank()] == m@[b.rank()],
{
}

} // verus!
