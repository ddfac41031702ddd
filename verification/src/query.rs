//! The shape of an ECS query, as far as scheduling cares: which components it borrows
//! shared and which exclusively. Components are identified by opaque type keys

use vstd::prelude::*;

use crate::input::no_duplicates;

verus! {

/// The shape of a query
pub enum QueryShape {
    /// A shared borrow of the component
    Shared(u64),
    /// An exclusive borrow of the component
    Exclusive(u64),
    /// The query, if it matches
    Optional(Box<QueryShape>),
    /// Either of two queries
    Or(Box<QueryShape>, Box<QueryShape>),
    /// Only whether the query would match; borrows nothing
    Satisfies(Box<QueryShape>),
    /// The first query, for entities that also match the second
    With(Box<QueryShape>, Box<QueryShape>),
    /// The first query, for entities that do not match the second
    Without(Box<QueryShape>, Box<QueryShape>),
    /// All of the queries
    Tuple(Vec<QueryShape>),
}

/// The components the query borrows shared
pub open spec fn shared_of(q: QueryShape) -> Set<u64>
    decreases q,
{
    match q {
        QueryShape::Shared(t) => set![t],
        QueryShape::Exclusive(_) => Set::empty(),
        QueryShape::Optional(b) => shared_of(*b),
        QueryShape::Or(l, r) => shared_of(*l).union(shared_of(*r)),
        QueryShape::Satisfies(_) => Set::empty(),
        QueryShape::With(a, _) => shared_of(*a),
        QueryShape::Without(a, _) => shared_of(*a),
        QueryShape::Tuple(items) => shared_of_all(items@),
    }
}

/// The components the queries borrow shared
pub open spec fn shared_of_all(items: Seq<QueryShape>) -> Set<u64>
    decreases items,
{
    if items.len() == 0 {
        Set::empty()
    } else {
        shared_of_all(items.drop_last()).union(shared_of(items.last()))
    }
}

/// The components the query borrows exclusively
pub open spec fn exclusive_of(q: QueryShape) -> Set<u64>
    decreases q,
{
    match q {
        QueryShape::Shared(_) => Set::empty(),
        QueryShape::Exclusive(t) => set![t],
        QueryShape::Optional(b) => exclusive_of(*b),
        QueryShape::Or(l, r) => exclusive_of(*l).union(exclusive_of(*r)),
        QueryShape::Satisfies(_) => Set::empty(),
        QueryShape::With(a, _) => exclusive_of(*a),
        QueryShape::Without(a, _) => exclusive_of(*a),
        QueryShape::Tuple(items) => exclusive_of_all(items@),
    }
}

/// The components the queries borrow exclusively
pub open spec fn exclusive_of_all(items: Seq<QueryShape>) -> Set<u64>
    decreases items,
{
    if items.len() == 0 {
        Set::empty()
    } else {
        exclusive_of_all(items.drop_last()).union(exclusive_of(items.last()))
    }
}

/// The number of shared borrows of the query, for preallocation: one per shared borrow,
/// the larger of the two sides of an `Or`, and none for `Satisfies`
pub open spec fn num_shared(q: QueryShape) -> nat
    decreases q,
{
    match q {
        QueryShape::Shared(_) => 1,
        QueryShape::Exclusive(_) => 0,
        QueryShape::Optional(b) => num_shared(*b),
        QueryShape::Or(l, r) => if num_shared(*l) > num_shared(*r) { num_shared(*l) } else { num_shared(*r) },
        QueryShape::Satisfies(_) => 0,
        QueryShape::With(a, _) => num_shared(*a),
        QueryShape::Without(a, _) => num_shared(*a),
        QueryShape::Tuple(items) => num_shared_all(items@),
    }
}

/// The summed number of shared borrows of the queries
pub open spec fn num_shared_all(items: Seq<QueryShape>) -> nat
    decreases items,
{
    if items.len() == 0 {
        0
    } else {
        num_shared_all(items.drop_last()) + num_shared(items.last())
    }
}

/// The number of exclusive borrows of the query, for preallocation
pub open spec fn num_exclusive(q: QueryShape) -> nat
    decreases q,
{
    match q {
        QueryShape::Shared(_) => 0,
        QueryShape::Exclusive(_) => 1,
        QueryShape::Optional(b) => num_exclusive(*b),
        QueryShape::Or(l, r) => if num_exclusive(*l) > num_exclusive(*r) { num_exclusive(*l) } else { num_exclusive(*r) },
        QueryShape::Satisfies(_) => 0,
        QueryShape::With(a, _) => num_exclusive(*a),
        QueryShape::Without(a, _) => num_exclusive(*a),
        QueryShape::Tuple(items) => num_exclusive_all(items@),
    }
}

/// The summed number of exclusive borrows of the queries
pub open spec fn num_exclusive_all(items: Seq<QueryShape>) -> nat
    decreases items,
{
    if items.len() == 0 {
        0
    } else {
        num_exclusive_all(items.drop_last()) + num_exclusive(items.last())
    }
}

/// The element set of a sequence
pub open spec fn elems(s: Seq<u64>) -> Set<u64> {
    Set::new(|x: u64| s.contains(x))
}

/// Adds `x` to the set `v`, unless it is already there
fn insert_key(v: &mut Vec<u64>, x: u64)
    ensures
        no_duplicates(old(v)@) ==> no_duplicates(final(v)@),
        elems(final(v)@) == elems(old(v)@).insert(x),
{
    if !crate::input::vec_contains_u64(v, x) {
        let ghost prev = v@;
        v.push(x);
        proof {
            assert forall|i: int, j: int| no_duplicates(prev) && 0 <= i < j < v@.len() implies v@[i] != v@[j] by {
                if j == prev.len() {
                    assert(v@[i] == prev[i]);
                    assert(prev.contains(v@[i]));
                } else {
                    assert(v@[i] == prev[i] && v@[j] == prev[j]);
                }
            }
            assert forall|y: u64| #[trigger] v@.contains(y) <==> (prev.contains(y) || y == x) by {
                if v@.contains(y) && y != x {
                    let i = choose|i: int| 0 <= i < v@.len() && v@[i] == y;
                    assert(prev[i] == y);
                }
                if prev.contains(y) {
                    let i = choose|i: int| 0 <= i < prev.len() && prev[i] == y;
                    assert(v@[i] == y);
                }
                if y == x {
                    assert(v@[prev.len() as int] == y);
                }
            }
        }
    }
    assert(elems(v@) =~= elems(old(v)@).insert(x));
}

/// A type whose values describe the borrows of an ECS query
pub trait Queryable {
    /// The amount of shared borrows, for preallocation purposes
    fn num_shared_borrows(&self) -> usize;

    /// The amount of exclusive borrows, for preallocation purposes
    fn num_exclusive_borrows(&self) -> usize;

    /// Adds the borrows of this query to their corresponding sets
    fn register_borrows(&self, shared: &mut Vec<u64>, exclusive: &mut Vec<u64>);
}

impl Queryable for QueryShape {
    fn num_shared_borrows(&self) -> (r: usize)
        ensures
            num_shared(*self) <= usize::MAX ==> r == num_shared(*self),
            num_shared(*self) > usize::MAX ==> r == usize::MAX,
        decreases self,
    {
        match self {
            QueryShape::Shared(_) => 1,
            QueryShape::Exclusive(_) => 0,
            QueryShape::Optional(b) => b.num_shared_borrows(),
            QueryShape::Or(l, r) => {
                let a = l.num_shared_borrows();
                let b = r.num_shared_borrows();
                if a > b { a } else { b }
            },
            QueryShape::Satisfies(_) => 0,
            QueryShape::With(a, _) => a.num_shared_borrows(),
            QueryShape::Without(a, _) => a.num_shared_borrows(),
            QueryShape::Tuple(items) => {
                let mut total: usize = 0;
                let mut i: usize = 0;
                while i < items.len()
                    invariant
                        0 <= i <= items@.len(),
                        *self == QueryShape::Tuple(*items),
                        num_shared_all(items@.subrange(0, i as int)) <= usize::MAX ==> total == num_shared_all(items@.subrange(0, i as int)),
                        num_shared_all(items@.subrange(0, i as int)) > usize::MAX ==> total == usize::MAX,
                    decreases items.len() - i,
                {
                    assert(items@.subrange(0, i + 1).drop_last() =~= items@.subrange(0, i as int));
                    proof {
                    assert(decreases_to!(*self => (*self)->Tuple_0));
                    assert(decreases_to!((*self)->Tuple_0 => (*self)->Tuple_0@));
                    assert(decreases_to!((*self)->Tuple_0@ => (*self)->Tuple_0@[i as int]));
                }
                    let n = items[i].num_shared_borrows();
                    total = total.saturating_add(n);
                    i += 1;
                }
                assert(items@.subrange(0, items@.len() as int) =~= items@);
                total
            },
        }
    }

    fn num_exclusive_borrows(&self) -> (r: usize)
        ensures
            num_exclusive(*self) <= usize::MAX ==> r == num_exclusive(*self),
            num_exclusive(*self) > usize::MAX ==> r == usize::MAX,
        decreases self,
    {
        match self {
            QueryShape::Shared(_) => 0,
            QueryShape::Exclusive(_) => 1,
            QueryShape::Optional(b) => b.num_exclusive_borrows(),
            QueryShape::Or(l, r) => {
                let a = l.num_exclusive_borrows();
                let b = r.num_exclusive_borrows();
                if a > b { a } else { b }
            },
            QueryShape::Satisfies(_) => 0,
            QueryShape::With(a, _) => a.num_exclusive_borrows(),
            QueryShape::Without(a, _) => a.num_exclusive_borrows(),
            QueryShape::Tuple(items) => {
                let mut total: usize = 0;
                let mut i: usize = 0;
                while i < items.len()
                    invariant
                        0 <= i <= items@.len(),
                        *self == QueryShape::Tuple(*items),
                        num_exclusive_all(items@.subrange(0, i as int)) <= usize::MAX ==> total == num_exclusive_all(items@.subrange(0, i as int)),
                        num_exclusive_all(items@.subrange(0, i as int)) > usize::MAX ==> total == usize::MAX,
                    decreases items.len() - i,
                {
                    assert(items@.subrange(0, i + 1).drop_last() =~= items@.subrange(0, i as int));
                    proof {
                    assert(decreases_to!(*self => (*self)->Tuple_0));
                    assert(decreases_to!((*self)->Tuple_0 => (*self)->Tuple_0@));
                    assert(decreases_to!((*self)->Tuple_0@ => (*self)->Tuple_0@[i as int]));
                }
                    let n = items[i].num_exclusive_borrows();
                    total = total.saturating_add(n);
                    i += 1;
                }
                assert(items@.subrange(0, items@.len() as int) =~= items@);
                total
            },
        }
    }

    fn register_borrows(&self, shared: &mut Vec<u64>, exclusive: &mut Vec<u64>)
        ensures
            no_duplicates(old(shared)@) ==> no_duplicates(final(shared)@),
            no_duplicates(old(exclusive)@) ==> no_duplicates(final(exclusive)@),
            elems(final(shared)@) == elems(old(shared)@).union(shared_of(*self)),
            elems(final(exclusive)@) == elems(old(exclusive)@).union(exclusive_of(*self)),
        {
        register_into_sets(self, shared, exclusive);
    }
}

/// Adds the borrows of the query to the sets
fn register_into_sets(q: &QueryShape, shared: &mut Vec<u64>, exclusive: &mut Vec<u64>)
    ensures
        no_duplicates(old(shared)@) ==> no_duplicates(final(shared)@),
        no_duplicates(old(exclusive)@) ==> no_duplicates(final(exclusive)@),
        elems(final(shared)@) == elems(old(shared)@).union(shared_of(*q)),
        elems(final(exclusive)@) == elems(old(exclusive)@).union(exclusive_of(*q)),
    decreases q,
{
    match q {
        QueryShape::Shared(t) => {
            insert_key(shared, *t);
            assert(elems(exclusive@) =~= elems(old(exclusive)@).union(Set::empty()));
            assert(elems(old(shared)@).insert(*t) =~= elems(old(shared)@).union(set![*t]));
        },
        QueryShape::Exclusive(t) => {
            insert_key(exclusive, *t);
            assert(elems(shared@) =~= elems(old(shared)@).union(Set::empty()));
            assert(elems(old(exclusive)@).insert(*t) =~= elems(old(exclusive)@).union(set![*t]));
        },
        QueryShape::Optional(b) => {
            register_into_sets(b, shared, exclusive);
        },
        QueryShape::Or(l, r) => {
            register_into_sets(l, shared, exclusive);
            register_into_sets(r, shared, exclusive);
            assert(elems(shared@) =~= elems(old(shared)@).union(shared_of(**l).union(shared_of(**r))));
            assert(elems(exclusive@) =~= elems(old(exclusive)@).union(exclusive_of(**l).union(exclusive_of(**r))));
        },
        QueryShape::Satisfies(_) => {
            assert(elems(shared@) =~= elems(old(shared)@).union(Set::empty()));
            assert(elems(exclusive@) =~= elems(old(exclusive)@).union(Set::empty()));
        },
        QueryShape::With(a, _) => {
            register_into_sets(a, shared, exclusive);
        },
        QueryShape::Without(a, _) => {
            register_into_sets(a, shared, exclusive);
        },
        QueryShape::Tuple(items) => {
            let mut i: usize = 0;
            while i < items.len()
                invariant
                    0 <= i <= items@.len(),
                    *q == QueryShape::Tuple(*items),
                    no_duplicates(old(shared)@) ==> no_duplicates(shared@),
                    no_duplicates(old(exclusive)@) ==> no_duplicates(exclusive@),
                    elems(shared@) == elems(old(shared)@).union(shared_of_all(items@.subrange(0, i as int))),
                    elems(exclusive@) == elems(old(exclusive)@).union(exclusive_of_all(items@.subrange(0, i as int))),
                decreases items.len() - i,
            {
                let ghost s0 = elems(shared@);
                let ghost e0 = elems(exclusive@);
                assert(items@.subrange(0, i + 1).drop_last() =~= items@.subrange(0, i as int));
                proof {
                    assert(decreases_to!(*q => (*q)->Tuple_0));
                    assert(decreases_to!((*q)->Tuple_0 => (*q)->Tuple_0@));
                    assert(decreases_to!((*q)->Tuple_0@ => (*q)->Tuple_0@[i as int]));
                }
                register_into_sets(&items[i], shared, exclusive);
                assert(elems(shared@) =~= elems(old(shared)@).union(shared_of_all(items@.subrange(0, i + 1))));
                assert(elems(exclusive@) =~= elems(old(exclusive)@).union(exclusive_of_all(items@.subrange(0, i + 1))));
                i += 1;
            }
            assert(items@.subrange(0, items@.len() as int) =~= items@);
        },
    }
}

} // verus!
