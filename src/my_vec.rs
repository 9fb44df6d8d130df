//! [`MyVec`], a growable array of `T` with an explicit capacity.
use vstd::prelude::*;
use vstd::layout::size_of;
use crate::growth::{
    grown_capacity, is_growth_step, lemma_double_is_step, lemma_first_capacity_is_step,
    FIRST_CAPACITY,
};

verus! {

/// A growable contiguous array.
///
/// `items` holds the live elements, slots `[0, len)`; `cap` is the number of
/// slots that storage has been set aside for. Slots past the live prefix are
/// never read.
pub struct MyVec<T> {
    items: Vec<T>,
    cap: usize,
}

/// What reading slot `i` of an array whose live elements are `s` gives:
/// the element there, or nothing when `i` is outside the live prefix.
pub open spec fn lookup<T>(s: Seq<T>, i: int) -> Option<T> {
    if 0 <= i < s.len() {
        Some(s[i])
    } else {
        None
    }
}

/// The live elements after appending `vals`, in order, onto an array whose
/// live elements are `s`.
pub open spec fn pushed_onto<T>(s: Seq<T>, vals: Seq<T>) -> Seq<T>
    decreases vals.len(),
{
    if vals.len() == 0 {
        s
    } else {
        pushed_onto(s, vals.drop_last()).push(vals.last())
    }
}

/// Appending `vals` one by one places them after the elements already there.
pub proof fn lemma_pushed_onto_is_concat<T>(s: Seq<T>, vals: Seq<T>)
    ensures
        pushed_onto(s, vals) == s + vals,
    decreases vals.len(),
{
    if vals.len() > 0 {
        lemma_pushed_onto_is_concat(s, vals.drop_last());
        assert(s + vals.drop_last().push(vals.last()) =~= s + vals);
        assert((s + vals.drop_last()).push(vals.last()) =~= s + vals);
    } else {
        assert(s + vals =~= s);
    }
}

/// Value integrity: after appending `vals` in order onto a fresh array,
/// reading slot `i` gives `vals[i]` for every `i` below the count, and
/// nothing at or past it.
pub proof fn lemma_value_integrity<T>(vals: Seq<T>)
    ensures
        forall|i: int| 0 <= i < vals.len() ==> lookup(pushed_onto(Seq::empty(), vals), i) == Some(
            vals[i],
        ),
        forall|i: int| i >= vals.len() ==> lookup(pushed_onto(Seq::empty(), vals), i) == None::<T>,
{
    lemma_pushed_onto_is_concat(Seq::empty(), vals);
    assert(Seq::<T>::empty() + vals =~= vals);
}

/// No data loss on growth: when an append finds the array full, the capacity
/// grows, and every element already there reads the same at its index.
pub proof fn lemma_growth_keeps_values<T>(s: Seq<T>, cap: nat, v: T)
    requires
        s.len() == cap,
    ensures
        grown_capacity(cap, s.len()) > cap,
        forall|i: int| 0 <= i < s.len() ==> lookup(s.push(v), i) == lookup(s, i),
{
}

impl<T> View for MyVec<T> {
    type V = Seq<T>;

    /// The live elements, in order.
    closed spec fn view(&self) -> Seq<T> {
        self.items@
    }
}

impl<T> MyVec<T> {
    /// Elements take room, the live elements fit in the slots set aside, the
    /// capacity is zero or a step of the growth policy, and its byte size fits
    /// the address space.
    #[verifier::type_invariant]
    spec fn well_formed(&self) -> bool {
        &&& size_of::<T>() > 0
        &&& self.items@.len() <= self.cap
        &&& (self.cap == 0 || is_growth_step(self.cap as nat))
        &&& self.cap * size_of::<T>() <= isize::MAX
    }

    /// The number of slots set aside.
    pub closed spec fn spec_capacity(&self) -> nat {
        self.cap as nat
    }

    /// An empty array with no storage set aside. A zero-sized `T` is outside
    /// the contract.
    pub fn new() -> (r: Self)
        requires
            size_of::<T>() > 0,
        ensures
            r@ == Seq::<T>::empty(),
            r.spec_capacity() == 0,
    {
        MyVec { items: Vec::new(), cap: 0 }
    }

    /// The number of live elements.
    pub fn len(&self) -> (r: usize)
        ensures
            r == self@.len(),
    {
        self.items.len()
    }

    /// The number of slots set aside: zero or a step of the growth policy,
    /// and never less than the number of live elements.
    pub fn capacity(&self) -> (r: usize)
        ensures
            r == self.spec_capacity(),
            r == 0 || is_growth_step(r as nat),
            self@.len() <= r,
    {
        proof {
            use_type_invariant(self);
        }
        self.cap
    }

    /// The element at `index`, or `None` when `index` is at or past the end.
    pub fn get(&self, index: usize) -> (r: Option<&T>)
        ensures
            lookup(self@, index as int) == (match r {
                Some(x) => Some(*x),
                None => None,
            }),
    {
        if index >= self.items.len() {
            return None;
        }
        Some(&self.items[index])
    }

    /// Appends `value` after the live elements.
    ///
    /// With no storage yet, room for four elements is set aside; with every
    /// slot taken, the storage grows to twice its capacity, keeping the
    /// elements in place. A zero-sized `T`, or a capacity whose byte size
    /// would not fit the address space, is outside the contract.
    pub fn push(&mut self, value: T)
        requires
            size_of::<T>() > 0,
            grown_capacity(old(self).spec_capacity(), old(self)@.len()) * size_of::<T>()
                <= isize::MAX,
        ensures
            final(self)@ == old(self)@.push(value),
            final(self).spec_capacity() == grown_capacity(
                old(self).spec_capacity(),
                old(self)@.len(),
            ),
    {
        let mut current = MyVec::new();
        std::mem::swap(self, &mut current);
        proof {
            use_type_invariant(&current);
        }
        let MyVec { mut items, cap } = current;
        if cap == 0 {
            proof {
                lemma_first_capacity_is_step();
            }
            items = Vec::with_capacity(FIRST_CAPACITY);
            items.push(value);
            *self = MyVec { items, cap: FIRST_CAPACITY };
        } else if items.len() < cap {
            items.push(value);
            *self = MyVec { items, cap };
        } else {
            proof {
                lemma_double_is_step(cap as nat);
                assert(cap * 2 <= cap * 2 * size_of::<T>()) by (nonlinear_arith)
                    requires
                        size_of::<T>() > 0,
                ;
            }
            let new_capacity: usize = cap * 2;
            items.reserve(cap);
            items.push(value);
            *self = MyVec { items, cap: new_capacity };
        }
    }
}

} // verus!
