//! Sets of handles and ids, kept in the order in which they were added.
use crate::model::SceneEntityId;
use vstd::prelude::*;

verus! {

/// A value that a set can tell from others.
pub trait Key: Copy {
    /// Whether two values are the same.
    fn same(&self, other: &Self) -> (yes: bool)
        ensures
            yes == (*self == *other),
    ;
}

impl Key for u64 {
    fn same(&self, other: &Self) -> (yes: bool) {
        *self == *other
    }
}

impl Key for SceneEntityId {
    fn same(&self, other: &Self) -> (yes: bool) {
        *self == *other
    }
}

/// A set of values, each kept once.
pub struct UniqueList<T: Key> {
    items: Vec<T>,
}

impl<T: Key> UniqueList<T> {
    #[verifier::type_invariant]
    spec fn each_once(self) -> bool {
        self.items@.no_duplicates()
    }

    /// The values, in the order in which they were added.
    pub closed spec fn listed(&self) -> Seq<T> {
        self.items@
    }

    /// Nothing.
    pub fn new() -> (set: UniqueList<T>)
        ensures
            set@ == Set::<T>::empty(),
            set.listed() == Seq::<T>::empty(),
    {
        let set = UniqueList { items: Vec::new() };
        proof {
            assert(set@ =~= Set::<T>::empty());
        }
        set
    }

    /// How many values there are.
    pub fn len(&self) -> (n: usize)
        ensures
            n == self@.len(),
            n == self.listed().len(),
            self.listed().no_duplicates(),
            self@ == self.listed().to_set(),
    {
        proof {
            use_type_invariant(self);
            self.items@.unique_seq_to_set();
        }
        self.items.len()
    }

    /// The `i`-th value added.
    pub fn get(&self, i: usize) -> (value: T)
        requires
            i < self.listed().len(),
        ensures
            value == self.listed()[i as int],
            self@.contains(value),
    {
        proof {
            assert(self.items@.contains(self.items@[i as int]));
        }
        self.items[i]
    }

    /// Whether the value is in the set.
    pub fn contains(&self, value: T) -> (yes: bool)
        ensures
            yes == self@.contains(value),
    {
        let mut i: usize = 0;
        while i < self.items.len()
            invariant
                i <= self.items@.len(),
                forall|j: int| 0 <= j < i ==> self.items@[j] != value,
            decreases self.items.len() - i,
        {
            if self.items[i].same(&value) {
                proof {
                    assert(self.items@.contains(self.items@[i as int]));
                }
                return true;
            }
            i += 1;
        }
        false
    }

    /// Adds a value that is not in the set.
    pub fn add_new(&mut self, value: T)
        requires
            !old(self)@.contains(value),
        ensures
            final(self)@ == old(self)@.insert(value),
            final(self).listed() == old(self).listed().push(value),
    {
        proof {
            use_type_invariant(&*self);
        }
        let mut items: Vec<T> = Vec::new();
        std::mem::swap(&mut items, &mut self.items);
        let ghost before = items@;
        items.push(value);
        proof {
            assert(items@.no_duplicates()) by {
                assert forall|i: int, j: int|
                    0 <= i < items@.len() && 0 <= j < items@.len() && i != j implies items@[i]
                    != items@[j] by {
                    if i == before.len() {
                        assert(before.contains(before[j]));
                    } else if j == before.len() {
                        assert(before.contains(before[i]));
                    }
                }
            }
            assert(items@.to_set() =~= before.to_set().insert(value)) by {
                assert forall|v: T| items@.contains(v) <==> before.contains(v) || v == value by {
                    if before.contains(v) {
                        let i = choose|i: int| 0 <= i < before.len() && before[i] == v;
                        assert(items@[i] == v);
                    }
                    if v == value {
                        assert(items@[before.len() as int] == v);
                    }
                    if items@.contains(v) {
                        let i = choose|i: int| 0 <= i < items@.len() && items@[i] == v;
                        if i < before.len() {
                            assert(before[i] == v);
                        }
                    }
                }
            }
        }
        self.items = items;
    }

    /// Adds a value; tells whether it is new.
    pub fn insert(&mut self, value: T) -> (new: bool)
        ensures
            new == !old(self)@.contains(value),
            final(self)@ == old(self)@.insert(value),
    {
        if self.contains(value) {
            proof {
                assert(self@ =~= self@.insert(value));
            }
            false
        } else {
            self.add_new(value);
            true
        }
    }

    /// Takes a value out; tells whether it was there.
    pub fn remove(&mut self, value: T) -> (was_there: bool)
        ensures
            was_there == old(self)@.contains(value),
            final(self)@ == old(self)@.remove(value),
    {
        let count: usize = self.len();
        let mut kept: UniqueList<T> = UniqueList::new();
        let mut was_there: bool = false;
        let mut i: usize = 0;
        proof {
            use_type_invariant(&*self);
            assert(self.listed().take(0).to_set() =~= Set::<T>::empty());
        }
        while i < count
            invariant
                i <= count == self.listed().len(),
                self.listed().no_duplicates(),
                *self == *old(self),
                kept@ == self.listed().take(i as int).to_set().remove(value),
                was_there == self.listed().take(i as int).contains(value),
            decreases count - i,
        {
            let v: T = self.get(i);
            proof {
                lemma_take_set(self.listed(), i as int);
                lemma_fresh(self.listed(), i as int);
            }
            if v.same(&value) {
                was_there = true;
            } else {
                kept.add_new(v);
            }
            proof {
                assert(kept@ =~= self.listed().take(i + 1).to_set().remove(value));
            }
            i += 1;
        }
        proof {
            assert(self.listed().take(i as int) =~= self.listed());
        }
        *self = kept;
        was_there
    }
}

impl<T: Key> View for UniqueList<T> {
    type V = Set<T>;

    closed spec fn view(&self) -> Set<T> {
        self.items@.to_set()
    }
}

/// One more of a list is one more in the set.
pub proof fn lemma_take_set<T>(list: Seq<T>, i: int)
    requires
        0 <= i < list.len(),
    ensures
        list.take(i + 1).to_set() == list.take(i).to_set().insert(list[i]),
        forall|v: T| list.take(i + 1).contains(v) <==> list.take(i).contains(v) || v == list[i],
{
    let a = list.take(i);
    let b = list.take(i + 1);
    assert forall|v: T| b.contains(v) <==> a.contains(v) || v == list[i] by {
        if a.contains(v) {
            let k = choose|k: int| 0 <= k < a.len() && a[k] == v;
            assert(b[k] == v);
        }
        if v == list[i] {
            assert(b[i] == v);
        }
        if b.contains(v) {
            let k = choose|k: int| 0 <= k < b.len() && b[k] == v;
            if k < i {
                assert(a[k] == v);
            }
        }
    }
    assert(b.to_set() =~= a.to_set().insert(list[i]));
}

/// Where nothing is listed twice, the next of a list is new.
pub proof fn lemma_fresh<T>(list: Seq<T>, i: int)
    requires
        0 <= i < list.len(),
        list.no_duplicates(),
    ensures
        !list.take(i).contains(list[i]),
{
    if list.take(i).contains(list[i]) {
        let k = choose|k: int| 0 <= k < i && list.take(i)[k] == list[i];
        assert(list[k] == list[i]);
    }
}

} // verus!
