//! An observable single-value container.
//!
//! Observers are identified by number. A tracked read registers the reader as
//! an observer of the cell; every write returns the observers to notify, each
//! exactly once, so the caller can re-run just the work tied to this cell.
use crate::datum::{Datum, DatumView};
use vstd::prelude::*;

verus! {

/// An observable cell holding one [`Datum`].
pub struct Cell {
    value: Datum,
    observers: Vec<u64>,
}

/// The mathematical content of a [`Cell`]: its value and its observers.
pub struct CellView {
    pub value: DatumView,
    pub observers: Set<u64>,
}

impl View for Cell {
    type V = CellView;

    closed spec fn view(&self) -> CellView {
        CellView { value: self.value@, observers: self.observers@.to_set() }
    }
}

/// A copy of `v`, element for element.
fn copy_ids(v: &Vec<u64>) -> (r: Vec<u64>)
    ensures
        r@ == v@,
{
    let mut r: Vec<u64> = Vec::new();
    let mut i: usize = 0;
    while i < v.len()
        invariant
            i <= v.len(),
            r@ == v@.subrange(0, i as int),
        decreases v.len() - i,
    {
        r.push(v[i]);
        i = i + 1;
        assert(r@ == v@.subrange(0, i as int));
    }
    assert(v@.subrange(0, v.len() as int) == v@);
    r
}

impl Cell {
    /// Each observer is registered once.
    pub closed spec fn wf(&self) -> bool {
        self.observers@.no_duplicates()
    }

    /// The value held, as an executable value.
    pub closed spec fn current(&self) -> Datum {
        self.value
    }

    /// The value that [`Cell::get`] reports is the value held.
    pub proof fn lemma_value_is_current(&self)
        ensures
            self@.value == self.current()@,
    {
    }

    /// A cell holding `value`, with no observers.
    pub fn new(value: Datum) -> (r: Cell)
        ensures
            r@.value == value@,
            r@.observers == Set::<u64>::empty(),
            r.current() == value,
            r.wf(),
    {
        let r = Cell { value, observers: Vec::new() };
        assert(r.observers@.to_set() =~= Set::<u64>::empty());
        r
    }

    /// The value held; registers no observer.
    pub fn get(&self) -> (r: Datum)
        ensures
            r@ == self@.value,
            r@ == self.current()@,
    {
        self.value.duplicate()
    }

    /// The value held; registers `observer` as depending on this cell.
    pub fn get_tracked(&mut self, observer: u64) -> (r: Datum)
        requires
            old(self).wf(),
        ensures
            final(self).wf(),
            r@ == old(self)@.value,
            final(self)@.value == old(self)@.value,
            final(self).current() == old(self).current(),
            final(self)@.observers == old(self)@.observers.insert(observer),
    {
        let mut i: usize = 0;
        let mut found = false;
        while i < self.observers.len()
            invariant
                *self == *old(self),
                i <= self.observers.len(),
                found <==> exists|k: int| 0 <= k < i && self.observers@[k] == observer,
            decreases self.observers.len() - i,
        {
            if self.observers[i] == observer {
                found = true;
            }
            i = i + 1;
        }
        if !found {
            assert(!self.observers@.contains(observer));
            self.observers.push(observer);
            assert(self.observers@.to_set() =~= old(self).observers@.to_set().insert(observer)) by {
                assert forall|x: u64| #![auto] self.observers@.contains(x) <==> (old(
                    self,
                ).observers@.contains(x) || x == observer) by {
                    if old(self).observers@.contains(x) {
                        let k = choose|k: int|
                            0 <= k < old(self).observers@.len() && old(self).observers@[k] == x;
                        assert(self.observers@[k] == x);
                    }
                    if x == observer {
                        assert(self.observers@[self.observers@.len() - 1] == x);
                    }
                }
            }
        } else {
            assert(self.observers@.contains(observer));
            assert(self.observers@.to_set() =~= old(self).observers@.to_set().insert(observer));
        }
        self.value.duplicate()
    }

    /// The observers to notify after a write: every registered one, once each.
    fn notified(&self) -> (r: Vec<u64>)
        requires
            self.wf(),
        ensures
            r@.to_set() == self@.observers,
            r@.no_duplicates(),
    {
        copy_ids(&self.observers)
    }

    /// Replaces the value and returns the observers to notify: exactly the
    /// registered ones, each once.
    pub fn set(&mut self, value: Datum) -> (notified: Vec<u64>)
        requires
            old(self).wf(),
        ensures
            final(self).wf(),
            final(self)@.value == value@,
            final(self).current() == value,
            final(self)@.observers == old(self)@.observers,
            notified@.to_set() == old(self)@.observers,
            notified@.no_duplicates(),
    {
        self.value = value;
        self.notified()
    }

    /// Replaces the value by `transform` applied to it, and returns the
    /// observers to notify, as [`Cell::set`] does.
    pub fn update<F: FnOnce(Datum) -> Datum>(&mut self, transform: F) -> (notified: Vec<u64>)
        requires
            old(self).wf(),
            transform.requires((old(self).current(),)),
        ensures
            final(self).wf(),
            transform.ensures((old(self).current(),), final(self).current()),
            old(self)@.value == old(self).current()@,
            final(self)@.value == final(self).current()@,
            final(self)@.observers == old(self)@.observers,
            notified@.to_set() == old(self)@.observers,
            notified@.no_duplicates(),
    {
        let mut cur = Datum::Number(None);
        std::mem::swap(&mut cur, &mut self.value);
        let next = transform(cur);
        self.value = next;
        self.notified()
    }
}

} // verus!
