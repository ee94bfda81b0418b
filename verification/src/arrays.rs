//! The arrays of a running program. Arrays are shared: every value that refers
//! to an array names it by its index in this store, so a write through one
//! reference is seen through all of them.
use vstd::prelude::*;

verus! {

/// The store of all arrays made so far.
pub struct Arrays<V> {
    arrays: Vec<Vec<V>>,
}

impl<V> View for Arrays<V> {
    type V = Seq<Seq<V>>;

    closed spec fn view(&self) -> Seq<Seq<V>> {
        self.arrays@.map_values(|a: Vec<V>| a@)
    }
}

impl<V> Arrays<V> {
    /// A store with no arrays.
    pub fn new() -> (r: Arrays<V>)
        ensures
            r@ == Seq::<Seq<V>>::empty(),
    {
        let r = Arrays { arrays: Vec::new() };
        assert(r@ =~= Seq::<Seq<V>>::empty());
        r
    }

    /// The number of arrays made so far.
    pub fn count(&self) -> (n: usize)
        ensures
            n == self@.len(),
    {
        self.arrays.len()
    }

    /// Adds an array holding `elements`; gives the index that names it.
    pub fn add_array(&mut self, elements: Vec<V>) -> (a: usize)
        ensures
            a == old(self)@.len(),
            final(self)@ == old(self)@.push(elements@),
    {
        let a = self.arrays.len();
        self.arrays.push(elements);
        assert(self@ =~= old(self)@.push(self.arrays@[a as int]@));
        a
    }

    /// The number of elements of array `a`.
    pub fn len(&self, a: usize) -> (n: usize)
        requires
            a < self@.len(),
        ensures
            n == self@[a as int].len(),
    {
        self.arrays[a].len()
    }

    /// The element at position `i` of array `a`.
    pub fn get(&self, a: usize, i: usize) -> (v: &V)
        requires
            a < self@.len(),
            i < self@[a as int].len(),
        ensures
            *v == self@[a as int][i as int],
    {
        &self.arrays[a][i]
    }

    /// Replaces the element at position `i` of array `a` with `v`.
    pub fn set(&mut self, a: usize, i: usize, v: V)
        requires
            a < old(self)@.len(),
            i < old(self)@[a as int].len(),
        ensures
            final(self)@ == old(self)@.update(a as int, old(self)@[a as int].update(i as int, v)),
    {
        let mut elements: Vec<V> = Vec::new();
        std::mem::swap(&mut elements, &mut self.arrays[a]);
        elements.set(i, v);
        std::mem::swap(&mut elements, &mut self.arrays[a]);
        assert(self@ =~= old(self)@.update(a as int, old(self)@[a as int].update(i as int, v)));
    }

    /// Appends `v` at the end of array `a`.
    pub fn push(&mut self, a: usize, v: V)
        requires
            a < old(self)@.len(),
        ensures
            final(self)@ == old(self)@.update(a as int, old(self)@[a as int].push(v)),
    {
        let mut elements: Vec<V> = Vec::new();
        std::mem::swap(&mut elements, &mut self.arrays[a]);
        elements.push(v);
        std::mem::swap(&mut elements, &mut self.arrays[a]);
        assert(self@ =~= old(self)@.update(a as int, old(self)@[a as int].push(v)));
    }
}

/// After element `i` of array `a` is set to `v`, reading it gives `v`; every
/// other element of every array reads as before, and every array keeps its length.
pub proof fn law_read_after_write<V>(m: Seq<Seq<V>>, a: int, i: int, v: V, b: int, j: int)
    requires
        0 <= a < m.len(),
        0 <= i < m[a].len(),
    ensures
        m.update(a, m[a].update(i, v))[a][i] == v,
        (0 <= b < m.len() && 0 <= j < m[b].len() && (b != a || j != i)) ==> m.update(
            a,
            m[a].update(i, v),
        )[b][j] == m[b][j],
        0 <= b < m.len() ==> m.update(a, m[a].update(i, v))[b].len() == m[b].len(),
{
}

/// After `v` is pushed onto array `a`, the array is one longer, ends with `v`, and
/// holds its earlier elements before it; every other array is unchanged.
pub proof fn law_push_appends<V>(m: Seq<Seq<V>>, a: int, v: V, b: int)
    requires
        0 <= a < m.len(),
    ensures
        m.update(a, m[a].push(v))[a].len() == m[a].len() + 1,
        m.update(a, m[a].push(v))[a].last() == v,
        m.update(a, m[a].push(v))[a].take(m[a].len() as int) == m[a],
        (0 <= b < m.len() && b != a) ==> m.update(a, m[a].push(v))[b] == m[b],
{
    assert(m.update(a, m[a].push(v))[a].take(m[a].len() as int) =~= m[a]);
}

} // verus!
