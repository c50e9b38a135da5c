//! Marker-branded storage cells with a single owner per marker.
//!
//! An [`LCellOwner`] is the one capability object through which the contents
//! of its cells can be reached.  Each owner carries a ghost *marker*; every
//! [`LCell`] records the marker of the owner that created it, and every
//! access operation demands, as a verified precondition, that the cell's
//! marker equal the owner's.  A cell handle by itself grants no access at
//! all, so handles may be copied and shared freely — including into cyclic
//! structures — while all reads and writes are arbitrated by borrowing the
//! owner: shared borrows for reads, an exclusive borrow for writes.
//!
//! The marker is erased at run time.  Mixing cells of one owner with another
//! owner, or handing out two exclusive references to one cell, is rejected
//! when the calling code is verified, not by a run-time check.

use core::marker::PhantomData;
use vstd::prelude::*;

verus! {

/// The unique arbiter of access for every cell carrying its marker.
///
/// The owner holds the storage of all of its cells.  It is obtained only
/// through [`LCellOwner::scope`], which hands the single owner instance to a
/// closure by value, so no two owners are ever known to share a marker.
pub struct LCellOwner<T> {
    vals: Vec<T>,
    marker: Ghost<int>,
}

/// A storage box for a value of type `T`, tagged with the marker of the
/// owner that created it.
///
/// A cell offers no access operations of its own: reading or writing its
/// contents always goes through the matching [`LCellOwner`].  Handles are
/// `Copy` regardless of `T`, so they can be duplicated, stored in several
/// places at once, and used to build cycles.
pub struct LCell<T> {
    idx: usize,
    marker: Ghost<int>,
    ty: PhantomData<T>,
}

impl<T> Clone for LCell<T> {
    /// A cloned handle is the same handle: it carries the same marker and
    /// denotes the same storage, whatever `T` is.  Duplicating a handle
    /// grants no access by itself.
    fn clone(&self) -> (r: Self)
        ensures
            r == *self,
    {
        LCell { idx: self.idx, marker: self.marker, ty: PhantomData }
    }
}

impl<T> Copy for LCell<T> {}

impl<T> View for LCellOwner<T> {
    type V = Seq<T>;

    /// The contents of all cells created under this owner, in creation order.
    closed spec fn view(&self) -> Seq<T> {
        self.vals@
    }
}

impl<T> LCell<T> {
    /// The marker of the owner this cell was created under.  It never
    /// changes after construction.
    pub closed spec fn marker(&self) -> int {
        self.marker@
    }

    /// The position of this cell's storage within its owner.  Two cell
    /// handles denote the same storage exactly when their markers and
    /// indices agree.
    pub closed spec fn index(&self) -> int {
        self.idx as int
    }

    /// Create a new cell under `owner`, holding `value`.
    ///
    /// Equivalent to [`LCellOwner::cell`]; the new cell carries the owner's
    /// marker and is distinct from every cell previously created under it.
    pub fn new(value: T, owner: &mut LCellOwner<T>) -> (lc: LCell<T>)
        ensures
            lc.marker() == old(owner).marker(),
            lc.index() == old(owner)@.len(),
            final(owner).marker() == old(owner).marker(),
            final(owner)@ == old(owner)@.push(value),
            final(owner).owns(&lc),
    {
        let idx = owner.vals.len();
        owner.vals.push(value);
        LCell { idx, marker: Ghost(owner.marker@), ty: PhantomData }
    }
}

impl<T> LCellOwner<T> {
    /// This owner's marker.  It never changes over the owner's lifetime.
    pub closed spec fn marker(&self) -> int {
        self.marker@
    }

    /// Whether `lc` is a cell of this owner: it carries this owner's marker
    /// and denotes one of the storage slots the owner holds.  Every access
    /// operation requires this of the presented cell, so a cell created
    /// under a different owner — whose marker is never known to coincide
    /// with this one's — cannot be read or written through `self`.
    pub open spec fn owns(&self, lc: &LCell<T>) -> bool {
        lc.marker() == self.marker() && 0 <= lc.index() < self@.len()
    }

    /// Open a scope: manufacture a fresh owner, with no cells yet, and hand
    /// it to `f` by value.  Returns whatever `f` returns.
    ///
    /// This is the only way to obtain an owner.  Nothing is ever promised
    /// about the new owner's marker, so verified callers can never show the
    /// markers of two separately opened scopes equal, and therefore can
    /// never present a cell of one scope to the owner of another.
    pub fn scope<R, F: FnOnce(LCellOwner<T>) -> R>(f: F) -> (r: R)
        requires
            forall|o: LCellOwner<T>| o@.len() == 0 ==> call_requires(f, (o,)),
        ensures
            exists|o: LCellOwner<T>| o@.len() == 0 && call_ensures(f, (o,), r),
    {
        let owner = LCellOwner { vals: Vec::new(), marker: Ghost(arbitrary()) };
        proof {
            assert(owner@.len() == 0);
        }
        f(owner)
    }

    /// Create a new cell under this owner, holding `value`.
    ///
    /// Always succeeds.  The new cell carries this owner's marker and sits
    /// at the next free index, so it is owned by the updated owner and is
    /// distinct from every cell created earlier.
    pub fn cell(&mut self, value: T) -> (lc: LCell<T>)
        ensures
            lc.marker() == old(self).marker(),
            lc.index() == old(self)@.len(),
            final(self).marker() == old(self).marker(),
            final(self)@ == old(self)@.push(value),
            final(self).owns(&lc),
    {
        LCell::new(value, self)
    }

    /// Read access: borrow the contents of `lc` for as long as the shared
    /// borrow of the owner lives.  Any number of such reads may coexist.
    pub fn get(&self, lc: &LCell<T>) -> (r: &T)
        requires
            self.owns(lc),
        ensures
            *r == self@[lc.index()],
    {
        &self.vals[lc.idx]
    }

    /// Write access: borrow the contents of `lc` mutably.  The exclusive
    /// borrow of the owner guarantees no other read or write reference
    /// derived from this owner is alive at the same time.  Afterwards the
    /// cell holds whatever was left in the returned reference; every other
    /// cell is unchanged.
    pub fn get_mut(&mut self, lc: &LCell<T>) -> (r: &mut T)
        requires
            old(self).owns(lc),
        ensures
            *r == old(self)@[lc.index()],
            final(self)@ == old(self)@.update(lc.index(), *final(r)),
            final(self).marker() == old(self).marker(),
    {
        &mut self.vals[lc.idx]
    }

    /// Write access to two cells at once: borrow the contents of `lc1` and
    /// `lc2` mutably from one exclusive borrow of the owner.  The two cells
    /// must denote distinct storage; because cell identity is visible to the
    /// verifier, the distinctness check costs nothing at run time.  The two
    /// references are independent: each cell ends up holding exactly what
    /// was left in its own reference, and every other cell is unchanged.
    pub fn get_mut_2(&mut self, lc1: &LCell<T>, lc2: &LCell<T>) -> (r: (&mut T, &mut T))
        requires
            old(self).owns(lc1),
            old(self).owns(lc2),
            lc1.index() != lc2.index(),
        ensures
            *r.0 == old(self)@[lc1.index()],
            *r.1 == old(self)@[lc2.index()],
            final(self)@.len() == old(self)@.len(),
            final(self)@[lc1.index()] == *final(r.0),
            final(self)@[lc2.index()] == *final(r.1),
            forall|m: int|
                0 <= m < old(self)@.len() && m != lc1.index() && m != lc2.index()
                    ==> final(self)@[m] == old(self)@[m],
            final(self).marker() == old(self).marker(),
    {
        if lc1.idx < lc2.idx {
            pair_muts(&mut self.vals, lc1.idx, lc2.idx)
        } else {
            let (b, a) = pair_muts(&mut self.vals, lc2.idx, lc1.idx);
            (a, b)
        }
    }

    /// Write access to three cells at once, in the manner of
    /// [`get_mut_2`](Self::get_mut_2): the three cells must be pairwise
    /// distinct storage, and each ends up holding exactly what was left in
    /// its own reference, with every other cell unchanged.
    pub fn get_mut_3(&mut self, lc1: &LCell<T>, lc2: &LCell<T>, lc3: &LCell<T>) -> (r: (
        &mut T,
        &mut T,
        &mut T,
    ))
        requires
            old(self).owns(lc1),
            old(self).owns(lc2),
            old(self).owns(lc3),
            lc1.index() != lc2.index(),
            lc2.index() != lc3.index(),
            lc3.index() != lc1.index(),
        ensures
            *r.0 == old(self)@[lc1.index()],
            *r.1 == old(self)@[lc2.index()],
            *r.2 == old(self)@[lc3.index()],
            final(self)@.len() == old(self)@.len(),
            final(self)@[lc1.index()] == *final(r.0),
            final(self)@[lc2.index()] == *final(r.1),
            final(self)@[lc3.index()] == *final(r.2),
            forall|m: int|
                0 <= m < old(self)@.len() && m != lc1.index() && m != lc2.index() && m
                    != lc3.index() ==> final(self)@[m] == old(self)@[m],
            final(self).marker() == old(self).marker(),
    {
        if lc1.idx < lc2.idx && lc2.idx < lc3.idx {
            triple_muts(&mut self.vals, lc1.idx, lc2.idx, lc3.idx)
        } else if lc1.idx < lc3.idx && lc3.idx < lc2.idx {
            let (a, c, b) = triple_muts(&mut self.vals, lc1.idx, lc3.idx, lc2.idx);
            (a, b, c)
        } else if lc2.idx < lc1.idx && lc1.idx < lc3.idx {
            let (b, a, c) = triple_muts(&mut self.vals, lc2.idx, lc1.idx, lc3.idx);
            (a, b, c)
        } else if lc2.idx < lc3.idx && lc3.idx < lc1.idx {
            let (b, c, a) = triple_muts(&mut self.vals, lc2.idx, lc3.idx, lc1.idx);
            (a, b, c)
        } else if lc3.idx < lc1.idx && lc1.idx < lc2.idx {
            let (c, a, b) = triple_muts(&mut self.vals, lc3.idx, lc1.idx, lc2.idx);
            (a, b, c)
        } else {
            let (c, b, a) = triple_muts(&mut self.vals, lc3.idx, lc2.idx, lc1.idx);
            (a, b, c)
        }
    }
}

/// A cell of one owner is never a cell of another: whenever two owners have
/// distinct markers, no cell is owned by both, because a cell carries exactly
/// one marker.  Two separately opened scopes are never known to share a
/// marker ([`LCellOwner::scope`] promises nothing about the marker it picks),
/// so for verified callers this puts every cell of one scope out of reach of
/// every other scope's owner.
pub proof fn law_cell_never_shared<T>(a: &LCellOwner<T>, b: &LCellOwner<T>, lc: &LCell<T>)
    requires
        a.marker() != b.marker(),
    ensures
        !(a.owns(lc) && b.owns(lc)),
{
}

/// A write is immediately visible to subsequent reads through the same
/// owner.  Writing `v` to an owned cell takes the owner's contents from
/// `prev` to `prev.update(lc.index(), v)` (the postcondition of
/// [`LCellOwner::get_mut`]); a later read of that cell yields the owner's
/// contents at `lc.index()` (the postcondition of [`LCellOwner::get`]),
/// which is exactly `v` — and every other cell still reads as it did in
/// `prev`.
pub proof fn law_write_then_read<T>(o: &LCellOwner<T>, prev: Seq<T>, lc: &LCell<T>, v: T)
    requires
        0 <= lc.index() < prev.len(),
        o@ == prev.update(lc.index(), v),
    ensures
        o@[lc.index()] == v,
        forall|m: int| 0 <= m < prev.len() && m != lc.index() ==> o@[m] == prev[m],
{
}

/// Borrow the elements at positions `i` and `j` of `v`, `i` before `j`,
/// mutably and at the same time, by splitting the underlying slice.
fn pair_muts<T>(v: &mut Vec<T>, i: usize, j: usize) -> (r: (&mut T, &mut T))
    requires
        i < j < old(v)@.len(),
    ensures
        *r.0 == old(v)@[i as int],
        *r.1 == old(v)@[j as int],
        final(v)@.len() == old(v)@.len(),
        final(v)@[i as int] == *final(r.0),
        final(v)@[j as int] == *final(r.1),
        forall|m: int|
            0 <= m < old(v)@.len() && m != i && m != j ==> final(v)@[m] == old(v)@[m],
{
    let s = v.as_mut_slice();
    let (left, right) = s.split_at_mut(j);
    let rj = right.first_mut().unwrap();
    let (ll, _rest) = left.split_at_mut(i + 1);
    let ri = ll.last_mut().unwrap();
    (ri, rj)
}

/// Borrow the elements at positions `i`, `j` and `k` of `v`, in ascending
/// order of position, mutably and at the same time.
fn triple_muts<T>(v: &mut Vec<T>, i: usize, j: usize, k: usize) -> (r: (&mut T, &mut T, &mut T))
    requires
        i < j < k < old(v)@.len(),
    ensures
        *r.0 == old(v)@[i as int],
        *r.1 == old(v)@[j as int],
        *r.2 == old(v)@[k as int],
        final(v)@.len() == old(v)@.len(),
        final(v)@[i as int] == *final(r.0),
        final(v)@[j as int] == *final(r.1),
        final(v)@[k as int] == *final(r.2),
        forall|m: int|
            0 <= m < old(v)@.len() && m != i && m != j && m != k ==> final(v)@[m] == old(v)@[m],
{
    let s = v.as_mut_slice();
    let (left, right) = s.split_at_mut(k);
    let rk = right.first_mut().unwrap();
    let (l2, r2) = left.split_at_mut(j);
    let rj = r2.first_mut().unwrap();
    let (_rest, r3) = l2.split_at_mut(i);
    let ri = r3.first_mut().unwrap();
    (ri, rj, rk)
}

} // verus!
