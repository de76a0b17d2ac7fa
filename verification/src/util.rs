//! Scoped cleanup: a guard that carries a cleanup action.
//!
//! The guard is armed on creation.  On the happy path the caller defuses
//! it and the action is never run; on any other exit the unverified shell
//! fires it (its own wrapper runs `fire` from `Drop`, which Verus does
//! not model).  Firing is verified: it runs the stored action exactly
//! once, under that action's own precondition.

use vstd::prelude::*;

verus! {

/// A cleanup action to run on abnormal exit unless defused.
pub struct OnDrop<F: FnOnce() -> ()> {
    f: Option<F>,
}

impl<F: FnOnce() -> ()> OnDrop<F> {
    /// Whether the guard still holds its action.
    pub closed spec fn armed(&self) -> bool {
        self.f is Some
    }

    /// The stored action.
    pub closed spec fn callback(&self) -> F {
        self.f->0
    }

    /// Arm a guard with the given cleanup action.
    pub fn new(f: F) -> (r: Self)
        ensures
            r.armed(),
            r.callback() == f,
    {
        OnDrop { f: Some(f) }
    }

    /// Happy path: discard the guard without running its action.
    pub fn defuse(self) {
    }

    /// Abnormal exit: run the cleanup action.
    pub fn fire(self)
        requires
            self.armed(),
            self.callback().requires(()),
    {
        match self.f {
            Some(f) => {
                f();
            },
            None => {},
        }
    }
}

/// Combine two same-length sequences elementwise: the result has the
/// same length and its element `i` is `f` applied to the elements `i`.
/// Length equality is a precondition; the caller also vouches that `f`
/// may be applied to every pair.
pub fn zip_with<T, U, V, F: Fn(T, U) -> V>(this: Vec<T>, other: Vec<U>, f: F) -> (r: Vec<V>)
    requires
        this@.len() == other@.len(),
        forall|i: int| 0 <= i < this@.len() ==> #[trigger] f.requires((this@[i], other@[i])),
    ensures
        r@.len() == this@.len(),
        forall|i: int|
            0 <= i < this@.len() ==> #[trigger] f.ensures((this@[i], other@[i]), r@[i]),
{
    let ghost orig_a = this@;
    let ghost orig_b = other@;
    let mut a = this;
    let mut b = other;
    let mut r: Vec<V> = Vec::new();
    while a.len() > 0
        invariant
            a@.len() == b@.len(),
            r@.len() + a@.len() == orig_a.len(),
            orig_a.len() == orig_b.len(),
            a@ == orig_a.subrange(r@.len() as int, orig_a.len() as int),
            b@ == orig_b.subrange(r@.len() as int, orig_b.len() as int),
            forall|i: int| 0 <= i < orig_a.len() ==> #[trigger] f.requires((orig_a[i], orig_b[i])),
            forall|j: int|
                0 <= j < r@.len() ==> #[trigger] f.ensures((orig_a[j], orig_b[j]), r@[j]),
        decreases a@.len(),
    {
        let ghost k = r@.len() as int;
        let x = a.remove(0);
        let y = b.remove(0);
        proof {
            assert(x == orig_a[k] && y == orig_b[k]);
            assert(a@ =~= orig_a.subrange(k + 1, orig_a.len() as int));
            assert(b@ =~= orig_b.subrange(k + 1, orig_b.len() as int));
        }
        let v = f(x, y);
        r.push(v);
    }
    r
}

/// Split a sequence of pairs into the sequence of first components and
/// the sequence of second components, both in order.
pub fn unzip<T, U>(pairs: Vec<(T, U)>) -> (r: (Vec<T>, Vec<U>))
    ensures
        r.0@.len() == pairs@.len(),
        r.1@.len() == pairs@.len(),
        forall|i: int|
            0 <= i < pairs@.len() ==> r.0@[i] == (#[trigger] pairs@[i]).0 && r.1@[i]
                == pairs@[i].1,
{
    let ghost orig = pairs@;
    let mut rest = pairs;
    let mut first: Vec<T> = Vec::new();
    let mut second: Vec<U> = Vec::new();
    while rest.len() > 0
        invariant
            first@.len() == second@.len(),
            first@.len() + rest@.len() == orig.len(),
            rest@ == orig.subrange(first@.len() as int, orig.len() as int),
            forall|j: int|
                0 <= j < first@.len() ==> first@[j] == (#[trigger] orig[j]).0 && second@[j]
                    == orig[j].1,
        decreases rest@.len(),
    {
        let ghost k = first@.len() as int;
        let (t, u) = rest.remove(0);
        proof {
            assert((t, u) == orig[k]);
            assert(rest@ =~= orig.subrange(k + 1, orig.len() as int));
        }
        first.push(t);
        second.push(u);
    }
    (first, second)
}

} // verus!
