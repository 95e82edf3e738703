//! A pool of reusable values.
//!
//! The pool is a stack that is filled once, when it is made. A value is
//! pulled from the top and attached again when its user is done with it.
//! Pulling from an empty pool is an error of the caller: a pool never lends
//! more values than it was made with.

use vstd::prelude::*;

verus! {

/// A stack of values to lend.
pub struct Pool<T> {
    stack: Vec<T>,
}

impl<T> View for Pool<T> {
    type V = Seq<T>;

    closed spec fn view(&self) -> Seq<T> {
        self.stack@
    }
}

impl<T> Pool<T> {
    /// A pool of `cap` values, each made by `init`.
    pub fn new<F: Fn() -> T>(cap: usize, init: F) -> (pool: Pool<T>)
        requires
            call_requires(init, ()),
        ensures
            pool@.len() == cap,
            forall|i: int| 0 <= i < cap ==> call_ensures(init, (), #[trigger] pool@[i]),
    {
        let mut stack: Vec<T> = Vec::new();
        let mut i: usize = 0;
        while i < cap
            invariant
                i <= cap,
                stack@.len() == i,
                call_requires(init, ()),
                forall|k: int| 0 <= k < i ==> call_ensures(init, (), #[trigger] stack@[k]),
            decreases cap - i,
        {
            stack.push(init());
            i += 1;
        }
        Pool { stack }
    }

    /// The number of values that the pool can lend.
    pub fn available(&self) -> (n: usize)
        ensures
            n == self@.len(),
    {
        self.stack.len()
    }

    /// Takes the value on top of the pool.
    pub fn pull(&mut self) -> (value: T)
        requires
            old(self)@.len() > 0,
        ensures
            value == old(self)@.last(),
            final(self)@ == old(self)@.drop_last(),
    {
        self.stack.pop().unwrap()
    }

    /// Puts a value on top of the pool.
    pub fn attach(&mut self, t: T)
        ensures
            final(self)@ == old(self)@.push(t),
    {
        self.stack.push(t)
    }
}

/// A value that was pulled and attached again is on top of the pool, and
/// the pool is as it was.
pub proof fn lemma_pull_attach<T>(before: Seq<T>)
    requires
        before.len() > 0,
    ensures
        before.drop_last().push(before.last()) == before,
{
    assert(before.drop_last().push(before.last()) =~= before);
}

} // verus!
