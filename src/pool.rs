//! Labels of idle surfaces built ahead of time, so that a new tab need not
//! wait for one to load.

use vstd::prelude::*;

verus! {

/// The number of idle surfaces the pool is kept at.
pub const POOL_SIZE: usize = 2;

/// Idle surface labels; the most recently added is claimed first.
pub struct WebviewPool {
    available: Vec<String>,
}

impl WebviewPool {
    /// The idle labels, oldest first.
    pub closed spec fn labels(&self) -> Seq<String> {
        self.available@
    }

    pub fn new() -> (r: Self)
        ensures
            r.labels().len() == 0,
    {
        WebviewPool { available: Vec::with_capacity(POOL_SIZE) }
    }

    /// Takes the most recently added label, if any.
    pub fn claim(&mut self) -> (r: Option<String>)
        ensures
            old(self).labels().len() > 0 ==> r == Some(old(self).labels().last())
                && final(self).labels() == old(self).labels().drop_last(),
            old(self).labels().len() == 0 ==> r is None && final(self).labels() == old(
                self,
            ).labels(),
    {
        self.available.pop()
    }

    /// Registers a freshly built idle surface.
    pub fn add(&mut self, label: String)
        ensures
            final(self).labels() == old(self).labels().push(label),
    {
        self.available.push(label);
    }

    pub fn size(&self) -> (r: usize)
        ensures
            r == self.labels().len(),
    {
        self.available.len()
    }

    /// How many surfaces to build to bring the pool back to `POOL_SIZE`.
    pub fn missing(&self) -> (r: usize)
        ensures
            self.labels().len() < POOL_SIZE ==> r == POOL_SIZE - self.labels().len(),
            self.labels().len() >= POOL_SIZE ==> r == 0,
    {
        let n = self.available.len();
        if n < POOL_SIZE {
            POOL_SIZE - n
        } else {
            0
        }
    }
}

} // verus!
