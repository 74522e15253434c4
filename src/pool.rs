//! Growth policy and round-robin cursor of the connection pool. The
//! connections themselves belong to the caller, which opens one whenever
//! the pool asks for it and reports the outcome.

use vstd::arithmetic::div_mod::{lemma_mod_self_0, lemma_small_mod};
use vstd::prelude::*;

verus! {

/// Consecutive failed connection attempts after which the pool stops growing.
pub const MAX_FAILED_CONNECTS: u32 = 5;

/// Round-robin dispatch over `size` connections held by the caller.
pub struct ConnectionPool {
    /// How many connections the pool tries to open.
    pub target: usize,
    /// How many connections are open.
    pub size: usize,
    /// Failed attempts since the last success.
    pub failures: u32,
    /// Index of the connection that gets the next command.
    pub cursor: usize,
}

impl ConnectionPool {
    pub open spec fn wf(&self) -> bool {
        &&& self.size <= self.target
        &&& self.failures <= MAX_FAILED_CONNECTS
        &&& (self.size == 0 ==> self.cursor == 0)
        &&& (self.size > 0 ==> self.cursor < self.size)
    }

    /// The pool still grows: below its target and not yet given up.
    pub open spec fn growing(&self) -> bool {
        self.size < self.target && self.failures < MAX_FAILED_CONNECTS
    }

    /// An empty pool that aims at `target` connections.
    pub fn new(target: usize) -> (r: ConnectionPool)
        ensures
            r.wf(),
            r.target == target,
            r.size == 0,
            r.failures == 0,
            r.cursor == 0,
    {
        ConnectionPool { target, size: 0, failures: 0, cursor: 0 }
    }

    /// Whether the caller should attempt another connection.
    pub fn wants_connection(&self) -> (r: bool)
        ensures
            r == self.growing(),
    {
        self.size < self.target && self.failures < MAX_FAILED_CONNECTS
    }

    /// Records the outcome of one connection attempt: a success adds a
    /// connection and clears the failure streak, a failure lengthens it.
    pub fn record_connect(&mut self, ok: bool)
        requires
            old(self).wf(),
            old(self).growing(),
        ensures
            final(self).wf(),
            final(self).target == old(self).target,
            final(self).cursor == old(self).cursor,
            ok ==> final(self).size == old(self).size + 1 && final(self).failures == 0,
            !ok ==> final(self).size == old(self).size && final(self).failures == old(self).failures
                + 1,
    {
        if ok {
            self.size = self.size + 1;
            self.failures = 0;
        } else {
            self.failures = self.failures + 1;
        }
    }

    /// Number of open connections.
    pub fn len(&self) -> (r: usize)
        ensures
            r == self.size,
    {
        self.size
    }

    pub fn is_empty(&self) -> (r: bool)
        ensures
            r == (self.size == 0),
    {
        self.size == 0
    }

    /// The connection for the next command; the cursor moves on one slot,
    /// wrapping at the pool size.
    pub fn next(&mut self) -> (r: usize)
        requires
            old(self).wf(),
            old(self).size > 0,
        ensures
            final(self).wf(),
            r == old(self).cursor,
            final(self).cursor == (old(self).cursor + 1) % (old(self).size as int),
            final(self).target == old(self).target,
            final(self).size == old(self).size,
            final(self).failures == old(self).failures,
    {
        let r = self.cursor;
        if self.cursor + 1 >= self.size {
            proof {
                lemma_mod_self_0(self.size as int);
            }
            self.cursor = 0;
        } else {
            proof {
                lemma_small_mod((self.cursor + 1) as nat, self.size as nat);
            }
            self.cursor = self.cursor + 1;
        }
        r
    }
}

} // verus!
