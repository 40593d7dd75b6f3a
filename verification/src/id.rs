//! Request-id allocator: the pool of multiplexing identifiers `1..=65535`.
//! Each identifier is free or in use, never both; an identifier is handed
//! to at most one outstanding logical request at a time.
//!
//! The pool itself never waits: when it is empty, `alloc` reports the
//! exhaustion at once. A caller that wants to wait for a release holds the
//! pool behind its own lock and retries until its deadline — the deadline
//! length is carried here as plain data for that caller to read.

use vstd::prelude::*;

use vstd::set_lib::{set_int_range, lemma_int_range, lemma_len_subset};

use crate::ClientError;

verus! {

/// Largest assignable identifier; zero is reserved and never handed out.
pub const MAX_REQUEST_ID: u16 = 65535;

/// The pool of multiplexing identifiers.
pub struct RequestIdGenerator {
    free: Vec<u16>,
    timeout_ms: u64,
}

impl RequestIdGenerator {
    /// The free list holds distinct identifiers, all in `1..=65535`.
    pub closed spec fn wf(self) -> bool {
        &&& forall|i: int, j: int|
            0 <= i < j < self.free@.len() ==> self.free@[i] != self.free@[j]
        &&& forall|i: int| 0 <= i < self.free@.len() ==> 1 <= #[trigger] self.free@[i] <= 65535
    }

    /// The identifiers currently held by outstanding requests: every
    /// assignable identifier that is not on the free list.
    pub closed spec fn in_use(self) -> Set<int> {
        Set::new(|id: int| 1 <= id <= 65535 && !self.free@.contains(id as u16))
    }

    /// How many identifiers are free.
    pub closed spec fn spec_free_count(self) -> int {
        self.free@.len() as int
    }

    /// The allocation deadline, in milliseconds, that a waiting caller
    /// should apply.
    pub closed spec fn spec_timeout_ms(self) -> u64 {
        self.timeout_ms
    }

    /// A fresh pool: every identifier in `1..=65535` is free.
    pub fn new(timeout_ms: u64) -> (r: RequestIdGenerator)
        ensures
            r.wf(),
            r.in_use() == Set::<int>::empty(),
            r.spec_free_count() == 65535,
            r.spec_timeout_ms() == timeout_ms,
    {
        let mut free: Vec<u16> = Vec::new();
        let mut id: u32 = 1;
        while id <= 65535
            invariant
                1 <= id <= 65536,
                free@.len() == id - 1,
                forall|i: int| 0 <= i < free@.len() ==> #[trigger] free@[i] == i + 1,
            decreases 65536 - id,
        {
            free.push(id as u16);
            id = id + 1;
        }
        let r = RequestIdGenerator { free, timeout_ms };
        proof {
            assert forall|id: u16| 1 <= id <= 65535 implies #[trigger] r.free@.contains(id) by {
                assert(r.free@[id as int - 1] == id);
            }
            assert(r.in_use() =~= Set::<int>::empty());
        }
        r
    }

    /// Takes a free identifier out of the pool. Succeeds exactly when the
    /// pool is not exhausted; the identifier returned was not in use and
    /// is in use afterwards, so no two outstanding requests share one.
    /// When the pool is exhausted the caller gets the timeout error and
    /// holds nothing, and the pool is unchanged.
    pub fn allocate(&mut self) -> (r: Result<u16, ClientError>)
        requires
            old(self).wf(),
        ensures
            final(self).wf(),
            final(self).spec_timeout_ms() == old(self).spec_timeout_ms(),
            r is Ok <==> old(self).spec_free_count() > 0,
            match r {
                Ok(id) => {
                    &&& 1 <= id <= 65535
                    &&& !old(self).in_use().contains(id as int)
                    &&& final(self).in_use() == old(self).in_use().insert(id as int)
                    &&& final(self).spec_free_count() == old(self).spec_free_count() - 1
                },
                Err(e) => {
                    &&& e == ClientError::IdAllocationTimeout
                    &&& final(self).in_use() == old(self).in_use()
                    &&& final(self).spec_free_count() == old(self).spec_free_count()
                },
            },
    {
        match self.free.pop() {
            None => Err(ClientError::IdAllocationTimeout),
            Some(id) => {
                proof {
                    let pre = old(self).free@;
                    assert(pre.contains(id)) by {
                        assert(pre[pre.len() - 1] == id);
                    }
                    assert forall|x: int| #[trigger] self.in_use().contains(x)
                        || old(self).in_use().insert(id as int).contains(x)
                        implies self.in_use().contains(x)
                            == old(self).in_use().insert(id as int).contains(x) by {
                        if 1 <= x <= 65535 {
                            if x == id as int {
                                assert(!self.free@.contains(x as u16)) by {
                                    assert forall|i: int| 0 <= i < self.free@.len()
                                        implies self.free@[i] != id by {
                                        assert(pre[i] == self.free@[i]);
                                        assert(pre[pre.len() - 1] == id);
                                    }
                                }
                            } else {
                                assert(self.free@.contains(x as u16)
                                    <==> pre.contains(x as u16)) by {
                                    if pre.contains(x as u16) {
                                        let i = choose|i: int|
                                            0 <= i < pre.len() && pre[i] == x as u16;
                                        assert(i < pre.len() - 1);
                                        assert(self.free@[i] == x as u16);
                                    } else {
                                        if self.free@.contains(x as u16) {
                                            let i = choose|i: int| 0 <= i < self.free@.len()
                                                && self.free@[i] == x as u16;
                                            assert(pre[i] == x as u16);
                                        }
                                    }
                                }
                            }
                        }
                    }
                    assert(self.in_use() =~= old(self).in_use().insert(id as int));
                }
                Ok(id)
            },
        }
    }

    /// Hands an identifier back to the pool. Succeeds exactly when the
    /// identifier was in use; handing back one that was not is the
    /// caller's bookkeeping fault, reported as `IdNotFound` and leaving
    /// the pool unchanged.
    pub fn release(&mut self, id: u16) -> (r: Result<(), ClientError>)
        requires
            old(self).wf(),
        ensures
            final(self).wf(),
            final(self).spec_timeout_ms() == old(self).spec_timeout_ms(),
            r is Ok <==> old(self).in_use().contains(id as int),
            match r {
                Ok(()) => {
                    &&& final(self).in_use() == old(self).in_use().remove(id as int)
                    &&& final(self).spec_free_count() == old(self).spec_free_count() + 1
                },
                Err(e) => {
                    &&& e == ClientError::IdNotFound
                    &&& final(self).in_use() == old(self).in_use()
                    &&& final(self).spec_free_count() == old(self).spec_free_count()
                },
            },
    {
        if id == 0 || id > MAX_REQUEST_ID {
            return Err(ClientError::IdNotFound);
        }
        let mut i: usize = 0;
        let n = self.free.len();
        while i < n
            invariant
                old(self).wf(),
                *self == *old(self),
                n == self.free@.len(),
                i <= n,
                forall|j: int| 0 <= j < i ==> self.free@[j] != id,
            decreases n - i,
        {
            if self.free[i] == id {
                return Err(ClientError::IdNotFound);
            }
            i = i + 1;
        }
        assert(!self.free@.contains(id));
        self.free.push(id);
        proof {
            let pre = old(self).free@;
            assert forall|x: int| #[trigger] self.in_use().contains(x)
                || old(self).in_use().remove(id as int).contains(x)
                implies self.in_use().contains(x)
                    == old(self).in_use().remove(id as int).contains(x) by {
                if 1 <= x <= 65535 {
                    if x == id as int {
                        assert(self.free@[self.free@.len() - 1] == id);
                        assert(self.free@.contains(x as u16));
                    } else {
                        assert(self.free@.contains(x as u16) <==> pre.contains(x as u16)) by {
                            if pre.contains(x as u16) {
                                let j = choose|j: int| 0 <= j < pre.len() && pre[j] == x as u16;
                                assert(self.free@[j] == x as u16);
                            } else {
                                if self.free@.contains(x as u16) {
                                    let j = choose|j: int| 0 <= j < self.free@.len()
                                        && self.free@[j] == x as u16;
                                    assert(j < pre.len() || self.free@[j] == id);
                                    assert(j < pre.len() ==> pre[j] == x as u16);
                                }
                            }
                        }
                    }
                }
            }
            assert(self.in_use() =~= old(self).in_use().remove(id as int));
        }
        Ok(())
    }

    /// How many identifiers are free right now.
    pub fn free_count(&self) -> (n: usize)
        ensures
            n == self.spec_free_count(),
    {
        self.free.len()
    }

    /// The allocation deadline, in milliseconds, for a caller that waits
    /// on an exhausted pool.
    pub fn timeout_ms(&self) -> (t: u64)
        ensures
            t == self.spec_timeout_ms(),
    {
        self.timeout_ms
    }

    /// The set of identifiers in use is always finite and never exceeds
    /// the size of the identifier space, however many allocations and
    /// releases have happened.
    pub proof fn lemma_in_use_bounded(self)
        ensures
            self.in_use().finite(),
            self.in_use().len() <= 65535,
    {
        assert(self.in_use() <= set_int_range(1, 65536));
        lemma_int_range(1, 65536);
        lemma_len_subset(self.in_use(), set_int_range(1, 65536));
    }
}

} // verus!
