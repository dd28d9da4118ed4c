//! A pool of a fixed number of buffers of one fixed size.
//!
//! The pool owns the storage. Callers hold handles, which are slot numbers,
//! between `acquire` and `release`; every use of a handle is checked against
//! the slot's state, so a stale or doubled release is refused and does no
//! harm. The pool never blocks and never grows.

use crate::bytes::{copy_bytes, overlay};
use crate::error::ErrorCode;
use vstd::prelude::*;
use vstd::set_lib::*;

verus! {

/// The most bytes that one pool may hold in all.
pub const MAX_POOL_BYTES: usize = 0x4000_0000;

/// A caller's hold on one buffer: the number of its slot.
#[derive(Clone, Copy, Debug, PartialEq, Eq, Structural)]
pub struct BufferHandle {
    pub index: usize,
}

/// The state of a pool: whether it is live, its dimensions, the free slots in
/// the order in which they were freed (the last one is handed out next), and
/// what each buffer holds.
pub struct PoolState {
    pub active: bool,
    pub buffer_size: nat,
    pub pool_size: nat,
    pub free: Seq<usize>,
    pub buffers: Seq<Seq<u8>>,
}

impl PoolState {
    /// A pool that holds nothing: never initialised, or destroyed.
    pub open spec fn idle() -> PoolState {
        PoolState { active: false, buffer_size: 0, pool_size: 0, free: seq![], buffers: seq![] }
    }

    /// A pool as `init` makes it: every slot free and zeroed, slot 0 first in
    /// line.
    pub open spec fn fresh(buffer_size: nat, pool_size: nat) -> PoolState {
        PoolState {
            active: true,
            buffer_size,
            pool_size,
            free: Seq::new(pool_size, |j: int| (pool_size - 1 - j) as usize),
            buffers: Seq::new(pool_size, |i: int| Seq::new(buffer_size, |k: int| 0u8)),
        }
    }

    /// Slot `i` is with a caller.
    pub open spec fn is_checked_out(self, i: int) -> bool {
        self.active && 0 <= i < self.pool_size && !self.free.contains(i as usize)
    }

    /// The slots that are with callers.
    pub open spec fn checked_out(self) -> Set<int> {
        Set::new(|i: int| self.is_checked_out(i))
    }

    /// How many buffers are with callers.
    pub open spec fn acquired_count(self) -> nat {
        self.checked_out().len()
    }

    /// How many buffers are free.
    pub open spec fn free_count(self) -> nat {
        self.free.len()
    }

    /// The state is consistent: an idle pool holds nothing; in a live pool no
    /// slot is free twice, every free slot exists, and every buffer has the
    /// pool's buffer size.
    pub open spec fn wf(self) -> bool {
        if self.active {
            &&& self.buffer_size > 0
            &&& self.pool_size > 0
            &&& self.pool_size <= usize::MAX
            &&& self.free.no_duplicates()
            &&& forall|j: int| 0 <= j < self.free.len() ==> (#[trigger] self.free[j]) < self.pool_size
            &&& self.buffers.len() == self.pool_size
            &&& forall|i: int|
                0 <= i < self.pool_size ==> (#[trigger] self.buffers[i]).len() == self.buffer_size
        } else {
            self == PoolState::idle()
        }
    }

    /// Whether `init` accepts these dimensions.
    pub open spec fn init_error(self, buffer_size: nat, pool_size: nat) -> ErrorCode {
        if self.active || buffer_size == 0 || pool_size == 0 {
            ErrorCode::InvalidParameter
        } else if buffer_size * pool_size > MAX_POOL_BYTES {
            ErrorCode::AllocationFailure
        } else {
            ErrorCode::Success
        }
    }

    /// The pool after `init`.
    pub open spec fn init(self, buffer_size: nat, pool_size: nat) -> PoolState {
        if self.init_error(buffer_size, pool_size) == ErrorCode::Success {
            PoolState::fresh(buffer_size, pool_size)
        } else {
            self
        }
    }

    /// The handle that `acquire` gives out: the slot freed last, or nothing
    /// where the pool is idle or no slot is free.
    pub open spec fn acquired(self) -> Option<BufferHandle> {
        if self.active && self.free.len() > 0 {
            Some(BufferHandle { index: self.free.last() })
        } else {
            None
        }
    }

    /// The pool after `acquire`.
    pub open spec fn acquire(self) -> PoolState {
        if self.active && self.free.len() > 0 {
            PoolState { free: self.free.drop_last(), ..self }
        } else {
            self
        }
    }

    /// What `release` answers: success for a slot that is with a caller,
    /// `InvalidParameter` for any other handle and for an idle pool.
    pub open spec fn release_error(self, handle: BufferHandle) -> ErrorCode {
        if self.is_checked_out(handle.index as int) {
            ErrorCode::Success
        } else {
            ErrorCode::InvalidParameter
        }
    }

    /// The pool after `release`.
    pub open spec fn release(self, handle: BufferHandle) -> PoolState {
        if self.is_checked_out(handle.index as int) {
            PoolState { free: self.free.push(handle.index), ..self }
        } else {
            self
        }
    }

    /// What `write` answers: success where the slot is with a caller and the
    /// bytes fit its buffer from `offset` on, `InvalidParameter` otherwise.
    pub open spec fn write_error(self, handle: BufferHandle, offset: nat, len: nat) -> ErrorCode {
        if self.is_checked_out(handle.index as int) && offset + len <= self.buffer_size {
            ErrorCode::Success
        } else {
            ErrorCode::InvalidParameter
        }
    }

    /// The pool after `write`.
    pub open spec fn write(self, handle: BufferHandle, offset: nat, bytes: Seq<u8>) -> PoolState {
        if self.write_error(handle, offset, bytes.len()) == ErrorCode::Success {
            PoolState {
                buffers: self.buffers.update(
                    handle.index as int,
                    overlay(self.buffers[handle.index as int], offset as int, bytes),
                ),
                ..self
            }
        } else {
            self
        }
    }

    /// The pool after `n` calls of `acquire`.
    pub open spec fn acquire_times(self, n: nat) -> PoolState
        decreases n,
    {
        if n == 0 {
            self
        } else {
            self.acquire_times((n - 1) as nat).acquire()
        }
    }
}

/// Every operation keeps a consistent state consistent.
pub proof fn lemma_operations_keep_wf(
    s: PoolState,
    buffer_size: nat,
    pool_size: nat,
    handle: BufferHandle,
    offset: nat,
    bytes: Seq<u8>,
)
    requires
        s.wf(),
    ensures
        s.init(buffer_size, pool_size).wf(),
        s.acquire().wf(),
        s.release(handle).wf(),
        s.write(handle, offset, bytes).wf(),
        PoolState::idle().wf(),
{
    if s.init_error(buffer_size, pool_size) == ErrorCode::Success {
        lemma_fresh_wf(buffer_size, pool_size);
    }
    if s.active && s.free.len() > 0 {
        let t = s.acquire();
        assert forall|j: int| 0 <= j < t.free.len() implies (#[trigger] t.free[j]) < t.pool_size by {
            assert(t.free[j] == s.free[j]);
        }
    }
    if s.is_checked_out(handle.index as int) {
        let t = s.release(handle);
        assert forall|j: int| 0 <= j < t.free.len() implies (#[trigger] t.free[j]) < t.pool_size by {
            if j < s.free.len() {
                assert(t.free[j] == s.free[j]);
            }
        }
        assert forall|i: int, j: int| 0 <= i < t.free.len() && 0 <= j < t.free.len() && i != j implies t.free[i]
            != t.free[j] by {
            if i < s.free.len() && j < s.free.len() {
                assert(s.free[i] != s.free[j]);
            } else if i < s.free.len() {
                assert(s.free.contains(s.free[i]));
            } else {
                assert(s.free.contains(s.free[j]));
            }
        }
    }
}

/// A pool fresh from `init` is consistent.
pub proof fn lemma_fresh_wf(buffer_size: nat, pool_size: nat)
    requires
        buffer_size > 0,
        pool_size > 0,
        buffer_size * pool_size <= MAX_POOL_BYTES,
    ensures
        PoolState::fresh(buffer_size, pool_size).wf(),
        pool_size <= MAX_POOL_BYTES,
{
    assert(pool_size <= buffer_size * pool_size) by (nonlinear_arith)
        requires
            buffer_size > 0,
    ;
}

/// At all times the buffers with callers and the free buffers make up the
/// pool: `acquired_count + free_count == pool_size`.
pub proof fn lemma_counts_add_up(s: PoolState)
    requires
        s.wf(),
    ensures
        s.checked_out().finite(),
        s.acquired_count() + s.free_count() == s.pool_size,
{
    if s.active {
        let all = set_int_range(0, s.pool_size as int);
        let free_set = s.free.map_values(|v: usize| v as int).to_set();
        let out = s.checked_out();
        lemma_int_range(0, s.pool_size as int);
        let mapped = s.free.map_values(|v: usize| v as int);
        assert(mapped.no_duplicates()) by {
            assert forall|i: int, j: int|
                0 <= i < mapped.len() && 0 <= j < mapped.len() && i != j implies mapped[i]
                != mapped[j] by {
                assert(s.free[i] != s.free[j]);
            }
        }
        mapped.unique_seq_to_set();
        assert(free_set.len() == s.free.len());
        assert forall|i: int| free_set.contains(i) implies all.contains(i) by {
            let j = choose|j: int| 0 <= j < mapped.len() && mapped[j] == i;
            assert(s.free[j] < s.pool_size);
        }
        assert forall|i: int| out.contains(i) implies all.contains(i) by {}
        lemma_len_subset(out, all);
        assert(free_set.disjoint(out)) by {
            assert forall|i: int| !(free_set.contains(i) && out.contains(i)) by {
                if free_set.contains(i) {
                    let j = choose|j: int| 0 <= j < mapped.len() && mapped[j] == i;
                    assert(s.free[j] == i as usize);
                    assert(s.free.contains(i as usize));
                }
            }
        }
        assert(free_set + out =~= all) by {
            assert forall|i: int| all.contains(i) implies (free_set + out).contains(i) by {
                if s.free.contains(i as usize) {
                    let j = choose|j: int| 0 <= j < s.free.len() && s.free[j] == i as usize;
                    assert(mapped[j] == i);
                    assert(mapped.contains(i));
                }
            }
        }
        lemma_set_disjoint_lens(free_set, out);
    } else {
        assert(s.checked_out() =~= Set::<int>::empty());
    }
}

/// From a fresh pool of `pool_size` buffers, the first `pool_size` calls of
/// `acquire` all succeed, the call numbered `n` (from zero) with slot `n`, so
/// with handles that differ from one another; the call after them finds the
/// pool exhausted.
pub proof fn lemma_fresh_pool_serves_each_slot_once(buffer_size: nat, pool_size: nat, n: nat)
    requires
        buffer_size > 0,
        pool_size > 0,
        pool_size <= usize::MAX,
        n <= pool_size,
    ensures
        PoolState::fresh(buffer_size, pool_size).acquire_times(n).free == PoolState::fresh(
            buffer_size,
            pool_size,
        ).free.subrange(0, pool_size - n),
        n < pool_size ==> PoolState::fresh(buffer_size, pool_size).acquire_times(n).acquired()
            == Some(BufferHandle { index: n as usize }),
        n == pool_size ==> PoolState::fresh(buffer_size, pool_size).acquire_times(n).acquired()
            is None,
    decreases n,
{
    let fresh = PoolState::fresh(buffer_size, pool_size);
    if n == 0 {
        assert(fresh.free.subrange(0, pool_size as int) =~= fresh.free);
    } else {
        lemma_fresh_pool_serves_each_slot_once(buffer_size, pool_size, (n - 1) as nat);
        let before = fresh.acquire_times((n - 1) as nat);
        assert(before.active) by {
            lemma_acquire_times_keeps_dimensions(fresh, (n - 1) as nat);
        }
        assert(before.free.len() == pool_size - (n - 1));
        assert(before.acquire().free =~= fresh.free.subrange(0, pool_size - n));
    }
    lemma_acquire_times_keeps_dimensions(fresh, n);
}

/// Acquiring changes nothing but the free list.
pub proof fn lemma_acquire_times_keeps_dimensions(s: PoolState, n: nat)
    ensures
        s.acquire_times(n).active == s.active,
        s.acquire_times(n).buffer_size == s.buffer_size,
        s.acquire_times(n).pool_size == s.pool_size,
        s.acquire_times(n).buffers == s.buffers,
    decreases n,
{
    if n > 0 {
        lemma_acquire_times_keeps_dimensions(s, (n - 1) as nat);
    }
}

/// An acquired handle names a slot that was free and is now with the caller,
/// so no handle is with two callers at once.
pub proof fn lemma_acquire_hands_out_a_free_slot(s: PoolState)
    requires
        s.wf(),
        s.acquired() is Some,
    ensures
        !s.is_checked_out(s.acquired()->0.index as int),
        s.acquire().is_checked_out(s.acquired()->0.index as int),
        forall|i: int| s.is_checked_out(i) ==> s.acquire().is_checked_out(i),
{
    let h = s.free.last();
    let t = s.acquire();
    assert(s.free[s.free.len() - 1] == h);
    assert(s.free.contains(h));
    assert(!t.free.contains(h)) by {
        if t.free.contains(h) {
            let j = choose|j: int| 0 <= j < t.free.len() && t.free[j] == h;
            assert(s.free[j] == h);
        }
    }
    assert forall|i: int| s.is_checked_out(i) implies t.is_checked_out(i) by {
        if t.free.contains(i as usize) {
            let j = choose|j: int| 0 <= j < t.free.len() && t.free[j] == i as usize;
            assert(s.free[j] == i as usize);
            assert(s.free.contains(i as usize));
        }
    }
}

/// A released buffer is the next one handed out, and the pool is then as it
/// was before the release.
pub proof fn lemma_release_then_acquire_reuses(s: PoolState, handle: BufferHandle)
    requires
        s.wf(),
        s.release_error(handle) == ErrorCode::Success,
    ensures
        s.release(handle).acquired() == Some(handle),
        s.release(handle).acquire() == s,
{
    let t = s.release(handle);
    assert(t.free.drop_last() =~= s.free);
}

/// Releasing the same handle twice in a row fails the second time and leaves
/// the pool alone.
pub proof fn lemma_double_release_is_refused(s: PoolState, handle: BufferHandle)
    requires
        s.wf(),
        s.release_error(handle) == ErrorCode::Success,
    ensures
        s.release(handle).release_error(handle) == ErrorCode::InvalidParameter,
        s.release(handle).release(handle) == s.release(handle),
{
    let t = s.release(handle);
    assert(t.free[t.free.len() - 1] == handle.index);
    assert(t.free.contains(handle.index));
}

/// A destroyed pool hands out nothing, takes nothing back and lets nothing be
/// written, and stays as it is.
pub proof fn lemma_idle_pool_refuses(handle: BufferHandle, offset: nat, bytes: Seq<u8>)
    ensures
        PoolState::idle().acquired() is None,
        PoolState::idle().acquire() == PoolState::idle(),
        PoolState::idle().release_error(handle) == ErrorCode::InvalidParameter,
        PoolState::idle().release(handle) == PoolState::idle(),
        PoolState::idle().write_error(handle, offset, bytes.len()) == ErrorCode::InvalidParameter,
        PoolState::idle().write(handle, offset, bytes) == PoolState::idle(),
{
}

/// The pool itself.
pub struct BufferPool {
    active: bool,
    buffer_size: usize,
    pool_size: usize,
    slots: Vec<Vec<u8>>,
    in_use: Vec<bool>,
    free_list: Vec<usize>,
}

impl View for BufferPool {
    type V = PoolState;

    closed spec fn view(&self) -> PoolState {
        PoolState {
            active: self.active,
            buffer_size: self.buffer_size as nat,
            pool_size: self.pool_size as nat,
            free: self.free_list@,
            buffers: Seq::new(self.slots@.len(), |i: int| self.slots@[i]@),
        }
    }
}

impl BufferPool {
    /// The pool's state is consistent and its bookkeeping agrees with it.
    pub closed spec fn wf(&self) -> bool {
        &&& self@.wf()
        &&& self.slots@.len() == self.pool_size
        &&& self.in_use@.len() == self.pool_size
        &&& forall|i: int|
            0 <= i < self.pool_size ==> (#[trigger] self.in_use@[i]) == !self.free_list@.contains(
                i as usize,
            )
    }

    /// The consistency of the pool is that of its state, and more.
    pub proof fn lemma_wf_state(&self)
        requires
            self.wf(),
        ensures
            self@.wf(),
    {
    }

    /// An idle pool: nothing is allocated until `init`.
    pub fn new() -> (pool: BufferPool)
        ensures
            pool.wf(),
            pool@ == PoolState::idle(),
    {
        let pool = BufferPool {
            active: false,
            buffer_size: 0,
            pool_size: 0,
            slots: Vec::new(),
            in_use: Vec::new(),
            free_list: Vec::new(),
        };
        assert(pool@.buffers =~= Seq::<Seq<u8>>::empty());
        assert(pool@.free =~= Seq::<usize>::empty());
        pool
    }

    /// Allocates `pool_size` zeroed buffers of `buffer_size` bytes each.
    ///
    /// Fails with `InvalidParameter` where the pool is live already or a
    /// dimension is zero, and with `AllocationFailure` where the buffers
    /// together would pass `MAX_POOL_BYTES`. A failed call changes nothing.
    pub fn init(&mut self, buffer_size: usize, pool_size: usize) -> (result: ErrorCode)
        requires
            old(self).wf(),
        ensures
            final(self).wf(),
            result == old(self)@.init_error(buffer_size as nat, pool_size as nat),
            final(self)@ == old(self)@.init(buffer_size as nat, pool_size as nat),
    {
        if self.active || buffer_size == 0 || pool_size == 0 {
            return ErrorCode::InvalidParameter;
        }
        if pool_size > MAX_POOL_BYTES / buffer_size {
            assert(buffer_size * pool_size > MAX_POOL_BYTES) by (nonlinear_arith)
                requires
                    buffer_size > 0,
                    pool_size > MAX_POOL_BYTES / buffer_size,
            ;
            return ErrorCode::AllocationFailure;
        }
        assert(buffer_size * pool_size <= MAX_POOL_BYTES) by (nonlinear_arith)
            requires
                buffer_size > 0,
                pool_size <= MAX_POOL_BYTES / buffer_size,
        ;
        let ghost fresh = PoolState::fresh(buffer_size as nat, pool_size as nat);
        let mut slots: Vec<Vec<u8>> = Vec::new();
        let mut free_list: Vec<usize> = Vec::new();
        let mut i: usize = 0;
        while i < pool_size
            invariant
                i <= pool_size,
                slots@.len() == i,
                free_list@.len() == i,
                forall|k: int| 0 <= k < i ==> (#[trigger] slots@[k])@ == fresh.buffers[k],
                forall|k: int| 0 <= k < i ==> (#[trigger] free_list@[k]) == fresh.free[k],
                fresh == PoolState::fresh(buffer_size as nat, pool_size as nat),
            decreases pool_size - i,
        {
            let buffer = vec![0u8; buffer_size];
            assert(buffer@ =~= fresh.buffers[i as int]);
            slots.push(buffer);
            free_list.push(pool_size - 1 - i);
            i = i + 1;
        }
        let in_use = vec![false; pool_size];
        self.active = true;
        self.buffer_size = buffer_size;
        self.pool_size = pool_size;
        self.slots = slots;
        self.in_use = in_use;
        self.free_list = free_list;
        proof {
            assert(self@.free =~= fresh.free);
            assert(self@.buffers =~= fresh.buffers);
            lemma_fresh_wf(buffer_size as nat, pool_size as nat);
            assert forall|k: int| 0 <= k < self.pool_size implies (#[trigger] self.in_use@[k])
                == !self.free_list@.contains(k as usize) by {
                let j = pool_size - 1 - k;
                assert(self.free_list@[j] == k as usize);
            }
        }
        ErrorCode::Success
    }

    /// Hands out the buffer that was freed last. Returns nothing, at once,
    /// where the pool is idle or every buffer is with a caller.
    pub fn acquire(&mut self) -> (handle: Option<BufferHandle>)
        requires
            old(self).wf(),
        ensures
            final(self).wf(),
            handle == old(self)@.acquired(),
            final(self)@ == old(self)@.acquire(),
            handle is Some ==> !old(self)@.is_checked_out(handle->0.index as int),
            handle is Some ==> final(self)@.is_checked_out(handle->0.index as int),
    {
        if !self.active || self.free_list.len() == 0 {
            return None;
        }
        proof {
            lemma_acquire_hands_out_a_free_slot(self@);
            lemma_operations_keep_wf(self@, 0, 0, BufferHandle { index: 0 }, 0, seq![]);
        }
        let ghost before = self@;
        let index = self.free_list.pop().unwrap();
        assert(self.free_list@ == before.free.drop_last());
        assert(index == before.free.last());
        self.in_use[index] = true;
        proof {
            assert(self@.buffers =~= before.buffers);
            assert(self@ == before.acquire());
            assert forall|i: int| 0 <= i < self.pool_size implies (#[trigger] self.in_use@[i])
                == !self.free_list@.contains(i as usize) by {
                if i != index {
                    if before.free.contains(i as usize) {
                        let j = choose|j: int| 0 <= j < before.free.len() && before.free[j] == i as usize;
                        assert(self.free_list@[j] == i as usize);
                    }
                    if self.free_list@.contains(i as usize) {
                        let j = choose|j: int|
                            0 <= j < self.free_list@.len() && self.free_list@[j] == i as usize;
                        assert(before.free[j] == i as usize);
                    }
                }
            }
        }
        Some(BufferHandle { index })
    }

    /// Hands out a buffer as `acquire` does, and reports an idle or exhausted
    /// pool as `AllocationFailure`.
    pub fn checked_acquire(&mut self) -> (r: Result<BufferHandle, ErrorCode>)
        requires
            old(self).wf(),
        ensures
            final(self).wf(),
            final(self)@ == old(self)@.acquire(),
            old(self)@.acquired() is Some ==> r == Ok::<BufferHandle, ErrorCode>(
                old(self)@.acquired()->0,
            ),
            old(self)@.acquired() is None ==> r == Err::<BufferHandle, ErrorCode>(
                ErrorCode::AllocationFailure,
            ),
    {
        match self.acquire() {
            Some(handle) => Ok(handle),
            None => Err(ErrorCode::AllocationFailure),
        }
    }

    /// Takes a buffer back. Its bytes stay as the caller left them.
    ///
    /// Fails with `InvalidParameter`, changing nothing, where the handle
    /// names no slot of this pool or a slot that is not with a caller, as
    /// after a release, and where the pool is idle.
    pub fn release(&mut self, handle: BufferHandle) -> (result: ErrorCode)
        requires
            old(self).wf(),
        ensures
            final(self).wf(),
            result == old(self)@.release_error(handle),
            final(self)@ == old(self)@.release(handle),
            !final(self)@.is_checked_out(handle.index as int),
    {
        if !self.active || handle.index >= self.pool_size {
            return ErrorCode::InvalidParameter;
        }
        if !self.in_use[handle.index] {
            return ErrorCode::InvalidParameter;
        }
        let ghost before = self@;
        proof {
            lemma_operations_keep_wf(before, 0, 0, handle, 0, seq![]);
            lemma_double_release_is_refused(before, handle);
        }
        self.in_use[handle.index] = false;
        self.free_list.push(handle.index);
        proof {
            assert(self@.buffers =~= before.buffers);
            assert(self@ == before.release(handle));
            assert forall|i: int| 0 <= i < self.pool_size implies (#[trigger] self.in_use@[i])
                == !self.free_list@.contains(i as usize) by {
                if i == handle.index {
                    assert(self.free_list@[self.free_list@.len() - 1] == handle.index);
                } else {
                    if before.free.contains(i as usize) {
                        let j = choose|j: int| 0 <= j < before.free.len() && before.free[j] == i as usize;
                        assert(self.free_list@[j] == i as usize);
                    }
                    if self.free_list@.contains(i as usize) {
                        let j = choose|j: int|
                            0 <= j < self.free_list@.len() && self.free_list@[j] == i as usize;
                        assert(before.free[j] == i as usize);
                    }
                }
            }
        }
        ErrorCode::Success
    }

    /// Frees all buffers and returns the pool to the idle state. Handles that
    /// are still out become stale: every later use of them is refused.
    pub fn destroy(&mut self)
        requires
            old(self).wf(),
        ensures
            final(self).wf(),
            final(self)@ == PoolState::idle(),
    {
        self.active = false;
        self.buffer_size = 0;
        self.pool_size = 0;
        self.slots = Vec::new();
        self.in_use = Vec::new();
        self.free_list = Vec::new();
        assert(self@.buffers =~= Seq::<Seq<u8>>::empty());
        assert(self@.free =~= Seq::<usize>::empty());
    }

    /// Copies `bytes` into a buffer that is with a caller, from `offset` on.
    ///
    /// Fails with `InvalidParameter`, changing nothing, where the handle is
    /// not with a caller or the bytes do not fit the buffer.
    pub fn write(&mut self, handle: BufferHandle, offset: usize, bytes: &[u8]) -> (result: ErrorCode)
        requires
            old(self).wf(),
        ensures
            final(self).wf(),
            result == old(self)@.write_error(handle, offset as nat, bytes@.len()),
            final(self)@ == old(self)@.write(handle, offset as nat, bytes@),
    {
        if !self.active || handle.index >= self.pool_size {
            return ErrorCode::InvalidParameter;
        }
        if !self.in_use[handle.index] {
            return ErrorCode::InvalidParameter;
        }
        if offset > self.buffer_size || bytes.len() > self.buffer_size - offset {
            return ErrorCode::InvalidParameter;
        }
        let ghost before = self@;
        proof {
            lemma_operations_keep_wf(before, 0, 0, handle, offset as nat, bytes@);
            assert(before.buffers[handle.index as int].len() == self.buffer_size);
        }
        let mut buffer: Vec<u8> = Vec::new();
        std::mem::swap(&mut buffer, &mut self.slots[handle.index]);
        copy_bytes(&mut buffer, offset, bytes);
        std::mem::swap(&mut buffer, &mut self.slots[handle.index]);
        proof {
            assert(self@.buffers =~= before.write(handle, offset as nat, bytes@).buffers);
        }
        ErrorCode::Success
    }

    /// The bytes of a buffer that is with a caller; nothing for any other
    /// handle.
    pub fn read(&self, handle: BufferHandle) -> (bytes: Option<&[u8]>)
        requires
            self.wf(),
        ensures
            self@.is_checked_out(handle.index as int) ==> bytes is Some && bytes->0@
                == self@.buffers[handle.index as int],
            !self@.is_checked_out(handle.index as int) ==> bytes is None,
    {
        if !self.active || handle.index >= self.pool_size {
            return None;
        }
        if !self.in_use[handle.index] {
            return None;
        }
        Some(self.slots[handle.index].as_slice())
    }

    /// Whether the pool is live: initialised and not destroyed.
    pub fn is_active(&self) -> (b: bool)
        ensures
            b == self@.active,
    {
        self.active
    }

    /// The size of each buffer, zero for an idle pool.
    pub fn buffer_size(&self) -> (n: usize)
        ensures
            n == self@.buffer_size,
    {
        self.buffer_size
    }

    /// The number of buffers, zero for an idle pool.
    pub fn pool_size(&self) -> (n: usize)
        ensures
            n == self@.pool_size,
    {
        self.pool_size
    }

    /// How many buffers are free.
    pub fn free_count(&self) -> (n: usize)
        ensures
            n == self@.free_count(),
    {
        self.free_list.len()
    }

    /// How many buffers are with callers.
    pub fn acquired_count(&self) -> (n: usize)
        requires
            self.wf(),
        ensures
            n == self@.acquired_count(),
            n + self@.free_count() == self@.pool_size,
    {
        proof {
            lemma_counts_add_up(self@);
        }
        self.pool_size - self.free_list.len()
    }
}

} // verus!
