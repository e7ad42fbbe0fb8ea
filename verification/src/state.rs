//! The mathematical model of the ring buffer.
//!
//! `RingState` mirrors the buffer's fields at the specification level: the
//! raw slot contents as a sequence, the two cursors, the two 8-bit wrap
//! epochs, and the capacity. Every executable operation is contracted
//! against a spec-level transition defined here, and `contents` says which
//! values repeated pops would yield, in order.

use vstd::prelude::*;

verus! {

/// Spec-level state of a ring buffer over elements of type `T`.
///
/// `slots` holds the storage that has been written at least once since
/// construction; it grows until it reaches `capacity` and never shrinks.
/// A cursor's epoch counts, modulo 256, how many times that cursor has
/// wrapped past slot zero.
pub ghost struct RingState<T> {
    pub slots: Seq<T>,
    pub read: int,
    pub write: int,
    pub read_epoch: int,
    pub write_epoch: int,
    pub capacity: int,
}

impl<T> RingState<T> {
    /// Well-formedness: cursors and epochs in range, and storage only
    /// shorter than the capacity while no cursor has ever wrapped.
    pub open spec fn wf(self) -> bool {
        &&& 0 < self.capacity
        &&& 0 <= self.read < self.capacity
        &&& 0 <= self.write < self.capacity
        &&& 0 <= self.read_epoch < 256
        &&& 0 <= self.write_epoch < 256
        &&& self.slots.len() <= self.capacity
        &&& (self.slots.len() < self.capacity ==> {
            &&& self.read_epoch == 0
            &&& self.write_epoch == 0
            &&& self.read <= self.write <= self.slots.len()
        })
    }

    /// The state of a buffer fresh from construction.
    pub open spec fn fresh(capacity: int) -> RingState<T> {
        RingState {
            slots: Seq::empty(),
            read: 0,
            write: 0,
            read_epoch: 0,
            write_epoch: 0,
            capacity,
        }
    }

    /// The buffer holds no unread value exactly when both cursors and both
    /// epochs agree.
    pub open spec fn is_empty(self) -> bool {
        self.read == self.write && self.read_epoch == self.write_epoch
    }

    /// All four cursor fields are zero: the state right after construction
    /// or after `clear`, whatever the slots hold.
    pub open spec fn is_rewound(self) -> bool {
        self.read == 0 && self.write == 0 && self.read_epoch == 0 && self.write_epoch == 0
    }

    /// One push: write into the slot under the write cursor (growing the
    /// storage the first time that slot is touched), advance the cursor,
    /// and step the write epoch when the cursor wraps past zero.
    pub open spec fn push_state(self, val: T) -> RingState<T> {
        let slots = if self.write < self.slots.len() {
            self.slots.update(self.write, val)
        } else {
            self.slots.push(val)
        };
        if self.write + 1 == self.capacity {
            RingState {
                slots,
                write: 0,
                write_epoch: if self.write_epoch == 255 {
                    0
                } else {
                    self.write_epoch + 1
                },
                ..self
            }
        } else {
            RingState { slots, write: self.write + 1, ..self }
        }
    }

    /// The catch-up rule: when the reader's epoch is behind the writer's
    /// and the raw read index is below the raw write index, the writer has
    /// demonstrably overwritten the slot the reader was sitting at, so the
    /// read cursor snaps forward to the current write index before reading.
    pub open spec fn catches_up(self) -> bool {
        self.read_epoch < self.write_epoch && self.read < self.write
    }

    /// The slot a pop on a non-empty buffer reads from.
    pub open spec fn pop_slot(self) -> int {
        if self.catches_up() {
            self.write
        } else {
            self.read
        }
    }

    /// What a pop returns: nothing on an empty buffer, otherwise the value
    /// in the slot the read cursor lands on.
    pub open spec fn pop_result(self) -> Option<T> {
        if self.is_empty() {
            None
        } else {
            Some(self.slots[self.pop_slot()])
        }
    }

    /// The state after one pop: the read cursor advances past the slot just
    /// read, stepping the read epoch when it wraps past zero. An empty
    /// buffer is left untouched.
    pub open spec fn pop_state(self) -> RingState<T> {
        if self.is_empty() {
            self
        } else {
            let landed = self.pop_slot();
            if landed + 1 == self.capacity {
                RingState {
                    read: 0,
                    read_epoch: if self.read_epoch == 255 {
                        0
                    } else {
                        self.read_epoch + 1
                    },
                    ..self
                }
            } else {
                RingState { read: landed + 1, ..self }
            }
        }
    }

    /// Clearing rewinds all four cursor fields and abandons the slot
    /// contents in place.
    pub open spec fn clear_state(self) -> RingState<T> {
        RingState { read: 0, write: 0, read_epoch: 0, write_epoch: 0, ..self }
    }

    /// How many epochs the writer is ahead of the reader, aware of the
    /// 8-bit wrap-around of the epoch counters.
    pub open spec fn epoch_lag(self) -> int {
        if self.write_epoch >= self.read_epoch {
            self.write_epoch - self.read_epoch
        } else {
            self.write_epoch - self.read_epoch + 256
        }
    }

    /// First component of the termination measure for draining. The lag,
    /// except that a reader numerically past the writer within the same
    /// epoch still has a whole lap to walk, which ranks above every lag.
    pub open spec fn epoch_rank(self) -> int {
        if self.epoch_lag() == 0 && self.read > self.write {
            256
        } else {
            self.epoch_lag()
        }
    }

    /// Second component of the termination measure: how far the read cursor
    /// still is from the point where the epoch rank next drops.
    pub open spec fn slot_rank(self) -> int {
        if self.epoch_rank() == 0 {
            self.write - self.read
        } else {
            self.capacity - self.read
        }
    }

    /// No unread value stands under the write cursor, so the next push
    /// destroys nothing. Holds of every state the buffer passes through
    /// while the writer stays within one lap of the reader.
    pub open spec fn unsaturated(self) -> bool {
        ||| (self.read_epoch == self.write_epoch && self.read <= self.write)
        ||| (self.epoch_lag() == 1 && self.write < self.read)
    }

    /// Exactly `capacity` unread values: the next push will overwrite the
    /// oldest one.
    pub open spec fn is_full(self) -> bool {
        self.epoch_lag() == 1 && self.read == self.write
    }

    /// The state after pushing every element of `vals`, in order.
    pub open spec fn push_all(self, vals: Seq<T>) -> RingState<T>
        decreases vals.len(),
    {
        if vals.len() == 0 {
            self
        } else {
            self.push_all(vals.drop_last()).push_state(vals.last())
        }
    }

    /// The state after `n` pops.
    pub open spec fn popped(self, n: nat) -> RingState<T>
        decreases n,
    {
        if n == 0 {
            self
        } else {
            self.popped((n - 1) as nat).pop_state()
        }
    }

    /// Every pop on a non-empty well-formed buffer preserves
    /// well-formedness and strictly decreases the measure
    /// `(epoch_rank, slot_rank)`; repeated pops therefore reach the empty
    /// state.
    pub proof fn lemma_pop_step(self)
        requires
            self.wf(),
            !self.is_empty(),
        ensures
            self.pop_state().wf(),
            0 <= self.pop_state().epoch_rank(),
            0 <= self.pop_state().slot_rank(),
            self.pop_state().epoch_rank() < self.epoch_rank() || (
            self.pop_state().epoch_rank() == self.epoch_rank()
                && self.pop_state().slot_rank() < self.slot_rank()),
    {
    }

    /// The sequence of values that popping repeatedly would yield, oldest
    /// first, until the buffer reports empty.
    pub open spec fn contents(self) -> Seq<T>
        decreases self.epoch_rank(), self.slot_rank(),
            when self.wf()
            via Self::contents_decreases
    {
        if self.is_empty() {
            Seq::empty()
        } else {
            seq![self.slots[self.pop_slot()]] + self.pop_state().contents()
        }
    }

    #[via_fn]
    proof fn contents_decreases(self) {
        if !self.is_empty() {
            self.lemma_pop_step();
        }
    }
}

} // verus!
