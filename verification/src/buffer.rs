//! The executable ring buffer.
//!
//! `HorridRing` owns a contiguous storage block of at most `capacity`
//! slots. The backing vector grows while slots are written for the first
//! time and then stays at full length forever; the cursor fields do all
//! the bookkeeping. Each method's contract is the matching spec-level
//! transition from [`crate::state`].

use crate::state::RingState;
use vstd::pervasive::VecAdditionalExecFns;
use vstd::prelude::*;

verus! {

/// A fixed-capacity circular buffer with overwrite-on-full semantics.
pub struct HorridRing<T> {
    storage: Vec<T>,
    read: usize,
    write: usize,
    read_wrap: u8,
    write_wrap: u8,
    capacity: usize,
}

impl<T> View for HorridRing<T> {
    type V = RingState<T>;

    closed spec fn view(&self) -> RingState<T> {
        RingState {
            slots: self.storage@,
            read: self.read as int,
            write: self.write as int,
            read_epoch: self.read_wrap as int,
            write_epoch: self.write_wrap as int,
            capacity: self.capacity as int,
        }
    }
}

impl<T> HorridRing<T> {
    /// Makes an empty buffer that will hold up to `capacity` elements.
    pub fn with_capacity(capacity: usize) -> (rb: Self)
        requires
            1 <= capacity,
        ensures
            rb@ == RingState::<T>::fresh(capacity as int),
            rb@.wf(),
    {
        HorridRing {
            storage: Vec::new(),
            read: 0,
            write: 0,
            read_wrap: 0,
            write_wrap: 0,
            capacity,
        }
    }

    /// Writes `val` into the slot under the write cursor, overwriting any
    /// unread value that still sat there, and advances the cursor. Never
    /// fails and never blocks.
    pub fn push(&mut self, val: T)
        requires
            old(self)@.wf(),
        ensures
            final(self)@ == old(self)@.push_state(val),
            final(self)@.wf(),
    {
        if self.write < self.storage.len() {
            self.storage.set(self.write, val);
        } else {
            self.storage.push(val);
        }
        self.write = self.write + 1;
        if self.write == self.capacity {
            self.write = 0;
            self.write_wrap = if self.write_wrap == 255 {
                0
            } else {
                self.write_wrap + 1
            };
        }
    }

    /// Rewinds all four cursor fields; the buffer is empty afterwards and
    /// any unread values are abandoned in place.
    pub fn clear(&mut self)
        requires
            old(self)@.wf(),
        ensures
            final(self)@ == old(self)@.clear_state(),
            final(self)@.wf(),
            final(self)@.is_empty(),
    {
        self.write = 0;
        self.read = 0;
        self.write_wrap = 0;
        self.read_wrap = 0;
    }
}

impl<T: Copy> HorridRing<T> {
    /// Pops the oldest recoverable value, or nothing when the buffer is
    /// empty. When the writer has lapped the reader, the read cursor first
    /// snaps forward to the current write index, forfeiting the overwritten
    /// slots; the jump still consumes exactly one element for this call.
    pub fn next(&mut self) -> (popped: Option<T>)
        requires
            old(self)@.wf(),
        ensures
            popped == old(self)@.pop_result(),
            final(self)@ == old(self)@.pop_state(),
            final(self)@.wf(),
    {
        if self.read_wrap == self.write_wrap && self.read == self.write {
            return None;
        }
        if self.read_wrap < self.write_wrap && self.read < self.write {
            self.read = self.write;
        }
        let val = self.storage[self.read];
        self.read = self.read + 1;
        if self.read == self.capacity {
            self.read = 0;
            self.read_wrap = if self.read_wrap == 255 {
                0
            } else {
                self.read_wrap + 1
            };
        }
        Some(val)
    }

    /// Pops until empty, collecting the values in read order, then clears
    /// the buffer.
    pub fn drain(&mut self) -> (vals: Vec<T>)
        requires
            old(self)@.wf(),
        ensures
            vals@ == old(self)@.contents(),
            final(self)@ == old(self)@.clear_state(),
            final(self)@.wf(),
            final(self)@.is_empty(),
    {
        let mut vals: Vec<T> = Vec::new();
        loop
            invariant
                self@.wf(),
                self@.slots == old(self)@.slots,
                self@.capacity == old(self)@.capacity,
                old(self)@.contents() == vals@ + self@.contents(),
            ensures
                self@.wf(),
                self@.slots == old(self)@.slots,
                self@.capacity == old(self)@.capacity,
                vals@ == old(self)@.contents(),
            decreases self@.epoch_rank(), self@.slot_rank(),
        {
            proof {
                if !self@.is_empty() {
                    self@.lemma_pop_step();
                }
            }
            let ghost before = self@;
            match self.next() {
                Some(val) => {
                    proof {
                        assert(before.contents() == seq![val] + before.pop_state().contents());
                        assert(vals@.push(val) + self@.contents() =~= old(self)@.contents());
                    }
                    vals.push(val);
                },
                None => {
                    proof {
                        assert(before.contents() == Seq::<T>::empty());
                        assert(vals@ + before.contents() =~= vals@);
                    }
                    break;
                },
            }
        }
        self.clear();
        vals
    }
}

impl HorridRing<u8> {
    /// Bulk read: pops bytes into `buf` from the front, in read order,
    /// until either `buf` is full or the buffer is exhausted, and returns
    /// how many bytes were written. Bytes of `buf` past that count keep
    /// their old values. Never fails.
    pub fn read(&mut self, buf: &mut Vec<u8>) -> (count: usize)
        requires
            old(self)@.wf(),
        ensures
            final(self)@.wf(),
            final(self)@ == old(self)@.popped(count as nat),
            final(self)@.contents() == old(self)@.contents().skip(count as int),
            final(buf)@.len() == old(buf)@.len(),
            count as int == vstd::math::min(
                old(buf)@.len() as int,
                old(self)@.contents().len() as int,
            ),
            final(buf)@ == old(self)@.contents().take(count as int) + old(buf)@.skip(
                count as int,
            ),
    {
        let mut index: usize = 0;
        loop
            invariant
                old(self)@.wf(),
                self@.wf(),
                index <= buf@.len(),
                index <= old(self)@.contents().len(),
                buf@.len() == old(buf)@.len(),
                self@ == old(self)@.popped(index as nat),
                self@.contents() == old(self)@.contents().skip(index as int),
                buf@ == old(self)@.contents().take(index as int) + old(buf)@.skip(index as int),
            ensures
                self@.wf(),
                index <= buf@.len(),
                index <= old(self)@.contents().len(),
                buf@.len() == old(buf)@.len(),
                self@ == old(self)@.popped(index as nat),
                self@.contents() == old(self)@.contents().skip(index as int),
                buf@ == old(self)@.contents().take(index as int) + old(buf)@.skip(index as int),
                index == buf@.len() || self@.is_empty(),
            decreases buf@.len() - index,
        {
            if index == buf.len() {
                break;
            }
            let ghost before = self@;
            match self.next() {
                Some(val) => {
                    proof {
                        assert(before.contents() == seq![val] + before.pop_state().contents());
                        assert((seq![val] + self@.contents()).skip(1) =~= self@.contents());
                        assert(old(self)@.contents().skip(index as int).skip(1)
                            =~= old(self)@.contents().skip(index as int + 1));
                        assert(self@.contents() =~= old(self)@.contents().skip(index as int + 1));
                        assert(val == before.contents()[0]);
                        assert(val == old(self)@.contents()[index as int]);
                    }
                    buf.set(index, val);
                    proof {
                        assert(buf@ =~= old(self)@.contents().take(index + 1) + old(buf)@.skip(
                            index + 1,
                        ));
                    }
                    index = index + 1;
                },
                None => {
                    break;
                },
            }
        }
        proof {
            if self@.is_empty() {
                assert(self@.contents() == Seq::<u8>::empty());
                assert(old(self)@.contents().len() <= index);
            }
        }
        index
    }

    /// Bulk write: pushes every byte of `buf`, in order, unconditionally;
    /// older unread bytes may be overwritten, per the push semantics.
    /// Returns the number of bytes accepted, always the whole input.
    pub fn write(&mut self, buf: &Vec<u8>) -> (count: usize)
        requires
            old(self)@.wf(),
        ensures
            count == buf@.len(),
            final(self)@ == old(self)@.push_all(buf@),
            final(self)@.wf(),
    {
        let mut i: usize = 0;
        while i < buf.len()
            invariant
                i <= buf@.len(),
                self@.wf(),
                self@ == old(self)@.push_all(buf@.take(i as int)),
            decreases buf@.len() - i,
        {
            let val = buf[i];
            self.push(val);
            proof {
                assert(buf@.take(i + 1).drop_last() =~= buf@.take(i as int));
                assert(buf@.take(i + 1).last() == val);
            }
            i = i + 1;
        }
        proof {
            assert(buf@.take(buf@.len() as int) =~= buf@);
        }
        i
    }
}

} // verus!
