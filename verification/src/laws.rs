//! Properties of the ring buffer, proved against the model.
//!
//! The helper lemmas give `contents` in closed form for the cursor shapes
//! the buffer passes through while the writer stays within one lap of the
//! reader, and say what one push does to the contents. The public lemmas
//! at the bottom state the buffer's laws: a fresh buffer pops nothing, a
//! cleared buffer pops nothing, pushes within the capacity are drained in
//! their original order, and overfilling a rewound buffer keeps exactly
//! the newest `capacity` values.

use crate::state::RingState;
use vstd::prelude::*;

verus! {

/// While both epochs agree and the read cursor has not passed the write
/// cursor, the unread values are exactly the slots between the cursors.
proof fn lemma_contents_linear<T>(v: RingState<T>)
    requires
        v.wf(),
        v.read_epoch == v.write_epoch,
        v.read <= v.write,
    ensures
        v.contents() == v.slots.subrange(v.read, v.write),
    decreases v.write - v.read,
{
    if v.read == v.write {
        assert(v.contents() =~= v.slots.subrange(v.read, v.write));
    } else {
        v.lemma_pop_step();
        lemma_contents_linear(v.pop_state());
        assert(v.contents() =~= v.slots.subrange(v.read, v.write));
    }
}

/// One lap of lag with the write cursor at or behind the read cursor: the
/// unread values are the slots from the read cursor to the end, then the
/// slots up to the write cursor.
proof fn lemma_contents_wrapped<T>(v: RingState<T>)
    requires
        v.wf(),
        v.epoch_lag() == 1,
        v.write <= v.read,
    ensures
        v.contents() == v.slots.subrange(v.read, v.capacity) + v.slots.subrange(0, v.write),
    decreases v.capacity - v.read,
{
    v.lemma_pop_step();
    if v.read + 1 == v.capacity {
        lemma_contents_linear(v.pop_state());
    } else {
        lemma_contents_wrapped(v.pop_state());
    }
    assert(v.contents() =~= v.slots.subrange(v.read, v.capacity) + v.slots.subrange(0, v.write));
}

/// One lap of lag with the read cursor strictly behind the write cursor:
/// the next pop snaps the read cursor forward, so the unread values are
/// the slots from the write cursor to the end, then the slots up to the
/// write cursor, whatever the read cursor says.
proof fn lemma_contents_caught<T>(v: RingState<T>)
    requires
        v.wf(),
        v.write_epoch == v.read_epoch + 1,
        v.read < v.write,
    ensures
        v.contents() == v.slots.subrange(v.write, v.capacity) + v.slots.subrange(0, v.write),
{
    v.lemma_pop_step();
    if v.write + 1 == v.capacity {
        lemma_contents_linear(v.pop_state());
    } else {
        lemma_contents_wrapped(v.pop_state());
    }
    assert(v.contents() =~= v.slots.subrange(v.write, v.capacity) + v.slots.subrange(0, v.write));
}

/// A push on an unsaturated buffer destroys nothing: it appends the value
/// to the unread contents, and leaves the buffer unsaturated until the
/// contents reach the capacity.
proof fn lemma_push_unsaturated<T>(v: RingState<T>, val: T)
    requires
        v.wf(),
        v.unsaturated(),
    ensures
        v.push_state(val).wf(),
        v.push_state(val).contents() == v.contents().push(val),
        v.push_state(val).read == v.read,
        v.push_state(val).read_epoch == v.read_epoch,
        v.push_state(val).capacity == v.capacity,
        v.push_state(val).unsaturated() || v.push_state(val).is_full(),
        v.push_state(val).contents().len() < v.capacity ==> v.push_state(val).unsaturated(),
{
    let after = v.push_state(val);
    if v.read_epoch == v.write_epoch && v.read <= v.write {
        lemma_contents_linear(v);
        if v.write + 1 == v.capacity {
            lemma_contents_wrapped(after);
        } else {
            lemma_contents_linear(after);
        }
    } else {
        lemma_contents_wrapped(v);
        lemma_contents_wrapped(after);
    }
    assert(after.contents() =~= v.contents().push(val));
    if after.is_full() {
        lemma_contents_wrapped(after);
        assert(after.contents().len() == after.capacity);
    }
}

/// A push on a buffer whose writer is exactly one lap ahead, short of the
/// wrap point, overwrites the oldest unread value: the head of the
/// contents is dropped and the new value appended.
proof fn lemma_push_full<T>(v: RingState<T>, val: T)
    requires
        v.wf(),
        v.write_epoch == v.read_epoch + 1,
        v.read <= v.write,
        v.write + 1 < v.capacity,
    ensures
        v.push_state(val).wf(),
        v.push_state(val).contents() == v.contents().skip(1).push(val),
        v.push_state(val).read == v.read,
        v.push_state(val).read_epoch == v.read_epoch,
        v.push_state(val).write_epoch == v.write_epoch,
        v.push_state(val).write == v.write + 1,
        v.push_state(val).capacity == v.capacity,
{
    let after = v.push_state(val);
    if v.read == v.write {
        lemma_contents_wrapped(v);
        assert(v.contents() =~= v.slots.subrange(v.write, v.capacity) + v.slots.subrange(
            0,
            v.write,
        ));
    } else {
        lemma_contents_caught(v);
    }
    lemma_contents_caught(after);
    assert(after.contents() =~= v.contents().skip(1).push(val));
}

/// Pushing a batch is pushing its two halves in turn.
proof fn lemma_push_all_app<T>(v: RingState<T>, left: Seq<T>, right: Seq<T>)
    ensures
        v.push_all(left + right) == v.push_all(left).push_all(right),
    decreases right.len(),
{
    if right.len() == 0 {
        assert(left + right =~= left);
    } else {
        lemma_push_all_app(v, left, right.drop_last());
        assert((left + right).drop_last() =~= left + right.drop_last());
        assert((left + right).last() == right.last());
    }
}

/// Filling an empty buffer with at most `capacity` values destroys
/// nothing: the unread contents afterwards are exactly the pushed values,
/// and the buffer is full exactly when the batch reached the capacity.
proof fn lemma_fill<T>(v: RingState<T>, vals: Seq<T>)
    requires
        v.wf(),
        v.is_empty(),
        vals.len() <= v.capacity,
    ensures
        v.push_all(vals).wf(),
        v.push_all(vals).contents() == vals,
        v.push_all(vals).read == v.read,
        v.push_all(vals).read_epoch == v.read_epoch,
        v.push_all(vals).capacity == v.capacity,
        vals.len() < v.capacity ==> v.push_all(vals).unsaturated(),
        vals.len() == v.capacity ==> v.push_all(vals).is_full(),
    decreases vals.len(),
{
    if vals.len() == 0 {
        assert(v.push_all(vals).contents() =~= vals);
    } else {
        let prev = v.push_all(vals.drop_last());
        lemma_fill(v, vals.drop_last());
        lemma_push_unsaturated(prev, vals.last());
        assert(v.push_all(vals).contents() =~= vals);
        if vals.len() == v.capacity && !v.push_all(vals).is_full() {
            let after = v.push_all(vals);
            if after.read_epoch == after.write_epoch && after.read <= after.write {
                lemma_contents_linear(after);
            } else {
                lemma_contents_wrapped(after);
            }
            assert(false);
        }
    }
}

/// Pushing a batch onto a full buffer, while the write cursor stays short
/// of the wrap point, slides the window: the oldest values fall away and
/// the batch is appended.
proof fn lemma_overfill_run<T>(v: RingState<T>, vals: Seq<T>)
    requires
        v.wf(),
        v.write_epoch == v.read_epoch + 1,
        v.read <= v.write,
        v.write + vals.len() < v.capacity,
        vals.len() <= v.contents().len(),
    ensures
        v.push_all(vals).wf(),
        v.push_all(vals).contents() == v.contents().skip(vals.len() as int) + vals,
        v.push_all(vals).read == v.read,
        v.push_all(vals).read_epoch == v.read_epoch,
        v.push_all(vals).write_epoch == v.write_epoch,
        v.push_all(vals).write == v.write + vals.len(),
        v.push_all(vals).capacity == v.capacity,
    decreases vals.len(),
{
    if vals.len() == 0 {
        assert(v.push_all(vals).contents() =~= v.contents().skip(0) + vals);
    } else {
        let n = vals.len() as int;
        let prev = v.push_all(vals.drop_last());
        lemma_overfill_run(v, vals.drop_last());
        lemma_push_full(prev, vals.last());
        assert(v.push_all(vals).contents() =~= v.contents().skip(n) + vals);
    }
}

/// Constructing a buffer and immediately popping yields nothing, for any
/// positive capacity.
pub proof fn lemma_fresh_pop_yields_nothing<T>(capacity: int)
    requires
        1 <= capacity,
    ensures
        RingState::<T>::fresh(capacity).wf(),
        RingState::<T>::fresh(capacity).pop_result() is None,
        RingState::<T>::fresh(capacity).contents() == Seq::<T>::empty(),
{
}

/// After a clear, whatever came before it, the buffer is empty and the
/// next pop returns nothing.
pub proof fn lemma_clear_discards_everything<T>(v: RingState<T>)
    requires
        v.wf(),
    ensures
        v.clear_state().wf(),
        v.clear_state().is_empty(),
        v.clear_state().pop_result() is None,
        v.clear_state().contents() == Seq::<T>::empty(),
{
}

/// Pushing exactly `capacity` values into an empty buffer and draining
/// yields them all, in their original order.
pub proof fn lemma_fill_to_capacity_keeps_order<T>(v: RingState<T>, vals: Seq<T>)
    requires
        v.wf(),
        v.is_empty(),
        vals.len() == v.capacity,
    ensures
        v.push_all(vals).wf(),
        v.push_all(vals).contents() == vals,
{
    lemma_fill(v, vals);
}

/// Writing at most `capacity` bytes into an empty byte buffer and draining
/// round-trips them: the contents afterwards are exactly the written
/// bytes, in order.
pub proof fn lemma_write_within_capacity_round_trips(v: RingState<u8>, bytes: Seq<u8>)
    requires
        v.wf(),
        v.is_empty(),
        bytes.len() <= v.capacity,
    ensures
        v.push_all(bytes).wf(),
        v.push_all(bytes).contents() == bytes,
{
    lemma_fill(v, bytes);
}

/// Overfilling a rewound buffer (fresh or just cleared) by fewer than
/// `capacity` extra values makes the oldest excess values unrecoverable:
/// draining yields exactly the newest `capacity` values, oldest of the
/// retained set first.
pub proof fn lemma_overfill_keeps_latest<T>(v: RingState<T>, vals: Seq<T>)
    requires
        v.wf(),
        v.is_rewound(),
        v.capacity < vals.len(),
        vals.len() < 2 * v.capacity,
    ensures
        v.push_all(vals).wf(),
        v.push_all(vals).contents() == vals.skip(vals.len() - v.capacity),
{
    let c = v.capacity;
    let head = vals.take(c);
    let tail = vals.skip(c);
    lemma_push_all_app(v, head, tail);
    assert(head + tail =~= vals);
    let mid = v.push_all(head);
    lemma_fill(v, head);
    lemma_overfill_run(mid, tail);
    assert(mid.contents().skip(tail.len() as int) + tail =~= vals.skip(vals.len() - c));
}

} // verus!
