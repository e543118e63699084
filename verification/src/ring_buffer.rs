use vstd::prelude::*;
use vstd::pervasive::VecAdditionalExecFns;

verus! {

/// Reduces an index `i` already known to lie in `[0, 2*cap)` into `[0, cap)`.
/// Every cursor movement in the buffer advances by at most one slot past the
/// end, so this single conditional subtraction is the whole wraparound rule.
pub open spec fn wrap_index(i: int, cap: int) -> int {
    if i < cap {
        i
    } else {
        i - cap
    }
}

/// Holds of every value that a call of `T::default()` may return.
pub open spec fn is_default_value<T: Default>(v: T) -> bool {
    call_ensures(T::default, (), v)
}

/// Replays, on a bare `(slots, cursor)` model, a run of lockstep rounds that
/// pushes and then immediately pops each value of `vs` in turn, starting
/// from a buffer whose cursors coincide at `cursor` (that is, whose `len()`
/// is zero). Each round is exactly one `push` followed by one `pop` as their
/// contracts state them: the push stores `vs[0]` at the common cursor and
/// advances the write cursor by `wrap_index`; the pop then reads that same
/// slot and advances the read cursor identically, so the two cursors stay
/// equal. The result is the final slots and the final common cursor.
pub open spec fn lockstep_state<T>(slots: Seq<T>, cursor: int, vs: Seq<T>) -> (Seq<T>, int)
    decreases vs.len(),
{
    if vs.len() == 0 {
        (slots, cursor)
    } else {
        lockstep_state(
            slots.update(cursor, vs[0]),
            wrap_index(cursor + 1, slots.len() as int),
            vs.drop_first(),
        )
    }
}

/// The values returned by the pops of the lockstep run of `lockstep_state`,
/// in the order they come back.
pub open spec fn lockstep_popped<T>(slots: Seq<T>, cursor: int, vs: Seq<T>) -> Seq<T>
    decreases vs.len(),
{
    if vs.len() == 0 {
        Seq::empty()
    } else {
        seq![slots.update(cursor, vs[0])[cursor]] + lockstep_popped(
            slots.update(cursor, vs[0]),
            wrap_index(cursor + 1, slots.len() as int),
            vs.drop_first(),
        )
    }
}

/// The FIFO law of the buffer, for every capacity `C > 0` and every run
/// length: pushing and popping in lockstep hands every value back in push
/// order, and leaves the cursors coincident and inside the buffer, so the
/// buffer again reports `len() == 0`. The run may wrap through the capacity
/// any number of times.
pub proof fn lemma_lockstep_fifo<T>(slots: Seq<T>, cursor: int, vs: Seq<T>)
    requires
        0 <= cursor < slots.len(),
    ensures
        lockstep_popped(slots, cursor, vs) == vs,
        lockstep_state(slots, cursor, vs).0.len() == slots.len(),
        0 <= lockstep_state(slots, cursor, vs).1 < slots.len(),
    decreases vs.len(),
{
    if vs.len() == 0 {
        assert(lockstep_popped(slots, cursor, vs) =~= vs);
    } else {
        let stored = slots.update(cursor, vs[0]);
        let next = wrap_index(cursor + 1, slots.len() as int);
        lemma_lockstep_fifo(stored, next, vs.drop_first());
        assert(lockstep_popped(slots, cursor, vs) =~= vs);
    }
}

/// The values handed back by the pops of a run that, for each value of `vs`
/// in turn, pops once and then pushes that value, starting from a buffer
/// whose cursors coincide at `cursor`. Each round is one `pop` followed by
/// one `push` as their contracts state them: the pop reads the slot under
/// the common cursor, the push then overwrites that same slot with the
/// round's input, and both cursors advance together by `wrap_index`. This
/// run is the streaming use of the buffer: one pop and one push per sample.
pub open spec fn delayed_output<T>(slots: Seq<T>, cursor: int, vs: Seq<T>) -> Seq<T>
    decreases vs.len(),
{
    if vs.len() == 0 {
        Seq::empty()
    } else {
        seq![slots[cursor]] + delayed_output(
            slots.update(cursor, vs[0]),
            wrap_index(cursor + 1, slots.len() as int),
            vs.drop_first(),
        )
    }
}

/// The delay-line law of the buffer, for every capacity `C > 0`: a run of
/// one pop and one push per sample first drains the `C` values the buffer
/// held at the start (the slots from the cursor onward, wrapping once), and
/// from then on reproduces the input delayed by exactly `C` samples:
/// `output[k] == vs[k - C]` for every `k >= C`. On a freshly constructed or
/// reset buffer the first `C` outputs are the default value, so the buffer
/// is a fixed delay line of length `C`.
pub proof fn lemma_delay_line<T>(slots: Seq<T>, cursor: int, vs: Seq<T>)
    requires
        0 <= cursor < slots.len(),
    ensures
        delayed_output(slots, cursor, vs).len() == vs.len(),
        forall|k: int|
            0 <= k < vs.len() && k < slots.len() ==> delayed_output(slots, cursor, vs)[k]
                == slots[wrap_index(cursor + k, slots.len() as int)],
        forall|k: int|
            slots.len() <= k < vs.len() ==> delayed_output(slots, cursor, vs)[k] == vs[k
                - slots.len()],
    decreases vs.len(),
{
    if vs.len() > 0 {
        let cap = slots.len() as int;
        let stored = slots.update(cursor, vs[0]);
        let next = wrap_index(cursor + 1, cap);
        lemma_delay_line(stored, next, vs.drop_first());
        let run = delayed_output(slots, cursor, vs);
        let rest = delayed_output(stored, next, vs.drop_first());
        assert forall|k: int| 1 <= k < vs.len() && k < cap implies run[k] == slots[wrap_index(
            cursor + k,
            cap,
        )] by {
            assert(run[k] == rest[k - 1]);
            assert(wrap_index(next + (k - 1), cap) == wrap_index(cursor + k, cap));
            assert(wrap_index(cursor + k, cap) != cursor);
        }
        if cap < vs.len() {
            assert(run[cap] == rest[cap - 1]);
            assert(wrap_index(next + (cap - 1), cap) == cursor);
            assert(run[cap] == stored[cursor]);
        }
        assert forall|k: int| cap < k < vs.len() implies run[k] == vs[k - cap] by {
            assert(run[k] == rest[k - 1]);
            assert(rest[k - 1] == vs.drop_first()[(k - 1) - cap]);
        }
    }
}

/// The values handed back by `n` successive pops with no interleaved writes,
/// starting with the read cursor at `cursor`: each pop, as its contract
/// states, reads the slot under the cursor and advances it by `wrap_index`,
/// leaving every slot in place. This run is how an oscillator consumes a
/// precomputed waveform table held in the buffer.
pub open spec fn popped_run<T>(slots: Seq<T>, cursor: int, n: nat) -> Seq<T>
    decreases n,
{
    if n == 0 {
        Seq::empty()
    } else {
        seq![slots[cursor]] + popped_run(
            slots,
            wrap_index(cursor + 1, slots.len() as int),
            (n - 1) as nat,
        )
    }
}

/// The cyclic-read law of the buffer, for every capacity `C > 0` and every
/// run length: the `k`-th of `n` successive pops returns the slot at
/// `(cursor + k) % C`, however many times the run laps the buffer. A table
/// of one waveform period, consumed this way, therefore reproduces the
/// periodic waveform seamlessly across wraparound.
pub proof fn lemma_cyclic_read<T>(slots: Seq<T>, cursor: int, n: nat)
    requires
        0 <= cursor < slots.len(),
    ensures
        popped_run(slots, cursor, n).len() == n,
        forall|k: int|
            0 <= k < n ==> popped_run(slots, cursor, n)[k] == slots[(cursor + k) % (
            slots.len() as int)],
    decreases n,
{
    if n > 0 {
        let cap = slots.len() as int;
        let next = wrap_index(cursor + 1, cap);
        lemma_cyclic_read(slots, next, (n - 1) as nat);
        let run = popped_run(slots, cursor, n);
        let rest = popped_run(slots, next, (n - 1) as nat);
        vstd::arithmetic::div_mod::lemma_small_mod(cursor as nat, cap as nat);
        vstd::arithmetic::div_mod::lemma_mod_sub_multiples_vanish(cursor + 1, cap);
        vstd::arithmetic::div_mod::lemma_small_mod(next as nat, cap as nat);
        assert forall|k: int| 1 <= k < n implies run[k] == slots[(cursor + k) % cap] by {
            assert(run[k] == rest[k - 1]);
            assert(rest[k - 1] == slots[(next + (k - 1)) % cap]);
            vstd::arithmetic::div_mod::lemma_add_mod_noop_right(k - 1, cursor + 1, cap);
        }
    }
}

/// A fixed-capacity circular store with an independent write cursor (`head`)
/// and read cursor (`tail`), both kept strictly below the capacity. `push`
/// and `pop` advance their cursor; `put`, `peek` and `get` do not. A chain of
/// one `pop` and one `push` per sample makes the buffer a fixed delay line of
/// length `capacity`.
#[derive(Clone)]
pub struct RingBuffer<T> {
    buffer: Vec<T>,
    head: usize,
    tail: usize,
}

impl<T: Copy + Default> RingBuffer<T> {
    /// The stored slots, in placement order (not in FIFO order).
    pub closed spec fn slots(&self) -> Seq<T> {
        self.buffer@
    }

    /// The write cursor.
    pub closed spec fn head_index(&self) -> int {
        self.head as int
    }

    /// The read cursor.
    pub closed spec fn tail_index(&self) -> int {
        self.tail as int
    }

    /// The fixed number of slots.
    pub open spec fn spec_capacity(&self) -> int {
        self.slots().len() as int
    }

    /// Both cursors lie inside the buffer; a zero-capacity buffer pins them
    /// at zero. Established by `new` and preserved by every method.
    pub open spec fn well_formed(&self) -> bool {
        if self.spec_capacity() == 0 {
            self.head_index() == 0 && self.tail_index() == 0
        } else {
            &&& 0 <= self.head_index() < self.spec_capacity()
            &&& 0 <= self.tail_index() < self.spec_capacity()
        }
    }

    /// Number of values currently buffered: the forward wrap-aware distance
    /// from `tail` to `head`. Always in `[0, capacity)`; a buffer whose head
    /// has lapped its tail reads as empty again.
    pub open spec fn spec_len(&self) -> int {
        if self.head_index() >= self.tail_index() {
            self.head_index() - self.tail_index()
        } else {
            self.head_index() + self.spec_capacity() - self.tail_index()
        }
    }

    /// The buffered values in FIFO order: the slot at `tail` first.
    pub open spec fn contents(&self) -> Seq<T> {
        Seq::new(
            self.spec_len() as nat,
            |i: int| self.slots()[wrap_index(self.tail_index() + i, self.spec_capacity())],
        )
    }

    /// Allocates `capacity` default-valued slots with both cursors at zero.
    pub fn new(capacity: usize) -> (result: Self)
        ensures
            result.well_formed(),
            result.spec_capacity() == capacity,
            result.head_index() == 0,
            result.tail_index() == 0,
            result.spec_len() == 0,
            forall|i: int| 0 <= i < capacity ==> is_default_value(#[trigger] result.slots()[i]),
    {
        let mut buffer: Vec<T> = Vec::new();
        while buffer.len() < capacity
            invariant
                buffer@.len() <= capacity,
                forall|i: int| 0 <= i < buffer@.len() ==> is_default_value(#[trigger] buffer@[i]),
            decreases capacity - buffer.len(),
        {
            buffer.push(T::default());
        }
        RingBuffer { buffer, head: 0, tail: 0 }
    }

    /// The fixed slot count chosen at construction.
    pub fn capacity(&self) -> (result: usize)
        ensures
            result == self.spec_capacity(),
    {
        self.buffer.len()
    }

    /// Refills every slot with the default value and rewinds both cursors,
    /// discarding all buffered history; the capacity is kept.
    pub fn reset(&mut self)
        ensures
            final(self).well_formed(),
            final(self).spec_capacity() == old(self).spec_capacity(),
            final(self).head_index() == 0,
            final(self).tail_index() == 0,
            final(self).spec_len() == 0,
            forall|i: int|
                0 <= i < final(self).spec_capacity() ==> is_default_value(
                    #[trigger] final(self).slots()[i],
                ),
    {
        let mut i: usize = 0;
        while i < self.buffer.len()
            invariant
                i <= self.buffer@.len(),
                self.buffer@.len() == old(self).spec_capacity(),
                forall|j: int| 0 <= j < i ==> is_default_value(#[trigger] self.buffer@[j]),
            decreases self.buffer.len() - i,
        {
            self.buffer.set(i, T::default());
            i = i + 1;
        }
        self.head = 0;
        self.tail = 0;
    }

    /// Overwrites the slot under the write cursor without advancing it.
    pub fn put(&mut self, value: T)
        requires
            old(self).well_formed(),
            old(self).spec_capacity() > 0,
        ensures
            final(self).well_formed(),
            final(self).slots() == old(self).slots().update(old(self).head_index(), value),
            final(self).head_index() == old(self).head_index(),
            final(self).tail_index() == old(self).tail_index(),
            final(self).spec_capacity() == old(self).spec_capacity(),
            final(self).spec_len() == old(self).spec_len(),
    {
        let head = self.head;
        self.buffer.set(head, value);
    }

    /// Reads the slot under the read cursor without advancing it.
    pub fn peek(&self) -> (result: T)
        requires
            self.well_formed(),
            self.spec_capacity() > 0,
        ensures
            result == self.slots()[self.tail_index()],
            self.spec_len() > 0 ==> result == self.contents()[0],
    {
        self.buffer[self.tail]
    }

    /// Reads the slot `offset` places past the read cursor, wrapping modulo
    /// the capacity; neither cursor moves. An offset inside the buffered
    /// region reads the FIFO contents at that position.
    pub fn get(&self, offset: usize) -> (result: T)
        requires
            self.well_formed(),
            self.spec_capacity() > 0,
            self.tail_index() + offset <= usize::MAX,
        ensures
            result == self.slots()[(self.tail_index() + offset) % self.spec_capacity()],
            offset < self.spec_len() ==> result == self.contents()[offset as int],
    {
        proof {
            if offset < self.spec_len() {
                vstd::arithmetic::div_mod::lemma_mod_sub_multiples_vanish(
                    self.tail_index() + offset,
                    self.spec_capacity(),
                );
                vstd::arithmetic::div_mod::lemma_small_mod(
                    wrap_index(self.tail_index() + offset, self.spec_capacity()) as nat,
                    self.spec_capacity() as nat,
                );
            }
        }
        self.buffer[(self.tail + offset) % self.buffer.len()]
    }

    /// Writes `value` at the write cursor and advances the cursor one slot,
    /// wrapping at the capacity. While fewer than `capacity - 1` values are
    /// buffered this appends to the FIFO contents; one further push makes the
    /// write cursor lap the read cursor and the buffer reads as empty again.
    pub fn push(&mut self, value: T)
        requires
            old(self).well_formed(),
            old(self).spec_capacity() > 0,
        ensures
            final(self).well_formed(),
            final(self).spec_capacity() == old(self).spec_capacity(),
            final(self).slots() == old(self).slots().update(old(self).head_index(), value),
            final(self).head_index() == wrap_index(
                old(self).head_index() + 1,
                old(self).spec_capacity(),
            ),
            final(self).tail_index() == old(self).tail_index(),
            old(self).spec_len() < old(self).spec_capacity() - 1 ==> {
                &&& final(self).spec_len() == old(self).spec_len() + 1
                &&& final(self).contents() == old(self).contents().push(value)
            },
            old(self).spec_len() == old(self).spec_capacity() - 1 ==> final(self).spec_len()
                == 0,
    {
        let head = self.head;
        let cap = self.buffer.len();
        self.buffer.set(head, value);
        self.head = (head + 1) % cap;
        proof {
            let cap = old(self).spec_capacity();
            let tail = old(self).tail_index();
            let oldl = old(self).spec_len();
            vstd::arithmetic::div_mod::lemma_mod_sub_multiples_vanish(
                old(self).head_index() + 1,
                cap,
            );
            vstd::arithmetic::div_mod::lemma_small_mod(
                wrap_index(old(self).head_index() + 1, cap) as nat,
                cap as nat,
            );
            if oldl < cap - 1 {
                assert forall|i: int| 0 <= i < oldl implies self.contents()[i] == old(
                    self,
                ).contents()[i] by {
                    assert(wrap_index(tail + i, cap) != old(self).head_index());
                }
                assert(self.contents()[oldl] == value);
                assert(self.contents() =~= old(self).contents().push(value));
            }
        }
    }

    /// Reads the slot under the read cursor and advances the cursor one
    /// slot, wrapping at the capacity. On a non-empty buffer this removes
    /// and returns the oldest buffered value; on an empty one it returns the
    /// slot under the cursor and the buffer reads as holding `capacity - 1`
    /// values.
    pub fn pop(&mut self) -> (result: T)
        requires
            old(self).well_formed(),
            old(self).spec_capacity() > 0,
        ensures
            final(self).well_formed(),
            final(self).spec_capacity() == old(self).spec_capacity(),
            final(self).slots() == old(self).slots(),
            final(self).head_index() == old(self).head_index(),
            final(self).tail_index() == wrap_index(
                old(self).tail_index() + 1,
                old(self).spec_capacity(),
            ),
            result == old(self).slots()[old(self).tail_index()],
            old(self).spec_len() > 0 ==> {
                &&& result == old(self).contents()[0]
                &&& final(self).spec_len() == old(self).spec_len() - 1
                &&& final(self).contents() == old(self).contents().drop_first()
            },
            old(self).spec_len() == 0 ==> final(self).spec_len() == old(self).spec_capacity()
                - 1,
    {
        let tail = self.tail;
        let cap = self.buffer.len();
        let value = self.buffer[tail];
        self.tail = (tail + 1) % cap;
        proof {
            let cap = old(self).spec_capacity();
            let tail = old(self).tail_index();
            let oldl = old(self).spec_len();
            vstd::arithmetic::div_mod::lemma_mod_sub_multiples_vanish(tail + 1, cap);
            vstd::arithmetic::div_mod::lemma_small_mod(
                wrap_index(tail + 1, cap) as nat,
                cap as nat,
            );
            if oldl > 0 {
                assert forall|i: int| 0 <= i < oldl - 1 implies self.contents()[i] == old(
                    self,
                ).contents()[i + 1] by {
                    assert(wrap_index(self.tail_index() + i, cap) == wrap_index(
                        tail + (i + 1),
                        cap,
                    ));
                }
                assert(self.contents() =~= old(self).contents().drop_first());
            }
        }
        value
    }

    /// The current read cursor.
    pub fn get_read_index(&self) -> (result: usize)
        ensures
            result == self.tail_index(),
    {
        self.tail
    }

    /// Moves the read cursor to `index`, wrapped modulo the capacity; the
    /// slots and the write cursor are untouched.
    pub fn set_read_index(&mut self, index: usize)
        requires
            old(self).well_formed(),
            old(self).spec_capacity() > 0,
        ensures
            final(self).well_formed(),
            final(self).slots() == old(self).slots(),
            final(self).head_index() == old(self).head_index(),
            final(self).spec_capacity() == old(self).spec_capacity(),
            final(self).tail_index() == index as int % old(self).spec_capacity(),
    {
        self.tail = index % self.buffer.len();
    }

    /// The current write cursor.
    pub fn get_write_index(&self) -> (result: usize)
        ensures
            result == self.head_index(),
    {
        self.head
    }

    /// Moves the write cursor to `index`, wrapped modulo the capacity; the
    /// slots and the read cursor are untouched.
    pub fn set_write_index(&mut self, index: usize)
        requires
            old(self).well_formed(),
            old(self).spec_capacity() > 0,
        ensures
            final(self).well_formed(),
            final(self).slots() == old(self).slots(),
            final(self).tail_index() == old(self).tail_index(),
            final(self).spec_capacity() == old(self).spec_capacity(),
            final(self).head_index() == index as int % old(self).spec_capacity(),
    {
        self.head = index % self.buffer.len();
    }

    /// Number of values currently buffered.
    pub fn len(&self) -> (result: usize)
        requires
            self.well_formed(),
        ensures
            result == self.spec_len(),
    {
        if self.head >= self.tail {
            self.head - self.tail
        } else {
            self.buffer.len() - (self.tail - self.head)
        }
    }
}

} // verus!
