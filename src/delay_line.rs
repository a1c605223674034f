//! A fixed-capacity circular sample buffer: the delay of a Karplus-Strong
//! resonator loop.
//!
//! Each sample the resonator first taps the buffer at the current delay, then
//! pushes the sample it computed. The line is generic in the sample type; the
//! arithmetic of the feedback path belongs to the caller.
use vstd::prelude::*;
use vstd::arithmetic::div_mod::{lemma_small_mod, lemma_mod_sub_multiples_vanish};

verus! {

/// The capacity of the resonator's delay line, in samples (about 93 ms at 44.1 kHz).
pub const MAX_DELAY: usize = 4096;

/// What a delay line holds: its samples and its two cursors.
pub struct LineModel<T> {
    pub samples: Seq<T>,
    pub write: int,
    pub read: int,
}

/// The delay actually applied for a requested `delay`: at most `capacity - 1`.
pub open spec fn clamp_delay(delay: int, capacity: int) -> int {
    if delay < capacity {
        delay
    } else {
        capacity - 1
    }
}

/// The position `delay` samples (clamped) behind the write cursor.
pub open spec fn read_index(write: int, capacity: int, delay: int) -> int {
    (write + capacity - clamp_delay(delay, capacity)) % capacity
}

impl<T> LineModel<T> {
    pub open spec fn capacity(self) -> int {
        self.samples.len() as int
    }

    pub open spec fn wf(self) -> bool {
        &&& self.capacity() > 0
        &&& 0 <= self.write < self.capacity()
        &&& 0 <= self.read < self.capacity()
    }

    /// The line after a tap at `delay`: the read cursor moves, the samples stay.
    pub open spec fn tapped(self, delay: int) -> LineModel<T> {
        LineModel { read: read_index(self.write, self.capacity(), delay), ..self }
    }

    /// The sample that a tap at `delay` reads.
    pub open spec fn tap_value(self, delay: int) -> T {
        self.samples[read_index(self.write, self.capacity(), delay)]
    }

    /// The line after `x` is written at the write cursor and the cursor moves on.
    pub open spec fn pushed(self, x: T) -> LineModel<T> {
        LineModel {
            samples: self.samples.update(self.write, x),
            write: (self.write + 1) % self.capacity(),
            read: self.read,
        }
    }

    /// The line after each of `xs` is pushed, in order.
    pub open spec fn push_all(self, xs: Seq<T>) -> LineModel<T>
        decreases xs.len(),
    {
        if xs.len() == 0 {
            self
        } else {
            self.pushed(xs[0]).push_all(xs.drop_first())
        }
    }

    /// How many pushes ago position `i` was written: the newest sample has age 0.
    pub open spec fn age(self, i: int) -> int {
        if i < self.write {
            self.write - 1 - i
        } else {
            self.write - 1 - i + self.capacity()
        }
    }
}

/// A remainder of a value below twice the divisor.
proof fn lemma_mod_below_twice(a: int, m: int)
    requires
        0 < m,
        0 <= a < 2 * m,
    ensures
        a % m == if a < m { a } else { a - m },
{
    if a < m {
        lemma_small_mod(a as nat, m as nat);
    } else {
        lemma_mod_sub_multiples_vanish(a, m);
        lemma_small_mod((a - m) as nat, m as nat);
    }
}

/// A fixed-capacity circular buffer of samples with a write and a read cursor.
pub struct DelayLine<T> {
    buffer: Vec<T>,
    write_cursor: usize,
    read_cursor: usize,
}

impl<T> View for DelayLine<T> {
    type V = LineModel<T>;

    closed spec fn view(&self) -> LineModel<T> {
        LineModel {
            samples: self.buffer@,
            write: self.write_cursor as int,
            read: self.read_cursor as int,
        }
    }
}

impl<T> DelayLine<T> {
    /// One sample at least, and both cursors inside the buffer: every
    /// operation keeps it.
    pub open spec fn wf(&self) -> bool {
        self@.wf()
    }
}

impl<T: Copy> DelayLine<T> {
    /// A line of `capacity` samples that all equal `zero`, both cursors at 0.
    pub fn new(capacity: usize, zero: T) -> (r: DelayLine<T>)
        requires
            capacity > 0,
        ensures
            r@.samples == Seq::new(capacity as nat, |i: int| zero),
            r@.write == 0,
            r@.read == 0,
            r@.wf(),
    {
        let mut buffer: Vec<T> = Vec::new();
        let mut i: usize = 0;
        while i < capacity
            invariant
                i <= capacity,
                buffer@ == Seq::new(i as nat, |j: int| zero),
            decreases capacity - i,
        {
            buffer.push(zero);
            i = i + 1;
            assert(buffer@ =~= Seq::new(i as nat, |j: int| zero));
        }
        DelayLine { buffer, write_cursor: 0, read_cursor: 0 }
    }

    pub fn capacity(&self) -> (r: usize)
        ensures
            r == self@.capacity(),
    {
        self.buffer.len()
    }

    pub fn write_position(&self) -> (r: usize)
        ensures
            r == self@.write,
    {
        self.write_cursor
    }

    pub fn read_position(&self) -> (r: usize)
        ensures
            r == self@.read,
    {
        self.read_cursor
    }

    /// Points the read cursor `delay` samples (at most capacity − 1) behind the
    /// write cursor and returns the sample found there.
    pub fn tap(&mut self, delay: usize) -> (r: T)
        requires
            old(self).wf(),
        ensures
            final(self)@ == old(self)@.tapped(delay as int),
            final(self)@.wf(),
            r == old(self)@.tap_value(delay as int),
    {
        let capacity = self.buffer.len();
        let d = if delay < capacity {
            delay
        } else {
            capacity - 1
        };
        let index = if self.write_cursor >= d {
            self.write_cursor - d
        } else {
            self.write_cursor + (capacity - d)
        };
        proof {
            lemma_mod_below_twice(self.write_cursor + capacity - d, capacity as int);
        }
        self.read_cursor = index;
        self.buffer[index]
    }

    /// Writes `x` at the write cursor and moves the cursor on by one, wrapping.
    pub fn push(&mut self, x: T)
        requires
            old(self).wf(),
        ensures
            final(self)@ == old(self)@.pushed(x),
            final(self)@.wf(),
    {
        let w = self.write_cursor;
        let capacity = self.buffer.len();
        self.buffer.set(w, x);
        let next = if w == capacity - 1 {
            0
        } else {
            w + 1
        };
        proof {
            lemma_mod_below_twice(w + 1, capacity as int);
        }
        self.write_cursor = next;
    }

    /// Sets every sample to `zero` in place and both cursors to 0; the capacity
    /// is kept and nothing is allocated.
    pub fn reset(&mut self, zero: T)
        requires
            old(self).wf(),
        ensures
            final(self)@.samples == Seq::new(old(self)@.capacity() as nat, |i: int| zero),
            final(self)@.write == 0,
            final(self)@.read == 0,
            final(self)@.wf(),
    {
        let capacity = self.buffer.len();
        let mut i: usize = 0;
        while i < capacity
            invariant
                i <= capacity,
                capacity == old(self)@.capacity(),
                self.buffer@.len() == capacity,
                forall|j: int| 0 <= j < i ==> #[trigger] self.buffer@[j] == zero,
            decreases capacity - i,
        {
            self.buffer.set(i, zero);
            i = i + 1;
        }
        assert(self.buffer@ =~= Seq::new(capacity as nat, |j: int| zero));
        self.write_cursor = 0;
        self.read_cursor = 0;
    }
}

/// A push makes the written position the newest and ages every other one by one.
proof fn lemma_push_ages<T>(m: LineModel<T>, x: T, i: int)
    requires
        m.wf(),
        0 <= i < m.capacity(),
    ensures
        m.pushed(x).wf(),
        m.pushed(x).capacity() == m.capacity(),
        m.pushed(x).age(i) == if i == m.write { 0 } else { m.age(i) + 1 },
{
    lemma_mod_below_twice(m.write + 1, m.capacity());
}

/// Pushes keep a sample as long as it is not the oldest when a push comes.
proof fn lemma_push_all_keeps<T>(m: LineModel<T>, xs: Seq<T>, p: int)
    requires
        m.wf(),
        0 <= p < m.capacity(),
        m.age(p) + xs.len() <= m.capacity() - 1,
    ensures
        m.push_all(xs).wf(),
        m.push_all(xs).capacity() == m.capacity(),
        m.push_all(xs).samples[p] == m.samples[p],
        m.push_all(xs).age(p) == m.age(p) + xs.len(),
    decreases xs.len(),
{
    if xs.len() > 0 {
        lemma_push_ages(m, xs[0], p);
        lemma_push_all_keeps(m.pushed(xs[0]), xs.drop_first(), p);
    }
}

/// A tap at a delay between 1 and capacity − 1 reads the sample pushed that
/// many pushes ago.
proof fn lemma_tap_age<T>(m: LineModel<T>, delay: int)
    requires
        m.wf(),
        1 <= delay < m.capacity(),
    ensures
        0 <= read_index(m.write, m.capacity(), delay) < m.capacity(),
        m.age(read_index(m.write, m.capacity(), delay)) == delay - 1,
{
    lemma_mod_below_twice(m.write + m.capacity() - delay, m.capacity());
}

/// A sample pushed now comes back from a tap at `delay` exactly `delay` samples
/// later, whatever is pushed in between, for every delay from 1 to capacity − 1.
pub proof fn lemma_round_trip<T>(m: LineModel<T>, x: T, between: Seq<T>, delay: int)
    requires
        m.wf(),
        1 <= delay < m.capacity(),
        between.len() == delay - 1,
    ensures
        m.pushed(x).push_all(between).tap_value(delay) == x,
{
    let p = m.write;
    let m1 = m.pushed(x);
    lemma_push_ages(m, x, p);
    lemma_push_all_keeps(m1, between, p);
    let m2 = m1.push_all(between);
    lemma_tap_age(m2, delay);
    let k = read_index(m2.write, m2.capacity(), delay);
    assert(k == p);
}

} // verus!
