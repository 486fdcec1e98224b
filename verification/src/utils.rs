use vstd::prelude::*;

verus! {

/// Holds when the first `n` slots of `s` have all been written.
pub open spec fn prefix_filled(s: Seq<Option<u16>>, n: int) -> bool {
    forall|i: int| 0 <= i < n ==> s[i] is Some
}

/// Sum of the values in the first `n` slots.
pub open spec fn sum_prefix(s: Seq<Option<u16>>, n: int) -> int
    decreases n,
{
    if n <= 0 {
        0
    } else {
        sum_prefix(s, n - 1) + s[n - 1]->0
    }
}

/// Smallest value among the first `n` slots (`n >= 1`).
pub open spec fn min_prefix(s: Seq<Option<u16>>, n: int) -> int
    decreases n,
{
    if n <= 1 {
        s[0]->0 as int
    } else if s[n - 1]->0 < min_prefix(s, n - 1) {
        s[n - 1]->0 as int
    } else {
        min_prefix(s, n - 1)
    }
}

/// Largest value among the first `n` slots (`n >= 1`).
pub open spec fn max_prefix(s: Seq<Option<u16>>, n: int) -> int
    decreases n,
{
    if n <= 1 {
        s[0]->0 as int
    } else if s[n - 1]->0 > max_prefix(s, n - 1) {
        s[n - 1]->0 as int
    } else {
        max_prefix(s, n - 1)
    }
}

/// Implements simple aggregations over a ring buffer.
///
/// The buffer size is fixed to avoid dynamic growth during operation. Slots
/// fill in index order; after `N` puts every slot holds a value and the
/// whole-window aggregations become available. The window statistics run
/// over the first `n` slots by buffer index, not by recency.
pub struct Agg<const N: usize> {
    data: Vec<Option<u16>>,
    next_put_at: usize,
    puts: Ghost<nat>,
}

impl<const N: usize> Agg<N> {
    /// The stored slots, by buffer index.
    pub closed spec fn slots(self) -> Seq<Option<u16>> {
        self.data@
    }

    /// The index the next put writes to.
    pub closed spec fn cursor(self) -> nat {
        self.next_put_at as nat
    }

    /// How many values have been put since construction.
    pub closed spec fn put_count(self) -> nat {
        self.puts@
    }

    /// The capacity is at least one slot, the accumulator type can hold any
    /// window sum, the cursor tracks the put count until the first wrap, and
    /// a slot holds a value exactly when enough puts have reached it.
    pub open spec fn wf(self) -> bool {
        &&& 1 <= N <= 0x10000
        &&& self.slots().len() == N as int
        &&& self.cursor() < N as nat
        &&& (self.put_count() < N as nat ==> self.cursor() == self.put_count())
        &&& forall|i: int| 0 <= i < N ==> (self.slots()[i] is Some <==> i < self.put_count())
    }

    /// Returns a new uninitialized Agg instance.
    pub fn new() -> (a: Self)
        requires
            1 <= N <= 0x10000,
        ensures
            a.wf(),
            a.put_count() == 0,
            a.slots() == Seq::new(N as nat, |i: int| None::<u16>),
    {
        let mut data: Vec<Option<u16>> = Vec::new();
        let mut i: usize = 0;
        while i < N
            invariant
                i <= N,
                data@ =~= Seq::new(i as nat, |j: int| None::<u16>),
            decreases N - i,
        {
            data.push(None);
            i = i + 1;
        }
        proof {
            assert(data@ =~= Seq::new(N as nat, |i: int| None::<u16>));
        }
        Agg { data, next_put_at: 0, puts: Ghost(0) }
    }

    /// Adds a value to the ring buffer, possibly overwriting the oldest existing value.
    pub fn put(&mut self, n: u16)
        requires
            old(self).wf(),
        ensures
            final(self).wf(),
            final(self).slots() == old(self).slots().update(old(self).cursor() as int, Some(n)),
            final(self).put_count() == old(self).put_count() + 1,
    {
        let ghost old_self = *self;
        self.data.set(self.next_put_at, Some(n));
        self.next_put_at = (self.next_put_at + 1) % N;
        proof {
            self.puts@ = old_self.put_count() + 1;
            if old_self.next_put_at + 1 < N {
                vstd::arithmetic::div_mod::lemma_small_mod(
                    (old_self.next_put_at + 1) as nat,
                    N as nat,
                );
            } else {
                vstd::arithmetic::div_mod::lemma_mod_self_0(N as int);
            }
        }
    }

    /// Returns the sum of the first n slots, widened into the accumulator type.
    /// Returns None if fewer than n values have been put since construction,
    /// or if n exceeds the capacity.
    pub fn sum_of_first(&self, n: usize) -> (r: Option<u32>)
        requires
            self.wf(),
        ensures
            r is Some <==> n <= N && n <= self.put_count(),
            r is Some ==> r->0 == sum_prefix(self.slots(), n as int),
    {
        if n > N {
            return None;
        }

        let mut sum: u32 = 0;
        let mut i: usize = 0;
        while i < n
            invariant
                self.wf(),
                i <= n <= N <= 0x10000,
                prefix_filled(self.slots(), i as int),
                sum == sum_prefix(self.slots(), i as int),
                sum <= i * 0xffff,
            decreases n - i,
        {
            match self.data[i] {
                Some(x) => {
                    sum = sum + x as u32;
                }
                None => {
                    proof {
                        assert(self.put_count() < n);
                    }
                    return None;
                }
            }
            i = i + 1;
        }
        Some(sum)
    }

    /// Returns the average of all stored values.
    /// Returns None if the buffer hasn't been fully initialized.
    pub fn avg_full(&self) -> (r: Option<u16>)
        requires
            self.wf(),
        ensures
            r is Some <==> self.put_count() >= N,
            r is Some ==> r->0 == sum_prefix(self.slots(), N as int) / (N as int),
    {
        self.avg_of_first(N)
    }

    /// Returns the average of the first n slots.
    /// Returns None if fewer than n values have been put since construction,
    /// or if n exceeds the capacity.
    pub fn avg_of_first(&self, n: usize) -> (r: Option<u16>)
        requires
            self.wf(),
            n >= 1,
        ensures
            r is Some <==> n <= N && n <= self.put_count(),
            r is Some ==> r->0 == sum_prefix(self.slots(), n as int) / (n as int),
    {
        let sum = match self.sum_of_first(n) {
            Some(sum) => sum,
            None => {
                return None;
            }
        };

        proof {
            lemma_sum_prefix_bounds(self.slots(), n as int);
            assert(sum / (n as u32) <= 0xffff) by {
                vstd::arithmetic::div_mod::lemma_div_is_ordered(
                    sum as int,
                    n * 0xffff,
                    n as int,
                );
                vstd::arithmetic::div_mod::lemma_div_multiples_vanish(0xffff, n as int);
            }
        }
        let avg = sum / (n as u32);

        Some(avg as u16)
    }

    /// Returns the smallest and the largest of the first n slots.
    /// Returns None if fewer than n values have been put since construction.
    pub fn range_of_first(&self, n: usize) -> (r: Option<(u16, u16)>)
        requires
            self.wf(),
            n <= N,
        ensures
            r is Some <==> 1 <= n <= self.put_count(),
            r is Some ==> (r->0).0 == min_prefix(self.slots(), n as int) && (r->0).1
                == max_prefix(self.slots(), n as int),
    {
        let mut min: Option<u16> = None;
        let mut max: Option<u16> = None;

        let mut i: usize = 0;
        while i < n
            invariant
                self.wf(),
                i <= n <= N,
                prefix_filled(self.slots(), i as int),
                min is Some <==> i >= 1,
                max is Some <==> i >= 1,
                i >= 1 ==> min->0 == min_prefix(self.slots(), i as int),
                i >= 1 ==> max->0 == max_prefix(self.slots(), i as int),
            decreases n - i,
        {
            match self.data[i] {
                Some(x) => {
                    match min {
                        None => {
                            min = Some(x);
                        }
                        Some(m) => {
                            if x < m {
                                min = Some(x);
                            }
                        }
                    }
                    match max {
                        None => {
                            max = Some(x);
                        }
                        Some(m) => {
                            if x > m {
                                max = Some(x);
                            }
                        }
                    }
                }
                None => {
                    proof {
                        assert(self.put_count() < n);
                    }
                    return None;
                }
            }
            i = i + 1;
        }

        match (min, max) {
            (Some(min), Some(max)) => Some((min, max)),
            _ => None,
        }
    }

    /// Returns the difference between the largest and the smallest stored values.
    /// Returns None if the buffer hasn't been fully initialized.
    pub fn amplitude_full(&self) -> (r: Option<u16>)
        requires
            self.wf(),
        ensures
            r is Some <==> self.put_count() >= N,
            r is Some ==> r->0 == max_prefix(self.slots(), N as int) - min_prefix(
                self.slots(),
                N as int,
            ),
            r is Some ==> min_prefix(self.slots(), N as int) <= max_prefix(
                self.slots(),
                N as int,
            ),
    {
        self.amplitude_of_first(N)
    }

    /// Returns the difference between the largest and the smallest of the
    /// first n slots. The difference is never negative.
    /// Returns None if fewer than n values have been put since construction.
    pub fn amplitude_of_first(&self, n: usize) -> (r: Option<u16>)
        requires
            self.wf(),
            n <= N,
        ensures
            r is Some <==> 1 <= n <= self.put_count(),
            r is Some ==> r->0 == max_prefix(self.slots(), n as int) - min_prefix(
                self.slots(),
                n as int,
            ),
            r is Some ==> min_prefix(self.slots(), n as int) <= max_prefix(self.slots(), n as int),
    {
        match self.range_of_first(n) {
            Some((min, max)) => {
                proof {
                    lemma_min_le_max(self.slots(), n as int);
                }
                Some(max - min)
            }
            None => None,
        }
    }
}

/// Every slot value is a u16, so the prefix sum is bounded by `n` times the
/// largest u16 value.
pub proof fn lemma_sum_prefix_bounds(s: Seq<Option<u16>>, n: int)
    requires
        0 <= n <= s.len(),
    ensures
        0 <= sum_prefix(s, n) <= n * 0xffff,
    decreases n,
{
    if n > 0 {
        lemma_sum_prefix_bounds(s, n - 1);
        assert((n - 1) * 0xffff + 0xffff == n * 0xffff) by (nonlinear_arith);
    }
}

/// A prefix of slots whose values all stay below a bound sums to at most
/// `n` times the bound.
pub proof fn lemma_sum_prefix_value_bound(s: Seq<Option<u16>>, n: int, bound: int)
    requires
        0 <= n <= s.len(),
        0 <= bound,
        prefix_filled(s, n),
        forall|i: int| 0 <= i < n ==> (#[trigger] s[i] matches Some(v) ==> v <= bound),
    ensures
        0 <= sum_prefix(s, n) <= n * bound,
    decreases n,
{
    if n > 0 {
        lemma_sum_prefix_value_bound(s, n - 1, bound);
        assert((n - 1) * bound + bound == n * bound) by (nonlinear_arith);
    }
}

/// The smallest value of a prefix never exceeds the largest.
pub proof fn lemma_min_le_max(s: Seq<Option<u16>>, n: int)
    requires
        1 <= n <= s.len(),
    ensures
        min_prefix(s, n) <= max_prefix(s, n),
        0 <= min_prefix(s, n) <= 0xffff,
        0 <= max_prefix(s, n) <= 0xffff,
    decreases n,
{
    if n > 1 {
        lemma_min_le_max(s, n - 1);
    }
}

/// Capacity of the telemetry byte queue.
pub const RING_SIZE: usize = 16;

/// Reduces an offset below twice the capacity back into the buffer.
pub open spec fn ring_wrap(i: int) -> int {
    if i < RING_SIZE {
        i
    } else {
        i - RING_SIZE
    }
}

/// A fixed-capacity first-in first-out byte queue.
///
/// Bytes queue up between the read cursor and the write cursor. Once the
/// queue has filled completely the two cursors coincide and reads yield
/// nothing until the queue is recreated; writing to a full queue is a
/// caller error.
pub struct Ring {
    buffer: Vec<u8>,
    next_write: usize,
    next_read: usize,
    full: bool,
}

impl Ring {
    /// The ring has filled completely.
    pub closed spec fn is_full(self) -> bool {
        self.full
    }

    /// How many bytes are queued.
    pub closed spec fn pending_len(self) -> int {
        if self.full {
            RING_SIZE as int
        } else if self.next_write >= self.next_read {
            self.next_write - self.next_read
        } else {
            self.next_write + RING_SIZE - self.next_read
        }
    }

    /// The queued bytes, oldest first.
    pub closed spec fn pending(self) -> Seq<u8> {
        Seq::new(
            self.pending_len() as nat,
            |i: int| self.buffer@[ring_wrap(self.next_read + i)],
        )
    }

    /// Both cursors stay inside the buffer, and the full flag only rises
    /// when they coincide.
    pub closed spec fn wf(self) -> bool {
        &&& self.buffer@.len() == RING_SIZE
        &&& self.next_write < RING_SIZE
        &&& self.next_read < RING_SIZE
        &&& (self.full ==> self.next_write == self.next_read)
    }

    /// Returns a new empty Ring.
    pub fn new() -> (r: Self)
        ensures
            r.wf(),
            r.pending() == Seq::<u8>::empty(),
            !r.is_full(),
    {
        let mut buffer: Vec<u8> = Vec::new();
        let mut i: usize = 0;
        while i < RING_SIZE
            invariant
                i <= RING_SIZE,
                buffer@.len() == i,
            decreases RING_SIZE - i,
        {
            buffer.push(0);
            i = i + 1;
        }
        let r = Ring { buffer, next_write: 0, next_read: 0, full: false };
        proof {
            assert(r.pending() =~= Seq::<u8>::empty());
        }
        r
    }

    /// Takes the oldest queued byte. Returns None when nothing is queued,
    /// and also once the ring has filled completely.
    pub fn read(&mut self) -> (r: Option<u8>)
        requires
            old(self).wf(),
        ensures
            final(self).wf(),
            r is Some <==> old(self).pending_len() > 0 && !old(self).is_full(),
            r is None ==> *final(self) == *old(self),
            r is Some ==> {
                &&& r->0 == old(self).pending()[0]
                &&& final(self).pending() == old(self).pending().drop_first()
                &&& !final(self).is_full()
            },
    {
        if self.next_read == self.next_write {
            return None;
        }

        let result = self.buffer[self.next_read];
        let ghost old_self = *self;
        self.next_read = (self.next_read + 1) % RING_SIZE;
        proof {
            assert(final(self).pending() =~= old_self.pending().drop_first());
        }

        Some(result)
    }

    /// Queues a byte. The ring must not have filled completely.
    pub fn write(&mut self, data: u8)
        requires
            old(self).wf(),
            !old(self).is_full(),
        ensures
            final(self).wf(),
            final(self).pending() == old(self).pending().push(data),
            final(self).is_full() <==> final(self).pending_len() == RING_SIZE,
    {
        let ghost old_self = *self;
        self.buffer.set(self.next_write, data);
        self.next_write = (self.next_write + 1) % RING_SIZE;
        self.full = self.next_write == self.next_read;
        proof {
            assert(final(self).pending() =~= old_self.pending().push(data));
        }
    }
}

} // verus!
