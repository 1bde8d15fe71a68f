//! Single-producer single-consumer ring buffer of audio samples.
//!
//! Samples are stored as the raw bit patterns of `f32` values (`f32::to_bits`),
//! so a stored `0` is positive zero, that is, silence. The producer appends at
//! the tail and the consumer takes from the head; the oldest sample is always
//! read first.

use vstd::prelude::*;

verus! {

/// Minimum ring buffer capacity in samples.
pub const MIN_CAPACITY: usize = 1024;

/// `n` is a power of two.
pub open spec fn is_power_of_two(n: nat) -> bool
    decreases n,
{
    if n <= 1 {
        n == 1
    } else {
        n % 2 == 0 && is_power_of_two(n / 2)
    }
}

/// The capacity that a buffer asked for `min_samples` gets: the smallest power
/// of two that is at least `max(min_samples, MIN_CAPACITY)`.
pub open spec fn is_capacity_for(cap: nat, min_samples: nat) -> bool {
    let want = if min_samples > MIN_CAPACITY { min_samples } else { MIN_CAPACITY as nat };
    &&& is_power_of_two(cap)
    &&& cap >= want
    &&& (cap == MIN_CAPACITY || cap / 2 < want)
}

/// Physical slot of logical position `k` for a buffer whose oldest sample is
/// in slot `head`.
pub open spec fn slot(head: int, k: int, cap: int) -> int {
    if head + k < cap {
        head + k
    } else {
        head + k - cap
    }
}

/// What a write of `data` leaves in a queue `q` of capacity `cap`: as many
/// samples of `data` as fit are appended, in order.
pub open spec fn after_write(q: Seq<u32>, cap: nat, data: Seq<u32>) -> Seq<u32> {
    q + data.take(written_count(q.len(), cap, data.len()) as int)
}

/// How many samples a write of `n` samples stores into a queue holding `len`.
pub open spec fn written_count(len: nat, cap: nat, n: nat) -> nat {
    if n <= cap - len {
        n
    } else {
        (cap - len) as nat
    }
}

/// How many samples a read of up to `n` samples takes from a queue holding `len`.
pub open spec fn read_count(len: nat, n: nat) -> nat {
    if n <= len {
        n
    } else {
        len
    }
}

/// How many queued samples an overwriting write of `n` samples drops.
pub open spec fn overwritten_count(len: nat, cap: nat, n: nat) -> nat {
    if len + n > cap {
        (len + n - cap) as nat
    } else {
        0
    }
}

/// Single-producer, single-consumer ring buffer of interleaved audio samples,
/// held as a plain value: the producer and the consumer reach it through
/// `&mut` in turn, so no atomics or locks are involved.
pub struct RingBufferInner {
    data: Vec<u32>,
    capacity: usize,
    head: usize,
    len: usize,
}

impl RingBufferInner {
    /// The samples in the buffer, oldest first.
    pub closed spec fn view(&self) -> Seq<u32> {
        Seq::new(
            self.len as nat,
            |k: int| self.data@[slot(self.head as int, k, self.capacity as int)],
        )
    }

    /// The storage behind the buffer, slot by slot.
    pub closed spec fn storage(&self) -> Seq<u32> {
        self.data@
    }

    /// The number of samples the buffer holds at most.
    pub closed spec fn spec_capacity(&self) -> nat {
        self.capacity as nat
    }

    /// The buffer's internal invariant.
    pub closed spec fn wf(&self) -> bool {
        &&& is_power_of_two(self.capacity as nat)
        &&& MIN_CAPACITY <= self.capacity <= usize::MAX / 16
        &&& self.data@.len() == self.capacity
        &&& self.head < self.capacity
        &&& self.len <= self.capacity
    }

    /// Create a new ring buffer with at least `min_samples` capacity, rounded
    /// up to a power of two, and never below `MIN_CAPACITY`.
    pub fn new(min_samples: usize) -> (r: Self)
        requires
            min_samples <= usize::MAX / 32,
        ensures
            r.wf(),
            r@ == Seq::<u32>::empty(),
            is_capacity_for(r.spec_capacity(), min_samples as nat),
            r.storage() == Seq::new(r.spec_capacity(), |i: int| 0u32),
    {
        let want = if min_samples > MIN_CAPACITY { min_samples } else { MIN_CAPACITY };
        let mut cap: usize = MIN_CAPACITY;
        assert(is_power_of_two(1024)) by {
            reveal_with_fuel(is_power_of_two, 11);
        }
        while cap < want
            invariant
                MIN_CAPACITY <= cap,
                want <= usize::MAX / 32,
                cap < 2 * want,
                is_power_of_two(cap as nat),
                cap == MIN_CAPACITY || cap / 2 < want,
            decreases 2 * want - cap,
        {
            assert(is_power_of_two((2 * cap) as nat));
            cap = cap * 2;
        }
        let mut data: Vec<u32> = Vec::new();
        while data.len() < cap
            invariant
                data.len() <= cap,
                forall|i: int| 0 <= i < data.len() ==> data@[i] == 0u32,
            decreases cap - data.len(),
        {
            data.push(0u32);
        }
        let r = RingBufferInner { data, capacity: cap, head: 0, len: 0 };
        assert(r@ =~= Seq::<u32>::empty());
        assert(r.storage() =~= Seq::new(r.spec_capacity(), |i: int| 0u32));
        r
    }

    /// Capacity of the buffer in samples.
    pub fn capacity(&self) -> (r: usize)
        requires
            self.wf(),
        ensures
            r == self.spec_capacity(),
    {
        self.capacity
    }

    /// Number of samples available to read.
    pub fn available_read(&self) -> (r: usize)
        requires
            self.wf(),
        ensures
            r == self@.len(),
    {
        self.len
    }

    /// Number of samples that can be written.
    pub fn available_write(&self) -> (r: usize)
        requires
            self.wf(),
        ensures
            r == self.spec_capacity() - self@.len(),
    {
        self.capacity - self.len
    }

    /// Appends the first `n` samples of `src`; they must fit.
    fn append_front_of(&mut self, src: &[u32], n: usize)
        requires
            old(self).wf(),
            n <= src@.len(),
            old(self)@.len() + n <= old(self).spec_capacity(),
        ensures
            final(self).wf(),
            final(self).spec_capacity() == old(self).spec_capacity(),
            final(self)@ == old(self)@ + src@.take(n as int),
    {
        let ghost old_view = self@;
        let cap = self.capacity;
        let head = self.head;
        let len = self.len;
        let mut i: usize = 0;
        while i < n
            invariant
                self.wf(),
                self.capacity == cap,
                self.head == head,
                self.len == len,
                old_view.len() == len,
                len + n <= cap,
                i <= n,
                n <= src@.len(),
                forall|k: int|
                    0 <= k < len ==> #[trigger] self.data@[slot(head as int, k, cap as int)]
                        == old_view[k],
                forall|j: int|
                    0 <= j < i ==> #[trigger] self.data@[slot(head as int, len + j, cap as int)]
                        == src@[j],
            decreases n - i,
        {
            let pos = if head + len + i < cap {
                head + len + i
            } else {
                head + len + i - cap
            };
            assert(pos == slot(head as int, len + i, cap as int));
            self.data.set(pos, src[i]);
            i = i + 1;
        }
        self.len = len + n;
        assert(self@ =~= old_view + src@.take(n as int)) by {
            assert forall|k: int| 0 <= k < len + n implies #[trigger] self@[k] == (old_view
                + src@.take(n as int))[k] by {
                if k >= len {
                    assert(self.data@[slot(head as int, len + (k - len), cap as int)] == src@[k
                        - len]);
                }
            }
        }
    }

    /// Write samples into the ring buffer (producer side).
    ///
    /// Returns the number of samples actually written (less than `data.len()`
    /// when the buffer is nearly full).
    pub fn write(&mut self, data: &[u32]) -> (r: usize)
        requires
            old(self).wf(),
        ensures
            final(self).wf(),
            final(self).spec_capacity() == old(self).spec_capacity(),
            r == written_count(old(self)@.len(), old(self).spec_capacity(), data@.len()),
            final(self)@ == after_write(old(self)@, old(self).spec_capacity(), data@),
    {
        let free = self.capacity - self.len;
        let to_write = if data.len() < free {
            data.len()
        } else {
            free
        };
        self.append_front_of(data, to_write);
        to_write
    }

    /// Drops the `n` oldest samples.
    fn advance_head(&mut self, n: usize)
        requires
            old(self).wf(),
            n <= old(self)@.len(),
        ensures
            final(self).wf(),
            final(self).spec_capacity() == old(self).spec_capacity(),
            final(self).storage() == old(self).storage(),
            final(self)@ == old(self)@.skip(n as int),
    {
        let ghost old_view = self@;
        let new_head = if self.head + n < self.capacity {
            self.head + n
        } else {
            self.head + n - self.capacity
        };
        self.head = new_head;
        self.len = self.len - n;
        assert(self@ =~= old_view.skip(n as int));
    }

    /// Read samples from the ring buffer (consumer side).
    ///
    /// Returns the number of samples actually read (less than `out.len()` when
    /// fewer samples are available). The rest of `out` is left as it was.
    pub fn read(&mut self, out: &mut [u32]) -> (r: usize)
        requires
            old(self).wf(),
        ensures
            final(self).wf(),
            final(self).spec_capacity() == old(self).spec_capacity(),
            r == read_count(old(self)@.len(), old(out)@.len()),
            final(out)@ == old(self)@.take(r as int) + old(out)@.skip(r as int),
            final(self)@ == old(self)@.skip(r as int),
    {
        let to_read = if out.len() < self.len {
            out.len()
        } else {
            self.len
        };
        self.copy_front_into(out, to_read);
        self.advance_head(to_read);
        to_read
    }

    /// Force-write samples, dropping the oldest queued data when the buffer
    /// is full, so that new data is never lost.
    ///
    /// Returns the number of samples that were dropped to make room. When
    /// more samples arrive than the buffer holds, only the newest
    /// `capacity` of them are kept.
    pub fn write_overwrite(&mut self, data: &[u32]) -> (r: usize)
        requires
            old(self).wf(),
        ensures
            final(self).wf(),
            final(self).spec_capacity() == old(self).spec_capacity(),
            r == overwritten_count(old(self)@.len(), old(self).spec_capacity(), data@.len()),
            final(self)@ == (old(self)@ + data@).skip(r as int),
    {
        let ghost old_view = self@;
        let n = data.len();
        let cap = self.capacity;
        let used = self.len;
        let free = cap - used;
        let overwritten = if n > free {
            n - free
        } else {
            0
        };
        if n >= cap {
            let skip = n - cap;
            let mut j: usize = 0;
            while j < cap
                invariant
                    self.wf(),
                    self.capacity == cap,
                    n == data@.len(),
                    skip == n - cap,
                    j <= cap,
                    forall|i: int| 0 <= i < j ==> self.data@[i] == data@[skip + i],
                decreases cap - j,
            {
                self.data.set(j, data[skip + j]);
                j = j + 1;
            }
            self.head = 0;
            self.len = cap;
            assert(self@ =~= (old_view + data@).skip(overwritten as int));
        } else {
            self.advance_head(overwritten);
            let ghost mid = self@;
            assert(mid =~= old_view.skip(overwritten as int));
            self.append_front_of(data, n);
            assert(data@.take(n as int) =~= data@);
            assert(self@ =~= (old_view + data@).skip(overwritten as int));
        }
        overwritten
    }

    /// Fill `out` with samples from the ring buffer; when fewer samples are
    /// available than requested, the remainder is filled with silence (zero).
    ///
    /// Returns `true` if an underrun occurred (not enough data).
    pub fn read_or_silence(&mut self, out: &mut [u32]) -> (underrun: bool)
        requires
            old(self).wf(),
        ensures
            final(self).wf(),
            final(self).spec_capacity() == old(self).spec_capacity(),
            underrun == (old(out)@.len() > old(self)@.len()),
            final(out)@ == old(self)@.take(read_count(old(self)@.len(), old(out)@.len()) as int)
                + Seq::new(
                (old(out)@.len() - read_count(old(self)@.len(), old(out)@.len())) as nat,
                |i: int| 0u32,
            ),
            final(self)@ == old(self)@.skip(
                read_count(old(self)@.len(), old(out)@.len()) as int,
            ),
    {
        let ghost old_out = out@;
        let ghost old_view = self@;
        let to_read = if out.len() < self.len {
            out.len()
        } else {
            self.len
        };
        let underrun = to_read < out.len();
        self.copy_front_into(out, to_read);
        self.advance_head(to_read);
        let mut i = to_read;
        while i < out.len()
            invariant
                to_read <= i <= out@.len(),
                out@.len() == old_out.len(),
                to_read <= old_view.len(),
                forall|j: int| 0 <= j < to_read ==> out@[j] == old_view[j],
                forall|j: int| to_read <= j < i ==> out@[j] == 0u32,
            decreases out@.len() - i,
        {
            out[i] = 0u32;
            i = i + 1;
        }
        assert(out@ =~= old_view.take(to_read as int) + Seq::new(
            (old_out.len() - to_read) as nat,
            |i: int| 0u32,
        ));
        underrun
    }

    /// Erase every stored sample and empty the buffer.
    pub fn zeroize(&mut self)
        requires
            old(self).wf(),
        ensures
            final(self).wf(),
            final(self).spec_capacity() == old(self).spec_capacity(),
            final(self)@ == Seq::<u32>::empty(),
            final(self).storage() == Seq::new(old(self).spec_capacity(), |i: int| 0u32),
    {
        let cap = self.capacity;
        let mut j: usize = 0;
        while j < cap
            invariant
                self.wf(),
                self.capacity == cap,
                j <= cap,
                forall|i: int| 0 <= i < j ==> self.data@[i] == 0u32,
            decreases cap - j,
        {
            self.data.set(j, 0u32);
            j = j + 1;
        }
        self.head = 0;
        self.len = 0;
        assert(self@ =~= Seq::<u32>::empty());
        assert(self.storage() =~= Seq::new(cap as nat, |i: int| 0u32));
    }

    /// Copies the `n` oldest samples into the front of `out`.
    fn copy_front_into(&self, out: &mut [u32], n: usize)
        requires
            self.wf(),
            n <= self@.len(),
            n <= old(out)@.len(),
        ensures
            final(out)@ == self@.take(n as int) + old(out)@.skip(n as int),
    {
        let ghost old_out = out@;
        let mut i: usize = 0;
        while i < n
            invariant
                self.wf(),
                n <= self@.len(),
                i <= n,
                out@.len() == old_out.len(),
                n <= old_out.len(),
                forall|j: int| 0 <= j < i ==> out@[j] == self@[j],
                forall|j: int| i <= j < out@.len() ==> out@[j] == old_out[j],
            decreases n - i,
        {
            let pos = if self.head + i < self.capacity {
                self.head + i
            } else {
                self.head + i - self.capacity
            };
            out[i] = self.data[pos];
            i = i + 1;
        }
        assert(out@ =~= self@.take(n as int) + old_out.skip(n as int));
    }
}

/// A buffer never holds more samples than its capacity.
pub proof fn lemma_occupancy_bounded(rb: &RingBufferInner)
    requires
        rb.wf(),
    ensures
        rb@.len() <= rb.spec_capacity(),
{
}

/// First in, first out: samples written into a buffer with room for all of
/// them come back, after the samples already queued, in the order they were
/// written.
pub proof fn lemma_write_then_read_in_order(q: Seq<u32>, cap: nat, data: Seq<u32>)
    requires
        q.len() + data.len() <= cap,
    ensures
        after_write(q, cap, data) == q + data,
        after_write(q, cap, data).take(
            read_count(after_write(q, cap, data).len(), q.len() + data.len()) as int,
        ) == q + data,
        after_write(q, cap, data).skip(
            read_count(after_write(q, cap, data).len(), q.len() + data.len()) as int,
        ) == Seq::<u32>::empty(),
{
    assert(data.take(data.len() as int) =~= data);
    assert((q + data).take((q + data).len() as int) =~= q + data);
    assert((q + data).skip((q + data).len() as int) =~= Seq::<u32>::empty());
}

/// A plain write never grows the queue beyond the capacity and never drops
/// a queued sample.
pub proof fn lemma_write_keeps_queue(q: Seq<u32>, cap: nat, data: Seq<u32>)
    requires
        q.len() <= cap,
    ensures
        after_write(q, cap, data).len() <= cap,
        after_write(q, cap, data).take(q.len() as int) == q,
{
    assert(after_write(q, cap, data).take(q.len() as int) =~= q);
}

/// An overwriting write keeps the queue within capacity and always keeps the
/// newest samples: what remains ends with the written data, or with its last
/// `cap` samples when more than that were written.
pub proof fn lemma_overwrite_keeps_newest(q: Seq<u32>, cap: nat, data: Seq<u32>)
    requires
        q.len() <= cap,
    ensures
        ({
            let r = overwritten_count(q.len(), cap, data.len());
            let after = (q + data).skip(r as int);
            &&& after.len() <= cap
            &&& data.len() <= cap ==> after.skip(after.len() - data.len()) == data
            &&& data.len() > cap ==> after == data.skip(data.len() - cap)
        }),
{
    let r = overwritten_count(q.len(), cap, data.len());
    let after = (q + data).skip(r as int);
    if data.len() <= cap {
        assert(after.skip(after.len() - data.len()) =~= data);
    } else {
        assert(after =~= data.skip(data.len() - cap));
    }
}

} // verus!
