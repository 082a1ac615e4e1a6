//! Fixed-capacity byte ring buffer for capping process output in memory.
//!
//! Once the buffer is full, old bytes are silently overwritten.

use vstd::prelude::*;

verus! {

/// Default capacity: 1 MiB.
pub const DEFAULT_CAPACITY: usize = 1_048_576;

/// Circular byte buffer that retains at most `capacity` bytes.
pub struct RingBuffer {
    data: Vec<u8>,
    /// Write position (index into `data`).
    head: usize,
    /// Number of valid bytes currently stored (≤ capacity).
    len: usize,
    capacity: usize,
    /// Whether bytes have been dropped because writes exceeded capacity.
    overflowed: bool,
    /// Number of bytes pushed since the buffer was made.
    total: Ghost<nat>,
}

/// The last `n` elements of `s`, or all if there are fewer.
pub open spec fn last_n(s: Seq<u8>, n: nat) -> Seq<u8> {
    if s.len() <= n {
        s
    } else {
        s.skip(s.len() - n)
    }
}

impl View for RingBuffer {
    type V = Seq<u8>;

    /// The stored bytes in chronological order.
    closed spec fn view(&self) -> Seq<u8> {
        Seq::new(self.len as nat, |i: int| self.data@[self.slot(i)])
    }
}

impl RingBuffer {
    /// Where the `i`-th stored byte lives.
    spec fn slot(self, i: int) -> int {
        let start = if self.len < self.capacity {
            0
        } else {
            self.head as int
        };
        if start + i < self.capacity {
            start + i
        } else {
            start + i - self.capacity
        }
    }

    /// The number of bytes that the buffer can hold.
    pub closed spec fn spec_capacity(self) -> nat {
        self.capacity as nat
    }

    /// Whether bytes have been dropped.
    pub closed spec fn spec_overflowed(self) -> bool {
        self.overflowed
    }

    /// The number of bytes pushed since the buffer was made.
    pub closed spec fn spec_total(self) -> nat {
        self.total@
    }

    /// Bytes were dropped just when more were pushed than fit, and all that fit
    /// are there.
    pub closed spec fn wf(self) -> bool {
        &&& self.shaped()
        &&& self.overflowed == (self.total@ > self.capacity)
        &&& self.len == if self.total@ > self.capacity {
            self.capacity as nat
        } else {
            self.total@
        }
    }

    spec fn shaped(self) -> bool {
        &&& self.data@.len() == self.capacity
        &&& self.len <= self.capacity
        &&& self.capacity > 0 ==> self.head < self.capacity
        &&& self.len < self.capacity ==> self.head == self.len
    }

    /// Create a ring buffer with the given capacity.
    pub fn new(capacity: usize) -> (r: RingBuffer)
        ensures
            r.wf(),
            r@ == Seq::<u8>::empty(),
            r.spec_capacity() == capacity,
            !r.spec_overflowed(),
            r.spec_total() == 0,
    {
        let r = RingBuffer {
            data: vec![0u8; capacity],
            head: 0,
            len: 0,
            capacity,
            overflowed: false,
            total: Ghost(0),
        };
        assert(r@ =~= Seq::<u8>::empty());
        r
    }

    /// Number of bytes currently stored.
    pub fn len(&self) -> (r: usize)
        ensures
            r == self@.len(),
    {
        self.len
    }

    /// Number of bytes that the buffer can hold.
    pub fn capacity(&self) -> (r: usize)
        ensures
            r == self.spec_capacity(),
    {
        self.capacity
    }

    fn push_byte(&mut self, b: u8)
        requires
            old(self).shaped(),
            old(self).spec_capacity() > 0,
        ensures
            final(self).shaped(),
            final(self).total == old(self).total,
            final(self)@ == last_n(old(self)@.push(b), old(self).spec_capacity()),
            final(self).spec_capacity() == old(self).spec_capacity(),
            final(self).spec_overflowed() == old(self).spec_overflowed(),
    {
        let ghost before = *self;
        let head = self.head;
        self.data.set(head, b);
        self.head = if head + 1 == self.capacity {
            0
        } else {
            head + 1
        };
        if self.len < self.capacity {
            self.len = self.len + 1;
        }
        assert(self@ =~= last_n(before@.push(b), before.capacity as nat));
    }

    /// Append `bytes` to the buffer. Of all bytes, only the last `capacity`
    /// are kept.
    pub fn push(&mut self, bytes: &[u8])
        requires
            old(self).wf(),
        ensures
            final(self).wf(),
            final(self).spec_capacity() == old(self).spec_capacity(),
            final(self).spec_total() == old(self).spec_total() + bytes@.len(),
            final(self)@ == last_n(old(self)@ + bytes@, old(self).spec_capacity()),
            final(self).spec_overflowed() == (old(self).spec_overflowed() || old(self)@.len()
                + bytes@.len() > old(self).spec_capacity()),
    {
        let ghost before = *self;
        if bytes.len() == 0 {
            assert(before@ + bytes@ =~= before@);
            assert(before@.len() == before.len);
            return;
        }
        proof {
            self.total@ = self.total@ + bytes@.len();
        }
        if self.capacity == 0 {
            self.overflowed = true;
            assert(self@ =~= last_n(before@ + bytes@, 0));
            return;
        }
        if bytes.len() > self.capacity || self.len > self.capacity - bytes.len() {
            self.overflowed = true;
        }
        let first: usize = if bytes.len() > self.capacity {
            bytes.len() - self.capacity
        } else {
            0
        };
        let ghost cap = self.capacity as nat;
        let ghost flag = self.overflowed;
        let ghost total = self.total@;
        assert(self@ =~= before@);
        let mut i: usize = first;
        assert(bytes@.subrange(first as int, first as int) =~= Seq::<u8>::empty());
        assert(before@ + Seq::<u8>::empty() =~= before@);
        while i < bytes.len()
            invariant
                first <= i <= bytes@.len(),
                self.shaped(),
                self.total@ == total,
                cap == self.capacity,
                cap > 0,
                self.overflowed == flag,
                self@ == last_n(before@ + bytes@.subrange(first as int, i as int), cap),
            decreases bytes@.len() - i,
        {
            let ghost sofar = before@ + bytes@.subrange(first as int, i as int);
            self.push_byte(bytes[i]);
            proof {
                assert(before@ + bytes@.subrange(first as int, i + 1) =~= sofar.push(
                    bytes@[i as int],
                ));
                assert(last_n(last_n(sofar, cap).push(bytes@[i as int]), cap) =~= last_n(
                    sofar.push(bytes@[i as int]),
                    cap,
                ));
            }
            i = i + 1;
        }
        proof {
            assert(last_n(before@ + bytes@.subrange(first as int, bytes@.len() as int), cap)
                =~= last_n(before@ + bytes@, cap));
            assert(self@.len() == self.len);
            assert(before@.len() == before.len);
        }
    }

    /// Return all stored bytes in chronological order.
    pub fn as_bytes(&self) -> (r: Vec<u8>)
        requires
            self.wf(),
        ensures
            r@ == self@,
    {
        let start: usize = if self.len < self.capacity {
            0
        } else {
            self.head
        };
        let mut out: Vec<u8> = Vec::new();
        let mut i: usize = 0;
        while i < self.len
            invariant
                i <= self.len,
                self.wf(),
                start == if self.len < self.capacity {
                    0
                } else {
                    self.head
                },
                out@ == self@.take(i as int),
            decreases self.len - i,
        {
            let at: usize = if i < self.capacity - start {
                start + i
            } else {
                i - (self.capacity - start)
            };
            out.push(self.data[at]);
            i = i + 1;
            assert(out@ =~= self@.take(i as int));
        }
        assert(out@ =~= self@);
        out
    }

    /// Return the last `n` bytes (or fewer if fewer are stored).
    pub fn tail(&self, n: usize) -> (r: Vec<u8>)
        requires
            self.wf(),
        ensures
            r@ == last_n(self@, n as nat),
    {
        self.tail_with_truncation(n).0
    }

    /// Return the last `n` bytes and whether older output was omitted: some
    /// byte that was ever pushed is not among them.
    pub fn tail_with_truncation(&self, n: usize) -> (r: (Vec<u8>, bool))
        requires
            self.wf(),
        ensures
            r.0@ == last_n(self@, n as nat),
            r.1 == (self.spec_overflowed() || self@.len() > n),
            r.1 == (r.0@.len() < self.spec_total()),
    {
        let all = self.as_bytes();
        let first: usize = if all.len() > n {
            all.len() - n
        } else {
            0
        };
        let mut out: Vec<u8> = Vec::new();
        let mut i: usize = first;
        while i < all.len()
            invariant
                first <= i <= all@.len(),
                out@ == all@.subrange(first as int, i as int),
            decreases all@.len() - i,
        {
            out.push(all[i]);
            i = i + 1;
            assert(out@ =~= all@.subrange(first as int, i as int));
        }
        assert(out@ =~= last_n(self@, n as nat));
        assert(self@.len() == self.len);
        (out, self.overflowed || all.len() > n)
    }
}

impl Default for RingBuffer {
    fn default() -> (r: RingBuffer)
        ensures
            r.wf(),
            r@ == Seq::<u8>::empty(),
            r.spec_capacity() == DEFAULT_CAPACITY,
            !r.spec_overflowed(),
            r.spec_total() == 0,
    {
        RingBuffer::new(DEFAULT_CAPACITY)
    }
}

/// All pieces, one after another.
pub open spec fn concat(pieces: Seq<Seq<u8>>) -> Seq<u8>
    decreases pieces.len(),
{
    if pieces.len() == 0 {
        Seq::empty()
    } else {
        concat(pieces.drop_last()) + pieces.last()
    }
}

/// What a buffer of the given capacity holds after the pieces were pushed, one
/// after another, as the contract of `push` says.
pub open spec fn after_pushes(pieces: Seq<Seq<u8>>, capacity: nat) -> Seq<u8>
    decreases pieces.len(),
{
    if pieces.len() == 0 {
        Seq::empty()
    } else {
        last_n(after_pushes(pieces.drop_last(), capacity) + pieces.last(), capacity)
    }
}

/// Whether a buffer of the given capacity has dropped bytes after the pieces
/// were pushed, one after another, as the contract of `push` says.
pub open spec fn dropped_after(pieces: Seq<Seq<u8>>, capacity: nat) -> bool
    decreases pieces.len(),
{
    pieces.len() > 0 && (dropped_after(pieces.drop_last(), capacity) || after_pushes(
        pieces.drop_last(),
        capacity,
    ).len() + pieces.last().len() > capacity)
}

/// However the output was cut into pieces, the buffer holds the last
/// `capacity` bytes of all of it.
pub proof fn lemma_keeps_last_bytes(pieces: Seq<Seq<u8>>, capacity: nat)
    ensures
        after_pushes(pieces, capacity) == last_n(concat(pieces), capacity),
    decreases pieces.len(),
{
    if pieces.len() > 0 {
        lemma_keeps_last_bytes(pieces.drop_last(), capacity);
        let whole = concat(pieces.drop_last());
        assert(last_n(last_n(whole, capacity) + pieces.last(), capacity) =~= last_n(
            whole + pieces.last(),
            capacity,
        ));
    }
}

/// However the output was cut into pieces, the last `n` bytes that the buffer
/// gives are said to be truncated just when some byte of all of it is missing
/// from them, be it overwritten or cut off by `n`.
pub proof fn lemma_truncation_told(pieces: Seq<Seq<u8>>, capacity: nat, n: nat)
    ensures
        (dropped_after(pieces, capacity) || after_pushes(pieces, capacity).len() > n) == (last_n(
            after_pushes(pieces, capacity),
            n,
        ).len() < concat(pieces).len()),
        dropped_after(pieces, capacity) == (concat(pieces).len() > capacity),
    decreases pieces.len(),
{
    lemma_keeps_last_bytes(pieces, capacity);
    if pieces.len() > 0 {
        lemma_truncation_told(pieces.drop_last(), capacity, n);
        lemma_keeps_last_bytes(pieces.drop_last(), capacity);
    }
}

} // verus!
