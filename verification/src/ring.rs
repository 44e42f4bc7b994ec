//! Index queues: fixed rings of slot numbers.

use vstd::prelude::*;

verus! {

/// Greatest depth of a pipe: the number of DMA slots a queue can own.
pub const RING: usize = 8;

/// Length of the index array behind a [`SlotRing`].
pub const Q: usize = 16;

/// Mask that reduces an index modulo [`Q`].
pub const QMASK: u8 = 15;

/// Largest number of entries a [`SlotRing`] can hold; `head == tail` means empty,
/// so one cell always stays unused.
pub open spec fn ring_capacity() -> nat {
    15
}

/// Successor of a ring index.
pub fn wrap(i: u8) -> (r: u8)
    requires
        i < 255,
    ensures
        r == (i + 1) % 16,
{
    let j: u8 = i + 1;
    assert(j & 15 == j % 16) by (bit_vector);
    j & QMASK
}

/// Number of entries between `head` and `tail`.
pub fn qlen(head: u8, tail: u8) -> (r: u8)
    ensures
        r == (tail - head) % 16,
{
    let d: u8 = tail.wrapping_sub(head);
    assert(d & 15 == d % 16) by (bit_vector);
    d & QMASK
}

/// What a ring holds after `slot` is appended.
///
/// One entry more than [`ring_capacity`] makes the tail meet the head, and the
/// ring then reads as empty. A ring whose entries are distinct slots of one pipe
/// never gets there.
pub open spec fn ring_push(s: Seq<u8>, slot: u8) -> Seq<u8> {
    if s.len() < ring_capacity() {
        s.push(slot)
    } else {
        Seq::empty()
    }
}

/// A list of slot numbers that fits a ring and names only slots of a pipe.
pub open spec fn slots_ok(s: Seq<u8>) -> bool {
    &&& s.len() <= ring_capacity()
    &&& forall|i: int| 0 <= i < s.len() ==> #[trigger] s[i] < RING
}

/// A ring of slot numbers, oldest first.
#[derive(Clone, Copy)]
pub struct SlotRing {
    cells: [u8; 16],
    head: u8,
    tail: u8,
}

impl View for SlotRing {
    type V = Seq<u8>;

    closed spec fn view(&self) -> Seq<u8> {
        Seq::new(
            ((self.tail - self.head) % 16) as nat,
            |i: int| self.cells@[(self.head + i) % 16],
        )
    }
}

/// The cells in use are not the one at the tail, and the one after them is.
proof fn lemma_cells(head: int, tail: int)
    requires
        0 <= head < 16,
        0 <= tail < 16,
    ensures
        (head + (tail - head) % 16) % 16 == tail,
        forall|i: int| 0 <= i < (tail - head) % 16 ==> #[trigger] ((head + i) % 16) != tail,
        (tail - head) % 16 < 15 ==> ((tail + 1) % 16 - head) % 16 == (tail - head) % 16 + 1,
        (tail - head) % 16 == 15 ==> ((tail + 1) % 16 - head) % 16 == 0,
{
}

impl SlotRing {
    /// Both indices are in range.
    pub closed spec fn indices_ok(&self) -> bool {
        self.head < 16 && self.tail < 16
    }

    /// The indices are in range and every entry names one of [`RING`] slots.
    pub open spec fn wf(&self) -> bool {
        self.indices_ok() && slots_ok(self@)
    }

    /// An empty ring.
    pub fn new() -> (r: Self)
        ensures
            r.wf(),
            r@ == Seq::<u8>::empty(),
    {
        SlotRing { cells: [0u8; 16], head: 0, tail: 0 }
    }

    /// A ring that holds `0, 1, .., n - 1`.
    pub fn filled(n: u8) -> (r: Self)
        requires
            n <= RING,
        ensures
            r.wf(),
            r@ == Seq::new(n as nat, |i: int| i as u8),
    {
        let mut cells: [u8; 16] = [0u8; 16];
        let mut i: u8 = 0;
        while i < n
            invariant
                i <= n <= 8,
                cells@.len() == 16,
                forall|j: int| 0 <= j < i ==> cells@[j] == j,
            decreases n - i,
        {
            cells[i as usize] = i;
            i = i + 1;
        }
        let r = SlotRing { cells, head: 0, tail: n };
        assert(r@ =~= Seq::new(n as nat, |i: int| i as u8));
        r
    }

    /// Number of entries.
    pub fn len(&self) -> (r: u8)
        requires
            self.wf(),
        ensures
            r == self@.len(),
            r <= 15,
    {
        qlen(self.head, self.tail)
    }

    /// Whether there is no entry.
    pub fn is_empty(&self) -> (r: bool)
        requires
            self.wf(),
        ensures
            r == (self@.len() == 0),
    {
        self.head == self.tail
    }

    /// The oldest entry.
    pub fn front(&self) -> (r: u8)
        requires
            self.wf(),
            self@.len() > 0,
        ensures
            r == self@[0],
            r < RING,
    {
        assert(self@[0] < RING);
        self.cells[self.head as usize]
    }

    /// Drops the oldest entry.
    pub fn advance(&mut self)
        requires
            old(self).wf(),
            old(self)@.len() > 0,
        ensures
            final(self).wf(),
            final(self)@ == old(self)@.skip(1),
    {
        self.head = wrap(self.head);
        assert(self@ =~= old(self)@.skip(1));
    }

    /// Takes the oldest entry.
    pub fn pop(&mut self) -> (r: Option<u8>)
        requires
            old(self).wf(),
        ensures
            final(self).wf(),
            r is None <==> old(self)@.len() == 0,
            r is None ==> final(self)@ == old(self)@,
            r matches Some(slot) ==> slot < RING && slot == old(self)@[0] && final(self)@
                == old(self)@.skip(1),
    {
        if self.is_empty() {
            None
        } else {
            let slot: u8 = self.front();
            self.advance();
            Some(slot)
        }
    }

    /// Appends an entry.
    pub fn push(&mut self, slot: u8)
        requires
            old(self).wf(),
            slot < RING,
        ensures
            final(self).wf(),
            final(self)@ == ring_push(old(self)@, slot),
    {
        let ghost before = *self;
        proof {
            lemma_cells(before.head as int, before.tail as int);
        }
        self.cells[self.tail as usize] = slot;
        self.tail = wrap(self.tail);
        assert forall|i: int| 0 <= i < before@.len() implies self.cells@[(before.head + i) % 16]
            == #[trigger] before@[i] by {}
        assert(before@.len() < ring_capacity() ==> self@ =~= before@.push(slot));
        assert(before@.len() == ring_capacity() ==> self@ =~= Seq::<u8>::empty());
    }
}

} // verus!
