//! Interrupt plumbing that can be stated without the hardware: loading the
//! interrupt descriptor table, the scancode queue between the keyboard
//! interrupt handler (producer) and the main loop (consumer), and the timer
//! rate.

use vstd::prelude::*;
use x86_64::structures::idt::InterruptDescriptorTable;

verus! {

#[verifier::external_type_specification]
#[verifier::external_body]
pub struct ExInterruptDescriptorTable(InterruptDescriptorTable);

/// `InterruptDescriptorTable::load`: makes the CPU use `idt` (the `lidt`
/// instruction). It has no result, and its effect on the CPU is not modelled.
#[verifier::external_body]
fn load_idt(idt: &'static InterruptDescriptorTable) {
    idt.load();
}

/// Loads the interrupt descriptor table into the CPU. Must run during early
/// boot, before interrupts are enabled.
pub fn init_idt(idt: &'static InterruptDescriptorTable) {
    load_idt(idt);
}

/// The programmable interval timer's rate, in tenths of a hertz (18.2 Hz).
pub const TIMER_HZ_X10: u64 = 182;

/// How many scancodes the queue holds; a scancode arriving when it is full
/// is dropped.
pub const QUEUE_CAPACITY: usize = 256;

/// A fixed-size ring buffer of scancodes, first in first out.
pub struct ScancodeQueue {
    buffer: Vec<u8>,
    head: usize,
    tail: usize,
    count: usize,
}

impl View for ScancodeQueue {
    type V = Seq<u8>;

    /// The queued scancodes, oldest first.
    closed spec fn view(&self) -> Seq<u8> {
        Seq::new(self.count as nat, |i: int| self.buffer@[(self.head + i) % 256])
    }
}

impl ScancodeQueue {
    /// The ring's indices are consistent.
    pub closed spec fn wf(&self) -> bool {
        &&& self.buffer@.len() == QUEUE_CAPACITY
        &&& self.head < QUEUE_CAPACITY
        &&& self.tail < QUEUE_CAPACITY
        &&& self.count <= QUEUE_CAPACITY
        &&& self.tail == (self.head + self.count) % 256
    }

    /// An empty queue.
    pub fn new() -> (q: ScancodeQueue)
        ensures
            q.wf(),
            q@ == Seq::<u8>::empty(),
    {
        let mut buffer: Vec<u8> = Vec::new();
        let mut i: usize = 0;
        while i < QUEUE_CAPACITY
            invariant
                i <= QUEUE_CAPACITY,
                buffer@.len() == i,
            decreases QUEUE_CAPACITY - i,
        {
            buffer.push(0);
            i = i + 1;
        }
        let q = ScancodeQueue { buffer, head: 0, tail: 0, count: 0 };
        assert(q@ =~= Seq::<u8>::empty());
        q
    }

    /// The number of queued scancodes.
    pub fn len(&self) -> (r: usize)
        requires
            self.wf(),
        ensures
            r == self@.len(),
    {
        self.count
    }

    /// Appends a scancode; drops it when the queue is full.
    pub fn push(&mut self, value: u8)
        requires
            old(self).wf(),
        ensures
            final(self).wf(),
            final(self)@ == (if old(self)@.len() < QUEUE_CAPACITY {
                old(self)@.push(value)
            } else {
                old(self)@
            }),
    {
        if self.count == QUEUE_CAPACITY {
            return;
        }
        let ghost before = self@;
        self.buffer[self.tail] = value;
        self.tail = (self.tail + 1) % QUEUE_CAPACITY;
        self.count = self.count + 1;
        assert forall|i: int| 0 <= i < self.count implies #[trigger] self@[i] == before.push(value)[i] by {
            if i < self.count - 1 {
                assert((self.head + i) % 256 != old(self).tail);
            }
        }
        assert(self@ =~= before.push(value));
    }

    /// Removes and returns the oldest scancode, or `None` when empty.
    pub fn pop(&mut self) -> (r: Option<u8>)
        requires
            old(self).wf(),
        ensures
            final(self).wf(),
            old(self)@.len() == 0 ==> r is None && final(self)@ == old(self)@,
            old(self)@.len() > 0 ==> r == Some(old(self)@[0]) && final(self)@ == old(self)@.drop_first(),
    {
        if self.count == 0 {
            return None;
        }
        let ghost before = self@;
        let value = self.buffer[self.head];
        self.head = (self.head + 1) % QUEUE_CAPACITY;
        self.count = self.count - 1;
        assert forall|i: int| 0 <= i < self.count implies #[trigger] self@[i] == before.drop_first()[i] by {
            assert((self.head + i) % 256 == (old(self).head + (i + 1)) % 256);
        }
        assert(self@ =~= before.drop_first());
        Some(value)
    }
}


/// The queue is first in, first out: appending leaves the oldest scancode at
/// the front and the rest in order behind it, so what `pop` returns after a
/// `push` is the scancode that was oldest before it (or the one pushed, on an
/// empty queue).
pub proof fn lemma_queue_fifo(q: Seq<u8>, v: u8)
    ensures
        q.push(v)[0] == (if q.len() > 0 {
            q[0]
        } else {
            v
        }),
        q.len() > 0 ==> q.push(v).drop_first() == q.drop_first().push(v),
        q.len() == 0 ==> q.push(v).drop_first() == q,
{
    if q.len() > 0 {
        assert(q.push(v).drop_first() =~= q.drop_first().push(v));
    } else {
        assert(q.push(v).drop_first() =~= q);
    }
}

} // verus!
