use vstd::prelude::*;

verus! {

/// A normalized input event. The native event source's raw events are turned
/// into these by the caller; raw events that match none of the variants are
/// dropped before they reach the core.
#[derive(Clone, Copy, Debug, PartialEq, Eq, Structural)]
pub enum Event {
    KeyDown { key: u32 },
    KeyUp { key: u32 },
    MouseMotion { x: i32, y: i32 },
    MouseButtonDown { button: u8 },
    MouseButtonUp { button: u8 },
    Quit,
}

/// A first-in-first-out queue of normalized input events. Events are appended
/// as they arrive within a frame and consumed strictly in arrival order.
pub struct EventQueue {
    items: Vec<Event>,
}

impl View for EventQueue {
    type V = Seq<Event>;

    closed spec fn view(&self) -> Seq<Event> {
        self.items@
    }
}

impl EventQueue {
    pub fn new() -> (q: EventQueue)
        ensures
            q@ == Seq::<Event>::empty(),
    {
        let q = EventQueue { items: Vec::new() };
        proof {
            assert(q@ =~= Seq::<Event>::empty());
        }
        q
    }

    /// Append an event at the tail.
    pub fn push(&mut self, ev: Event)
        ensures
            final(self)@ == old(self)@.push(ev),
    {
        self.items.push(ev);
    }

    /// Whether no event is waiting.
    pub fn is_empty(&self) -> (r: bool)
        ensures
            r == (self@.len() == 0),
    {
        self.items.len() == 0
    }

    /// How many events are waiting.
    pub fn len(&self) -> (r: usize)
        ensures
            r == self@.len(),
    {
        self.items.len()
    }

    /// Remove and return the event at the head: the oldest one still queued.
    /// Callers must check `is_empty` first; popping an empty queue is a
    /// precondition violation, not a recoverable condition.
    pub fn pop_front(&mut self) -> (r: Event)
        requires
            old(self)@.len() > 0,
        ensures
            r == old(self)@.first(),
            final(self)@ == old(self)@.drop_first(),
    {
        let ev = self.items.remove(0);
        proof {
            assert(self@ =~= old(self)@.drop_first());
        }
        ev
    }
}

/// The FIFO law: events leave the queue in the order they entered it. After
/// `n` events of a queue whose contents are `s` have been popped, the queue
/// holds `s` with its first `n` elements dropped, so the next pop returns
/// `s[n]`: the event pushed earlier always comes out before every event
/// pushed after it.
pub proof fn lemma_fifo_order(s: Seq<Event>, n: int)
    requires
        0 <= n < s.len(),
    ensures
        s.skip(n).first() == s[n],
{
}

} // verus!
