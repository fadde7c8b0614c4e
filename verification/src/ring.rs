//! Capture ring: collects samples into fixed-size windows.
//!
//! The ring is written one sample at a time at its cursor. Each time the
//! cursor wraps to the start, the whole buffer is copied out as a completed
//! window, so a window never aliases the buffer that keeps being written.

use vstd::arithmetic::div_mod::{
    lemma_basic_div, lemma_fundamental_div_mod, lemma_fundamental_div_mod_converse,
    lemma_mod_self_0, lemma_small_mod,
};
use vstd::prelude::*;

verus! {

/// Mathematical state of a capture ring.
pub struct RingModel {
    /// Contents of the buffer; its length is the capacity.
    pub samples: Seq<i16>,
    /// Index at which the next sample is written.
    pub pos: int,
}

impl RingModel {
    /// The cursor lies inside the buffer, so the capacity is at least one.
    pub open spec fn valid(self) -> bool {
        0 <= self.pos < self.samples.len()
    }

    /// State after writing `sample` at the cursor and advancing the cursor,
    /// which goes back to the start behind the last slot.
    pub open spec fn push(self, sample: i16) -> RingModel {
        RingModel {
            samples: self.samples.update(self.pos, sample),
            pos: if self.pos + 1 == self.samples.len() {
                0
            } else {
                self.pos + 1
            },
        }
    }

    /// State after writing every sample of `input`, first to last.
    pub open spec fn feed(self, input: Seq<i16>) -> RingModel
        decreases input.len(),
    {
        if input.len() == 0 {
            self
        } else {
            self.feed(input.drop_last()).push(input.last())
        }
    }

    /// Windows completed while writing `input`, oldest first: the buffer
    /// contents at each moment the cursor came back to the start.
    pub open spec fn windows(self, input: Seq<i16>) -> Seq<Seq<i16>>
        decreases input.len(),
    {
        if input.len() == 0 {
            Seq::empty()
        } else {
            let earlier = self.windows(input.drop_last());
            let now = self.feed(input);
            if now.pos == 0 {
                earlier.push(now.samples)
            } else {
                earlier
            }
        }
    }
}

/// Fixed-capacity circular buffer of samples with a write cursor.
pub struct RingCapture {
    buffer: Vec<i16>,
    pos: usize,
}

impl View for RingCapture {
    type V = RingModel;

    closed spec fn view(&self) -> RingModel {
        RingModel { samples: self.buffer@, pos: self.pos as int }
    }
}

impl RingCapture {
    /// A ring of `capacity` zeroed samples with the cursor at the start.
    /// A ring needs room for at least one sample.
    pub fn new(capacity: usize) -> (ring: Option<RingCapture>)
        ensures
            ring.is_some() <==> capacity > 0,
            ring matches Some(r) ==> r@.valid() && r@.pos == 0 && r@.samples == Seq::new(
                capacity as nat,
                |i: int| 0i16,
            ),
    {
        if capacity == 0 {
            None
        } else {
            Some(RingCapture { buffer: vec![0i16; capacity], pos: 0 })
        }
    }

    /// Number of samples in a window.
    pub fn capacity(&self) -> (n: usize)
        ensures
            n == self@.samples.len(),
    {
        self.buffer.len()
    }

    /// Index at which the next sample will be written.
    pub fn position(&self) -> (pos: usize)
        ensures
            pos == self@.pos,
    {
        self.pos
    }

    /// Writes one sample at the cursor and advances the cursor. When the
    /// cursor wraps to the start, returns a copy of the whole buffer.
    pub fn push(&mut self, sample: i16) -> (window: Option<Vec<i16>>)
        requires
            old(self)@.valid(),
        ensures
            final(self)@ == old(self)@.push(sample),
            final(self)@.valid(),
            window.is_some() <==> final(self)@.pos == 0,
            window matches Some(w) ==> w@ == final(self)@.samples,
    {
        let len = self.buffer.len();
        self.buffer.set(self.pos, sample);
        proof {
            lemma_cursor_advances_modulo(old(self)@, sample);
        }
        self.pos = (self.pos + 1) % len;
        if self.pos == 0 {
            Some(self.buffer.clone())
        } else {
            None
        }
    }

    /// Writes a block of samples as delivered by the capture device and
    /// returns the windows completed on the way, oldest first.
    pub fn feed(&mut self, input: &[i16]) -> (completed: Vec<Vec<i16>>)
        requires
            old(self)@.valid(),
        ensures
            final(self)@ == old(self)@.feed(input@),
            final(self)@.valid(),
            completed.deep_view() == old(self)@.windows(input@),
    {
        let mut completed: Vec<Vec<i16>> = Vec::new();
        let mut i: usize = 0;
        while i < input.len()
            invariant
                i <= input.len(),
                self@.valid(),
                self@ == old(self)@.feed(input@.take(i as int)),
                completed.deep_view() =~= old(self)@.windows(input@.take(i as int)),
            decreases input.len() - i,
        {
            assert(input@.take(i + 1).drop_last() =~= input@.take(i as int));
            match self.push(input[i]) {
                Some(window) => {
                    assert(window.deep_view() =~= window@);
                    completed.push(window);
                },
                None => {},
            }
            i += 1;
        }
        assert(input@.take(i as int) =~= input@);
        completed
    }
}

/// Every write advances the cursor by one modulo the capacity.
pub proof fn lemma_cursor_advances_modulo(ring: RingModel, sample: i16)
    requires
        ring.valid(),
    ensures
        ring.push(sample).pos == (ring.pos + 1) % (ring.samples.len() as int),
{
    let n = ring.samples.len() as int;
    if ring.pos + 1 == n {
        lemma_mod_self_0(n);
    } else {
        lemma_small_mod((ring.pos + 1) as nat, n as nat);
    }
}

/// Writing into a valid ring keeps it valid and never changes its capacity.
pub proof fn lemma_feed_keeps_capacity(ring: RingModel, input: Seq<i16>)
    requires
        ring.valid(),
    ensures
        ring.feed(input).valid(),
        ring.feed(input).samples.len() == ring.samples.len(),
    decreases input.len(),
{
    if input.len() > 0 {
        lemma_feed_keeps_capacity(ring, input.drop_last());
    }
}

/// Adding one to a number moves its remainder up by one, or back to zero
/// with the quotient going up by one.
proof fn lemma_successor_div_mod(a: int, n: int)
    requires
        0 <= a,
        0 < n,
    ensures
        (a + 1) % n == if a % n + 1 == n { 0 } else { a % n + 1 },
        (a + 1) / n == if a % n + 1 == n { a / n + 1 } else { a / n },
{
    let q = a / n;
    let r = a % n;
    lemma_fundamental_div_mod(a, n);
    assert(a == q * n + r) by (nonlinear_arith)
        requires
            a == n * q + r,
    ;
    if r + 1 == n {
        assert(a + 1 == (q + 1) * n + 0) by (nonlinear_arith)
            requires
                a == q * n + r,
                r + 1 == n,
        ;
        lemma_fundamental_div_mod_converse(a + 1, n, q + 1, 0);
    } else {
        lemma_fundamental_div_mod_converse(a + 1, n, q, r + 1);
    }
}

/// From any cursor position, writing samples completes one window each time
/// the count of slots passed reaches a multiple of the capacity: the number
/// of windows and the final cursor are the quotient and the remainder of
/// the start position plus the number of samples, divided by the capacity.
pub proof fn lemma_window_count(ring: RingModel, input: Seq<i16>)
    requires
        ring.valid(),
    ensures
        ring.windows(input).len() == (ring.pos + input.len()) / (ring.samples.len() as int),
        ring.feed(input).pos == (ring.pos + input.len()) % (ring.samples.len() as int),
    decreases input.len(),
{
    let n = ring.samples.len() as int;
    if input.len() == 0 {
        lemma_small_mod(ring.pos as nat, n as nat);
        lemma_basic_div(ring.pos, n);
    } else {
        let head = input.drop_last();
        lemma_window_count(ring, head);
        lemma_feed_keeps_capacity(ring, head);
        lemma_successor_div_mod(ring.pos + head.len(), n);
    }
}

/// Starting from the cursor at the start of the buffer, writing at most one
/// window of samples overwrites the front of the buffer with them; a window
/// is completed only by the sample that fills the last slot.
proof fn lemma_fill_from_start(ring: RingModel, input: Seq<i16>)
    requires
        ring.valid(),
        ring.pos == 0,
        input.len() <= ring.samples.len(),
    ensures
        ring.feed(input).pos == if input.len() == ring.samples.len() { 0 } else { input.len() as int },
        ring.feed(input).samples == input + ring.samples.skip(input.len() as int),
        input.len() < ring.samples.len() ==> ring.windows(input) == Seq::<Seq<i16>>::empty(),
        input.len() == ring.samples.len() ==> ring.windows(input) == seq![input],
    decreases input.len(),
{
    if input.len() > 0 {
        lemma_fill_from_start(ring, input.drop_last());
    }
}

/// Feeding exactly one window of samples to a ring whose cursor is at the
/// start yields exactly one window, holding those samples in order, and
/// leaves the cursor at the start again.
pub proof fn lemma_full_window(ring: RingModel, input: Seq<i16>)
    requires
        ring.valid(),
        ring.pos == 0,
        input.len() == ring.samples.len(),
    ensures
        ring.windows(input) == seq![input],
        ring.feed(input).samples == input,
        ring.feed(input).pos == 0,
{
    lemma_fill_from_start(ring, input);
}

/// Feeding fewer samples than a window holds to a ring whose cursor is at
/// the start yields no window; the cursor stands behind the last sample
/// written and the samples written are the front of the buffer.
pub proof fn lemma_partial_window(ring: RingModel, input: Seq<i16>)
    requires
        ring.valid(),
        ring.pos == 0,
        input.len() < ring.samples.len(),
    ensures
        ring.windows(input).len() == 0,
        ring.feed(input).pos == input.len(),
        ring.feed(input).samples.take(input.len() as int) == input,
        ring.feed(input).samples.skip(input.len() as int) == ring.samples.skip(input.len() as int),
{
    lemma_fill_from_start(ring, input);
}

} // verus!
