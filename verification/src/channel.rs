//! Hand-off of the activity level from the detector to the playback loop.
//!
//! The channel is a mailbox with room for one level. Sending never waits:
//! a level that has not been collected is replaced by the newer one, since
//! only the most recent level matters to the reader. Receiving never waits
//! either: it takes the pending level, or reports that there is none.
//!
//! [`ActivityChannel`] is the mailbox in the hands of one owner, and the
//! laws of this module say what any interleaving of sends and polls leads
//! to. [`crate::shared::SharedActivityChannel`] is the same mailbox for a
//! writer and a reader on different threads.

use vstd::prelude::*;

verus! {

/// Latest-value mailbox for activity levels. Its view is the pending level.
#[derive(Debug)]
pub struct ActivityChannel {
    pending: Option<bool>,
}

impl View for ActivityChannel {
    type V = Option<bool>;

    closed spec fn view(&self) -> Option<bool> {
        self.pending
    }
}

impl ActivityChannel {
    /// An empty channel.
    pub fn new() -> (channel: ActivityChannel)
        ensures
            channel@.is_none(),
    {
        ActivityChannel { pending: None }
    }

    /// Makes `level` the pending level, replacing one not yet collected.
    pub fn send(&mut self, level: bool)
        ensures
            final(self)@ == Some(level),
    {
        self.pending = Some(level);
    }

    /// Collects the pending level, if there is one, and empties the channel.
    pub fn try_recv(&mut self) -> (level: Option<bool>)
        ensures
            level == old(self)@,
            final(self)@.is_none(),
    {
        let level = self.pending;
        self.pending = None;
        level
    }
}

/// The level a reader holds after a poll that returned `polled`: the level
/// received, or the level held before if nothing was pending.
pub open spec fn observe_level(current: bool, polled: Option<bool>) -> bool {
    match polled {
        Some(level) => level,
        None => current,
    }
}

/// One operation on the channel: the writer sends a level, or the reader
/// polls and takes over what it receives.
pub enum ChannelOp {
    Send(bool),
    Poll,
}

/// The channel together with the level its reader holds.
pub struct Handoff {
    pub pending: Option<bool>,
    pub level: bool,
}

impl Handoff {
    /// State after one operation.
    pub open spec fn apply(self, op: ChannelOp) -> Handoff {
        match op {
            ChannelOp::Send(level) => Handoff { pending: Some(level), level: self.level },
            ChannelOp::Poll => Handoff {
                pending: None,
                level: observe_level(self.level, self.pending),
            },
        }
    }

    /// State after a sequence of operations, first to last.
    pub open spec fn run(self, ops: Seq<ChannelOp>) -> Handoff
        decreases ops.len(),
    {
        if ops.len() == 0 {
            self
        } else {
            self.run(ops.drop_last()).apply(ops.last())
        }
    }

    /// The level the reader holds once it has polled again.
    pub open spec fn settled(self) -> bool {
        self.apply(ChannelOp::Poll).level
    }

    /// The levels the reader receives during a sequence of operations, in
    /// the order of its polls.
    pub open spec fn received(self, ops: Seq<ChannelOp>) -> Seq<bool>
        decreases ops.len(),
    {
        if ops.len() == 0 {
            Seq::empty()
        } else {
            let earlier = self.received(ops.drop_last());
            match (ops.last(), self.run(ops.drop_last()).pending) {
                (ChannelOp::Poll, Some(level)) => earlier.push(level),
                _ => earlier,
            }
        }
    }

    /// The levels offered to the reader by a sequence of operations, in
    /// order: the level pending at the start, if any, then the levels sent.
    pub open spec fn offered(self, ops: Seq<ChannelOp>) -> Seq<bool> {
        match self.pending {
            Some(level) => seq![level] + sent(ops),
            None => sent(ops),
        }
    }
}

/// The levels sent in a sequence of operations, in order.
pub open spec fn sent(ops: Seq<ChannelOp>) -> Seq<bool>
    decreases ops.len(),
{
    if ops.len() == 0 {
        Seq::empty()
    } else {
        match ops.last() {
            ChannelOp::Send(level) => sent(ops.drop_last()).push(level),
            ChannelOp::Poll => sent(ops.drop_last()),
        }
    }
}

/// Whether `part` is what remains of `whole` when some of its elements are
/// left out, the others keeping their order.
pub open spec fn is_subsequence(part: Seq<bool>, whole: Seq<bool>) -> bool
    decreases whole.len(),
{
    part.len() == 0 || (whole.len() > 0 && (is_subsequence(part, whole.drop_last()) || (part.last()
        == whole.last() && is_subsequence(part.drop_last(), whole.drop_last()))))
}

/// The level sent last in `ops`, or `fallback` if none was sent.
pub open spec fn latest_sent(ops: Seq<ChannelOp>, fallback: bool) -> bool
    decreases ops.len(),
{
    if ops.len() == 0 {
        fallback
    } else {
        match ops.last() {
            ChannelOp::Send(level) => level,
            ChannelOp::Poll => latest_sent(ops.drop_last(), fallback),
        }
    }
}

/// However sends and polls interleave, a reader that polls once more holds
/// the level sent last; if nothing was sent it holds what it would have
/// held at the start.
pub proof fn lemma_reader_settles_on_latest(start: Handoff, ops: Seq<ChannelOp>)
    ensures
        start.run(ops).settled() == latest_sent(ops, start.settled()),
    decreases ops.len(),
{
    if ops.len() > 0 {
        lemma_reader_settles_on_latest(start, ops.drop_last());
    }
}

/// What is received so far leaves out the pending level: the levels
/// received are a subsequence of the levels offered before the pending one,
/// which is the last offered.
proof fn lemma_received_before_pending(start: Handoff, ops: Seq<ChannelOp>)
    ensures
        match start.run(ops).pending {
            Some(level) => {
                &&& start.offered(ops).len() > 0
                &&& start.offered(ops).last() == level
                &&& is_subsequence(start.received(ops), start.offered(ops).drop_last())
            },
            None => is_subsequence(start.received(ops), start.offered(ops)),
        },
    decreases ops.len(),
{
    if ops.len() == 0 {
        match start.pending {
            Some(level) => {
                assert(start.offered(ops) =~= seq![level]);
            },
            None => {},
        }
    } else {
        let head = ops.drop_last();
        lemma_received_before_pending(start, head);
        let before = start.offered(head);
        let received = start.received(head);
        match ops.last() {
            ChannelOp::Send(level) => {
                assert(start.offered(ops) =~= before.push(level));
                assert(start.offered(ops).drop_last() =~= before);
            },
            ChannelOp::Poll => {
                assert(start.offered(ops) =~= before);
                match start.run(head).pending {
                    Some(level) => {
                        assert(received.push(level).drop_last() =~= received);
                    },
                    None => {},
                }
            },
        }
    }
}

/// The reader receives levels in the order in which they were sent: what
/// it receives is a subsequence of what was offered. A level may be left
/// out, but none is received twice, and none after a newer one.
pub proof fn lemma_received_in_order(start: Handoff, ops: Seq<ChannelOp>)
    ensures
        is_subsequence(start.received(ops), start.offered(ops)),
{
    lemma_received_before_pending(start, ops);
}

} // verus!
