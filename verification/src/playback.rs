//! Playback loop: one frame per tick while the activity level is active.
//!
//! The loop itself waits, polls devices and presents frames, which is the
//! caller's part. Its decisions are made here, one step at a time: after
//! draining the input events the caller reports them to
//! [`PlaybackLoop::handle_input`]; unless told to stop it polls the activity
//! channel and reports the result to [`PlaybackLoop::observe`]; if asked to
//! pull a frame it asks the frame source and reports what came back to
//! [`PlaybackLoop::frame_pulled`], which keeps the new frame for
//! presentation or ends the loop.

use crate::channel::observe_level;
use crate::frame::{Frame, FrameModel};
use vstd::prelude::*;

verus! {

/// Key code of the escape key.
pub const KEYCODE_ESCAPE: i32 = 27;

/// An input event, reduced to what the loop reacts to.
#[derive(Clone, Copy, Debug, PartialEq, Eq, Structural)]
pub enum InputEvent {
    /// The user or the system asked the program to quit.
    Quit,
    /// A key went down; `keycode` is absent for keys without a code.
    KeyDown { keycode: Option<i32> },
    /// Anything else.
    Other,
}

/// Whether an event ends the loop: a quit signal, or the escape key.
pub open spec fn is_quit_event(event: InputEvent) -> bool {
    match event {
        InputEvent::Quit => true,
        InputEvent::KeyDown { keycode } => keycode == Some(KEYCODE_ESCAPE),
        InputEvent::Other => false,
    }
}

/// Whether any of the events ends the loop.
pub open spec fn quit_requested(events: Seq<InputEvent>) -> bool {
    exists|i: int| 0 <= i < events.len() && is_quit_event(#[trigger] events[i])
}

/// A quit is requested by a sequence of events exactly when it is requested
/// by its last event or by one before it.
proof fn lemma_quit_requested_by_last(events: Seq<InputEvent>)
    requires
        events.len() > 0,
    ensures
        quit_requested(events) <==> quit_requested(events.drop_last()) || is_quit_event(
            events.last(),
        ),
{
    let earlier = events.drop_last();
    if quit_requested(events) {
        let k = choose|k: int| 0 <= k < events.len() && is_quit_event(#[trigger] events[k]);
        if k < earlier.len() {
            assert(is_quit_event(earlier[k]));
        }
    }
    if quit_requested(earlier) {
        let k = choose|k: int| 0 <= k < earlier.len() && is_quit_event(#[trigger] earlier[k]);
        assert(is_quit_event(events[k]));
    }
    if is_quit_event(events.last()) {
        assert(is_quit_event(events[events.len() - 1]));
    }
}

/// Tells whether an event ends the loop.
pub fn ends_loop(event: InputEvent) -> (quit: bool)
    ensures
        quit == is_quit_event(event),
{
    match event {
        InputEvent::Quit => true,
        InputEvent::KeyDown { keycode } => match keycode {
            Some(code) => code == KEYCODE_ESCAPE,
            None => false,
        },
        InputEvent::Other => false,
    }
}

/// What the frame source returned when asked for the next frame.
#[derive(Debug)]
pub enum FramePull {
    /// The next frame of the stream.
    Frame(Frame),
    /// The stream has no frame left.
    EndOfStream,
    /// The next frame could not be decoded.
    DecodeError,
}

/// Whether to go on with the tick after the input events.
#[derive(Clone, Copy, Debug, PartialEq, Eq, Structural)]
pub enum LoopControl {
    Continue,
    Stop,
}

/// Whether to ask the frame source for a frame in this tick.
#[derive(Clone, Copy, Debug, PartialEq, Eq, Structural)]
pub enum FrameRequest {
    Hold,
    Pull,
}

/// What to do after the frame source has answered.
#[derive(Clone, Copy, Debug, PartialEq, Eq, Structural)]
pub enum PullAction {
    /// Present the frame just pulled.
    Present,
    /// End the loop; the frame presented last stays.
    Stop,
}

/// Mathematical state of the playback loop.
pub struct PlaybackModel {
    /// False once the loop has ended.
    pub running: bool,
    /// The activity level observed last.
    pub active: bool,
    /// The frame on display.
    pub frame: FrameModel,
}

impl PlaybackModel {
    /// The loop asks the frame source exactly when it runs and is active.
    pub open spec fn wants_frame(self) -> bool {
        self.running && self.active
    }

    /// Whether a frame has the size of the frame on display.
    pub open spec fn accepts(self, frame: FrameModel) -> bool {
        frame.width == self.frame.width && frame.height == self.frame.height
    }

    /// State after the input events of a tick: a quit request ends the loop.
    pub open spec fn after_input(self, events: Seq<InputEvent>) -> PlaybackModel {
        PlaybackModel { running: self.running && !quit_requested(events), ..self }
    }

    /// State after the channel poll of a tick: a level received replaces
    /// the level held. A loop that has ended polls no more.
    pub open spec fn after_poll(self, polled: Option<bool>) -> PlaybackModel {
        if self.running {
            PlaybackModel { active: observe_level(self.active, polled), ..self }
        } else {
            self
        }
    }

    /// State after the frame source has answered: a frame replaces the one
    /// on display, anything else ends the loop.
    pub open spec fn after_pull(self, pull: FramePull) -> PlaybackModel {
        match pull {
            FramePull::Frame(frame) => PlaybackModel { frame: frame@, ..self },
            _ => PlaybackModel { running: false, ..self },
        }
    }

    /// State at the poll of a tick, after its input events and the poll.
    pub open spec fn at_poll(self, tick: Tick) -> PlaybackModel {
        self.after_input(tick.events).after_poll(tick.polled)
    }

    /// State after a whole tick: the frame source is asked only if the loop
    /// wants a frame after the poll.
    pub open spec fn tick(self, tick: Tick) -> PlaybackModel {
        if self.at_poll(tick).wants_frame() {
            self.at_poll(tick).after_pull(tick.pull)
        } else {
            self.at_poll(tick)
        }
    }

    /// State after a sequence of ticks, first to last.
    pub open spec fn run(self, ticks: Seq<Tick>) -> PlaybackModel
        decreases ticks.len(),
    {
        if ticks.len() == 0 {
            self
        } else {
            self.run(ticks.drop_last()).tick(ticks.last())
        }
    }

    /// Number of times the frame source is asked during a sequence of ticks.
    pub open spec fn pulls(self, ticks: Seq<Tick>) -> nat
        decreases ticks.len(),
    {
        if ticks.len() == 0 {
            0
        } else {
            let earlier = self.pulls(ticks.drop_last());
            if self.run(ticks.drop_last()).at_poll(ticks.last()).wants_frame() {
                earlier + 1
            } else {
                earlier
            }
        }
    }

    /// Number of ticks at whose poll the loop was still running and the most
    /// recent of all levels polled so far was active.
    pub open spec fn active_polls(self, ticks: Seq<Tick>) -> nat
        decreases ticks.len(),
    {
        if ticks.len() == 0 {
            0
        } else {
            let earlier = self.active_polls(ticks.drop_last());
            let before = self.run(ticks.drop_last());
            if before.after_input(ticks.last().events).running && level_after(
                self.active,
                polls_of(ticks),
            ) {
                earlier + 1
            } else {
                earlier
            }
        }
    }
}

/// What one tick of the loop meets: the input events it drains, the result
/// of its channel poll, and what the frame source answers if it is asked.
pub struct Tick {
    pub events: Seq<InputEvent>,
    pub polled: Option<bool>,
    pub pull: FramePull,
}

/// The poll results of a sequence of ticks.
pub open spec fn polls_of(ticks: Seq<Tick>) -> Seq<Option<bool>> {
    Seq::new(ticks.len(), |i: int| ticks[i].polled)
}

/// The most recent level among the poll results, or `initial` if no poll
/// received one.
pub open spec fn level_after(initial: bool, polls: Seq<Option<bool>>) -> bool
    decreases polls.len(),
{
    if polls.len() == 0 {
        initial
    } else {
        observe_level(level_after(initial, polls.drop_last()), polls.last())
    }
}

/// Decision state of the playback loop, with the frame on display.
#[derive(Debug)]
pub struct PlaybackLoop {
    running: bool,
    active: bool,
    frame: Frame,
}

impl View for PlaybackLoop {
    type V = PlaybackModel;

    closed spec fn view(&self) -> PlaybackModel {
        PlaybackModel { running: self.running, active: self.active, frame: self.frame@ }
    }
}

impl PlaybackLoop {
    /// A running loop that has seen no activity yet and displays the first
    /// frame of the stream.
    pub fn new(first_frame: Frame) -> (playback: PlaybackLoop)
        ensures
            playback@ == (PlaybackModel { running: true, active: false, frame: first_frame@ }),
    {
        PlaybackLoop { running: true, active: false, frame: first_frame }
    }

    /// Whether the loop has not ended.
    pub fn is_running(&self) -> (running: bool)
        ensures
            running == self@.running,
    {
        self.running
    }

    /// The activity level observed last.
    pub fn is_active(&self) -> (active: bool)
        ensures
            active == self@.active,
    {
        self.active
    }

    /// The frame on display.
    pub fn presented(&self) -> (frame: &Frame)
        ensures
            frame@ == self@.frame,
    {
        &self.frame
    }

    /// Takes the input events drained at the start of a tick and tells
    /// whether the tick goes on.
    pub fn handle_input(&mut self, events: &[InputEvent]) -> (control: LoopControl)
        ensures
            final(self)@ == old(self)@.after_input(events@),
            control == LoopControl::Stop <==> !final(self)@.running,
    {
        let mut i: usize = 0;
        let mut quit = false;
        while i < events.len()
            invariant
                i <= events.len(),
                quit <==> quit_requested(events@.take(i as int)),
            decreases events.len() - i,
        {
            let last = ends_loop(events[i]);
            proof {
                assert(events@.take(i + 1).drop_last() =~= events@.take(i as int));
                lemma_quit_requested_by_last(events@.take(i + 1));
            }
            quit = quit || last;
            i += 1;
        }
        assert(events@.take(i as int) =~= events@);
        if quit {
            self.running = false;
        }
        if self.running {
            LoopControl::Continue
        } else {
            LoopControl::Stop
        }
    }

    /// Takes the result of the non-blocking channel poll of a tick and
    /// tells whether to pull a frame.
    pub fn observe(&mut self, polled: Option<bool>) -> (request: FrameRequest)
        ensures
            final(self)@ == old(self)@.after_poll(polled),
            request == FrameRequest::Pull <==> final(self)@.wants_frame(),
    {
        if self.running {
            match polled {
                Some(level) => {
                    self.active = level;
                },
                None => {},
            }
        }
        if self.running && self.active {
            FrameRequest::Pull
        } else {
            FrameRequest::Hold
        }
    }

    /// Takes the answer of the frame source to the pull that `observe`
    /// asked for. A frame goes on display; the end of the stream or a
    /// decode failure ends the loop and leaves the display as it is.
    pub fn frame_pulled(&mut self, pull: FramePull) -> (action: PullAction)
        requires
            old(self)@.wants_frame(),
            pull matches FramePull::Frame(frame) ==> old(self)@.accepts(frame@),
        ensures
            final(self)@ == old(self)@.after_pull(pull),
            action == PullAction::Present <==> pull is Frame,
    {
        match pull {
            FramePull::Frame(frame) => {
                self.frame = frame;
                PullAction::Present
            },
            _ => {
                self.running = false;
                PullAction::Stop
            },
        }
    }
}

/// A loop that has ended stays as it is and asks for no more frames.
pub proof fn lemma_ended_loop_stays(start: PlaybackModel, ticks: Seq<Tick>)
    requires
        !start.running,
    ensures
        start.run(ticks) == start,
        start.pulls(ticks) == 0,
    decreases ticks.len(),
{
    if ticks.len() > 0 {
        lemma_ended_loop_stays(start, ticks.drop_last());
    }
}

/// While the loop runs, the level it holds is the most recent level polled.
pub proof fn lemma_level_is_latest_polled(start: PlaybackModel, ticks: Seq<Tick>)
    requires
        start.run(ticks).running,
    ensures
        start.run(ticks).active == level_after(start.active, polls_of(ticks)),
    decreases ticks.len(),
{
    if ticks.len() > 0 {
        let head = ticks.drop_last();
        assert(polls_of(ticks).drop_last() =~= polls_of(head));
        lemma_level_is_latest_polled(start, head);
    }
}

/// The frame source is asked once in every tick at whose poll the level is
/// active, and in no other: the number of pulls equals the number of ticks
/// at whose poll the loop was running with the most recent level active.
pub proof fn lemma_pulls_match_active_polls(start: PlaybackModel, ticks: Seq<Tick>)
    ensures
        start.pulls(ticks) == start.active_polls(ticks),
    decreases ticks.len(),
{
    if ticks.len() > 0 {
        let head = ticks.drop_last();
        let last = ticks.last();
        lemma_pulls_match_active_polls(start, head);
        let before = start.run(head);
        assert(polls_of(ticks).drop_last() =~= polls_of(head));
        if before.after_input(last.events).running {
            lemma_level_is_latest_polled(start, head);
        }
    }
}

/// As long as no poll receives `true`, a loop that starts inactive asks for
/// no frame and keeps the frame on display, however many ticks pass.
pub proof fn lemma_frozen_without_activity(start: PlaybackModel, ticks: Seq<Tick>)
    requires
        !start.active,
        forall|i: int| 0 <= i < ticks.len() ==> (#[trigger] ticks[i]).polled != Some(true),
    ensures
        start.pulls(ticks) == 0,
        start.run(ticks).frame == start.frame,
        !start.run(ticks).active,
    decreases ticks.len(),
{
    if ticks.len() > 0 {
        let head = ticks.drop_last();
        assert forall|i: int| 0 <= i < head.len() implies (#[trigger] head[i]).polled != Some(
            true,
        ) by {
            assert(head[i] == ticks[i]);
        }
        lemma_frozen_without_activity(start, head);
        assert(ticks.last() == ticks[ticks.len() - 1]);
    }
}

} // verus!
