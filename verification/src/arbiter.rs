//! Publish arbitration: which readings are stable enough to be reported,
//! when a report may go out, and when the gateway has to give up.
//!
//! The arbiter performs no input or output. Its owner tells it what
//! happened as an [`Event`] and carries out the [`Action`] it answers with.
//! All times are microseconds of the owner's clock. The time that has
//! passed since an earlier moment is the difference of the two clock
//! readings, which is below zero after the clock has been set back.
//!
//! Two things follow from the rules and are easy to overlook. Readings are
//! compared as measurements only, so frames of two sensors that measure
//! alike count towards the same run. And a measurement is published once
//! for as long as it lasts, so one that lasts longer than the liveness
//! ceiling ends in the fatal condition.

use crate::decoder::{decode, decode_spec, DecodeError, Parsed, Reading, FRAME_LEN};
use crate::pulse::Symbol;
use vstd::prelude::*;

verus! {

/// Consecutive readings of the same measurement that make it stable.
pub const STABILITY_THRESHOLD: u8 = 3;

/// Shortest time between a successful publication and the next attempt.
pub const MIN_PUBLISH_INTERVAL_US: u64 = 5_000_000;

/// Longest time tolerated without a successful publication.
pub const LIVENESS_CEILING_US: u64 = 360_000_000;

/// Time after a successful clock resynchronization at which the next one
/// falls due.
pub const RESYNC_INTERVAL_US: u64 = 10_000_000_000;

/// Where the arbiter stands with the reading it follows.
#[derive(Clone, Copy, Debug, PartialEq, Eq, Structural)]
pub enum Stage {
    /// No reading has been seen yet.
    Unset,
    /// The candidate has been seen this many times in a row, fewer
    /// than `STABILITY_THRESHOLD`.
    Tracking(u8),
    /// The candidate is stable and its publication is still owed.
    LockedPendingPublish,
    /// The candidate is stable and has been published.
    Published,
}

/// An unrecoverable condition: the owner has to terminate abnormally and
/// leave the restart to its supervisor.
#[derive(Clone, Copy, Debug, PartialEq, Eq, Structural)]
pub enum Fatal {
    /// No time could be had from the time source at startup.
    TimeUnavailable,
    /// No publication has succeeded for longer than `LIVENESS_CEILING_US`.
    PublishStalled,
}

/// What the owner reports to the arbiter.
#[derive(Clone, Copy, Debug)]
pub enum Event {
    /// A turn of the control loop begins.
    Tick { now: u64 },
    /// The clock was set from the time source; `now` is read from the clock
    /// after that.
    Resynced { now: u64 },
    /// The time source gave no time.
    ResyncFailed { now: u64 },
    /// No frame came within the wait, or the one that came was not decoded.
    Silence,
    /// A frame was decoded.
    Reading { reading: Parsed, now: u64 },
    /// The publication asked for at time `at` went through.
    Published { at: u64 },
    /// The publication asked for did not go through.
    PublishFailed,
}

/// What the arbiter asks of its owner.
#[derive(Clone, Copy, Debug)]
pub enum Action {
    /// Nothing: go on with the next turn of the loop.
    Idle,
    /// Ask the time source, set the clock, and report `Resynced` or
    /// `ResyncFailed`.
    Resync,
    /// Wait for the next pulse run.
    Receive,
    /// Publish this reading and report `Published` with the same `at`, or
    /// `PublishFailed`.
    Publish { reading: Parsed, at: u64 },
    /// Terminate.
    Fatal(Fatal),
}

/// An event as a mathematical value.
pub enum EventView {
    Tick { now: u64 },
    Resynced { now: u64 },
    ResyncFailed { now: u64 },
    Silence,
    Reading { reading: Reading, now: u64 },
    Published { at: u64 },
    PublishFailed,
}

impl View for Event {
    type V = EventView;

    open spec fn view(&self) -> EventView {
        match *self {
            Event::Tick { now } => EventView::Tick { now },
            Event::Resynced { now } => EventView::Resynced { now },
            Event::ResyncFailed { now } => EventView::ResyncFailed { now },
            Event::Silence => EventView::Silence,
            Event::Reading { reading, now } => EventView::Reading { reading: reading@, now },
            Event::Published { at } => EventView::Published { at },
            Event::PublishFailed => EventView::PublishFailed,
        }
    }
}

/// An action as a mathematical value.
pub enum ActionView {
    Idle,
    Resync,
    Receive,
    Publish { reading: Reading, at: u64 },
    Fatal(Fatal),
}

impl View for Action {
    type V = ActionView;

    open spec fn view(&self) -> ActionView {
        match *self {
            Action::Idle => ActionView::Idle,
            Action::Resync => ActionView::Resync,
            Action::Receive => ActionView::Receive,
            Action::Publish { reading, at } => ActionView::Publish { reading: reading@, at },
            Action::Fatal(fatal) => ActionView::Fatal(fatal),
        }
    }
}

/// What became of a pulse run.
#[derive(Clone, Copy, Debug)]
pub enum Outcome {
    /// The run was no frame at all, as is expected whenever a wait ends
    /// early: nothing to act on and nothing to log.
    Dropped,
    /// The run was a frame that could not be decoded: worth a log line.
    Rejected(DecodeError),
    /// The run was decoded and the reading taken in; holds the reading and
    /// the action that it calls for.
    Accepted(Parsed, Action),
}

/// An outcome as a mathematical value.
pub enum OutcomeView {
    Dropped,
    Rejected(DecodeError),
    Accepted(Reading, ActionView),
}

impl View for Outcome {
    type V = OutcomeView;

    open spec fn view(&self) -> OutcomeView {
        match *self {
            Outcome::Dropped => OutcomeView::Dropped,
            Outcome::Rejected(e) => OutcomeView::Rejected(e),
            Outcome::Accepted(reading, action) => OutcomeView::Accepted(reading@, action@),
        }
    }
}

/// The arbiter's state as a mathematical value.
pub struct ArbiterView {
    /// The reading that later ones are compared with; `None` until the
    /// first reading.
    pub candidate: Option<Reading>,
    pub stage: Stage,
    /// Time of the last successful publication, or of the start.
    pub last_publish: u64,
    /// Time of the last successful resynchronization, or of the start.
    pub last_resync: u64,
    /// Whether a fatal condition has been signalled.
    pub halted: bool,
}

impl ArbiterView {
    /// A reading is held from the first one on, and while it is being
    /// counted the count is at least one and below the threshold.
    pub open spec fn wf(self) -> bool {
        &&& self.stage is Unset <==> self.candidate is None
        &&& self.stage matches Stage::Tracking(count) ==> 1 <= count < STABILITY_THRESHOLD
    }

    /// How often in a row the candidate has been seen, counted up to the
    /// threshold.
    pub open spec fn count(self) -> int {
        match self.stage {
            Stage::Unset => 0,
            Stage::Tracking(count) => count as int,
            Stage::LockedPendingPublish => STABILITY_THRESHOLD as int,
            Stage::Published => STABILITY_THRESHOLD as int,
        }
    }

    /// The state at a start at time `now`.
    pub open spec fn initial(now: u64) -> ArbiterView {
        ArbiterView {
            candidate: None,
            stage: Stage::Unset,
            last_publish: now,
            last_resync: now,
            halted: false,
        }
    }

    /// Whether a resynchronization is due at `now`.
    pub open spec fn resync_due(self, now: u64) -> bool {
        now - self.last_resync > RESYNC_INTERVAL_US
    }

    /// Whether publications have stalled at `now`.
    pub open spec fn stalled(self, now: u64) -> bool {
        now - self.last_publish > LIVENESS_CEILING_US
    }

    /// Whether a publication may be attempted at `now`.
    pub open spec fn may_publish(self, now: u64) -> bool {
        now - self.last_publish >= MIN_PUBLISH_INTERVAL_US
    }

    /// Whether `reading` is the measurement that is the candidate.
    pub open spec fn follows(self, reading: Reading) -> bool {
        self.candidate matches Some(candidate) && candidate.same_measurement(reading)
    }

    /// The liveness check: a stall is fatal, anything else lets the loop go
    /// on to receive.
    pub open spec fn check_liveness(self, now: u64) -> (ArbiterView, ActionView) {
        if self.stalled(now) {
            (ArbiterView { halted: true, ..self }, ActionView::Fatal(Fatal::PublishStalled))
        } else {
            (self, ActionView::Receive)
        }
    }

    /// A stable reading asks to be published: it is, if the minimum
    /// interval has passed, and stays owed otherwise.
    pub open spec fn attempt(self, reading: Reading, now: u64) -> (ArbiterView, ActionView) {
        (
            ArbiterView { stage: Stage::LockedPendingPublish, ..self },
            if self.may_publish(now) {
                ActionView::Publish { reading, at: now }
            } else {
                ActionView::Idle
            },
        )
    }

    /// The debounce: what a decoded reading does to the state. A reading
    /// that differs from the candidate takes its place with a count of one.
    /// One that agrees with it is counted, and the one that completes the
    /// count asks to be published, as does every later one while publication
    /// is still owed. After publication further agreeing readings do nothing.
    pub open spec fn observe(self, reading: Reading, now: u64) -> (ArbiterView, ActionView) {
        if !self.follows(reading) {
            (
                ArbiterView { candidate: Some(reading), stage: Stage::Tracking(1), ..self },
                ActionView::Idle,
            )
        } else {
            match self.stage {
                Stage::Unset => (
                    ArbiterView { candidate: Some(reading), stage: Stage::Tracking(1), ..self },
                    ActionView::Idle,
                ),
                Stage::Tracking(count) => if count + 1 >= STABILITY_THRESHOLD {
                    self.attempt(reading, now)
                } else {
                    (
                        ArbiterView { stage: Stage::Tracking((count + 1) as u8), ..self },
                        ActionView::Idle,
                    )
                },
                Stage::LockedPendingPublish => self.attempt(reading, now),
                Stage::Published => (self, ActionView::Idle),
            }
        }
    }

    /// The transition function: the state after `event` and the action
    /// that answers it. Once a fatal condition has been signalled nothing
    /// changes any more.
    pub open spec fn step(self, event: EventView) -> (ArbiterView, ActionView) {
        if self.halted {
            (self, ActionView::Idle)
        } else {
            match event {
                EventView::Tick { now } => if self.resync_due(now) {
                    (self, ActionView::Resync)
                } else {
                    self.check_liveness(now)
                },
                EventView::Resynced { now } => (ArbiterView {
                    last_resync: now,
                    ..self
                }).check_liveness(now),
                EventView::ResyncFailed { now } => self.check_liveness(now),
                EventView::Silence => (self, ActionView::Idle),
                EventView::Reading { reading, now } => self.observe(reading, now),
                EventView::Published { at } => if self.stage is LockedPendingPublish {
                    (
                        ArbiterView { stage: Stage::Published, last_publish: at, ..self },
                        ActionView::Idle,
                    )
                } else {
                    (self, ActionView::Idle)
                },
                EventView::PublishFailed => (self, ActionView::Idle),
            }
        }
    }

    /// What a pulse run does to the state: a run that decodes is taken in
    /// as a reading, any other leaves the state as it is. A run of the
    /// wrong length is dropped without a word.
    pub open spec fn receive(self, frame: Seq<Symbol>, len: usize, channel: u8, now: u64) -> (
        ArbiterView,
        OutcomeView,
    ) {
        match decode_spec(frame, channel, len) {
            Err(e) => (
                self,
                if e is WrongPayloadLen {
                    OutcomeView::Dropped
                } else {
                    OutcomeView::Rejected(e)
                },
            ),
            Ok(reading) => (
                self.step(EventView::Reading { reading, now }).0,
                OutcomeView::Accepted(reading, self.step(EventView::Reading { reading, now }).1),
            ),
        }
    }

    /// The time at which `event` makes the arbiter check for a stall, if it
    /// does: every clock report does, and so does a tick unless it is
    /// answered with a request to resynchronize first.
    pub open spec fn liveness_checked_at(self, event: EventView) -> Option<u64> {
        match event {
            EventView::Tick { now } => if self.resync_due(now) {
                None
            } else {
                Some(now)
            },
            EventView::Resynced { now } => Some(now),
            EventView::ResyncFailed { now } => Some(now),
            _ => None,
        }
    }

    /// The state after a sequence of events.
    pub open spec fn run(self, events: Seq<EventView>) -> ArbiterView
        decreases events.len(),
    {
        if events.len() == 0 {
            self
        } else {
            self.run(events.drop_last()).step(events.last()).0
        }
    }

    /// The action that answers the event at position `at` of a sequence.
    pub open spec fn action_at(self, events: Seq<EventView>, at: int) -> ActionView {
        self.run(events.take(at)).step(events[at]).1
    }
}

/// The stability arbiter and publish gate.
pub struct Arbiter {
    candidate: Parsed,
    stage: Stage,
    last_publish: u64,
    last_resync: u64,
    halted: bool,
}

impl View for Arbiter {
    type V = ArbiterView;

    closed spec fn view(&self) -> ArbiterView {
        ArbiterView {
            candidate: if self.stage is Unset {
                None
            } else {
                Some(self.candidate@)
            },
            stage: self.stage,
            last_publish: self.last_publish,
            last_resync: self.last_resync,
            halted: self.halted,
        }
    }
}

impl Arbiter {
    #[verifier::type_invariant]
    spec fn inv(&self) -> bool {
        self.stage matches Stage::Tracking(count) ==> 1 <= count < STABILITY_THRESHOLD
    }

    /// An arbiter started at time `now`: no candidate, and both the last
    /// publication and the last resynchronization taken to be `now`.
    pub fn new(now: u64) -> (arbiter: Arbiter)
        ensures
            arbiter@ == ArbiterView::initial(now),
            arbiter@.wf(),
    {
        Arbiter {
            candidate: Parsed::default(),
            stage: Stage::Unset,
            last_publish: now,
            last_resync: now,
            halted: false,
        }
    }

    /// Where the arbiter stands with the candidate.
    pub fn stage(&self) -> (stage: Stage)
        ensures
            stage == self@.stage,
            self@.wf(),
    {
        proof {
            use_type_invariant(self);
        }
        self.stage
    }

    /// How often in a row the candidate has been seen, counted up to the
    /// threshold.
    pub fn count(&self) -> (count: u8)
        ensures
            count == self@.count(),
            count <= STABILITY_THRESHOLD,
    {
        proof {
            use_type_invariant(self);
        }
        match self.stage {
            Stage::Unset => 0,
            Stage::Tracking(count) => count,
            _ => STABILITY_THRESHOLD,
        }
    }

    /// The reading that is the candidate.
    pub fn candidate(&self) -> (candidate: Option<Parsed>)
        ensures
            candidate is Some <==> self@.candidate is Some,
            candidate matches Some(reading) ==> self@.candidate == Some(reading@),
    {
        match self.stage {
            Stage::Unset => None,
            _ => Some(self.candidate),
        }
    }

    /// Time of the last successful publication, or of the start.
    pub fn last_publish(&self) -> (at: u64)
        ensures
            at == self@.last_publish,
    {
        self.last_publish
    }

    /// Time of the last successful resynchronization, or of the start.
    pub fn last_resync(&self) -> (at: u64)
        ensures
            at == self@.last_resync,
    {
        self.last_resync
    }

    /// Whether a fatal condition has been signalled.
    pub fn is_halted(&self) -> (halted: bool)
        ensures
            halted == self@.halted,
    {
        self.halted
    }

    fn check_liveness(&mut self, now: u64) -> (action: Action)
        requires
            !old(self)@.halted,
        ensures
            (final(self)@, action@) == old(self)@.check_liveness(now),
    {
        proof {
            use_type_invariant(&*self);
        }
        if now > self.last_publish && now - self.last_publish > LIVENESS_CEILING_US {
            self.halted = true;
            Action::Fatal(Fatal::PublishStalled)
        } else {
            Action::Receive
        }
    }

    fn attempt(&mut self, reading: Parsed, now: u64) -> (action: Action)
        requires
            !(old(self)@.stage is Unset),
        ensures
            (final(self)@, action@) == old(self)@.attempt(reading@, now),
    {
        self.stage = Stage::LockedPendingPublish;
        if now >= self.last_publish && now - self.last_publish >= MIN_PUBLISH_INTERVAL_US {
            Action::Publish { reading, at: now }
        } else {
            Action::Idle
        }
    }

    fn observe(&mut self, reading: Parsed, now: u64) -> (action: Action)
        ensures
            (final(self)@, action@) == old(self)@.observe(reading@, now),
    {
        proof {
            use_type_invariant(&*self);
        }
        match self.stage {
            Stage::Unset => {
                self.candidate = reading;
                self.stage = Stage::Tracking(1);
                Action::Idle
            },
            Stage::Tracking(count) => {
                if !self.candidate.equal(&reading) {
                    self.candidate = reading;
                    self.stage = Stage::Tracking(1);
                    Action::Idle
                } else if count + 1 >= STABILITY_THRESHOLD {
                    self.attempt(reading, now)
                } else {
                    self.stage = Stage::Tracking(count + 1);
                    Action::Idle
                }
            },
            Stage::LockedPendingPublish => {
                if !self.candidate.equal(&reading) {
                    self.candidate = reading;
                    self.stage = Stage::Tracking(1);
                    Action::Idle
                } else {
                    self.attempt(reading, now)
                }
            },
            Stage::Published => {
                if !self.candidate.equal(&reading) {
                    self.candidate = reading;
                    self.stage = Stage::Tracking(1);
                }
                Action::Idle
            },
        }
    }

    /// Takes one event and answers with the action that it calls for.
    pub fn step(&mut self, event: Event) -> (action: Action)
        ensures
            (final(self)@, action@) == old(self)@.step(event@),
            final(self)@.wf(),
    {
        proof {
            use_type_invariant(&*self);
        }
        if self.halted {
            return Action::Idle;
        }
        let action = match event {
            Event::Tick { now } => {
                if now > self.last_resync && now - self.last_resync > RESYNC_INTERVAL_US {
                    Action::Resync
                } else {
                    self.check_liveness(now)
                }
            },
            Event::Resynced { now } => {
                self.last_resync = now;
                self.check_liveness(now)
            },
            Event::ResyncFailed { now } => self.check_liveness(now),
            Event::Silence => Action::Idle,
            Event::Reading { reading, now } => self.observe(reading, now),
            Event::Published { at } => {
                match self.stage {
                    Stage::LockedPendingPublish => {
                        self.stage = Stage::Published;
                        self.last_publish = at;
                    },
                    _ => {},
                }
                Action::Idle
            },
            Event::PublishFailed => Action::Idle,
        };
        proof {
            use_type_invariant(&*self);
        }
        action
    }

    /// Decodes the first `len` symbols of a pulse run for a receiver on
    /// `channel` and takes the reading in, if there is one.
    ///
    /// A run reported as a whole frame has to hold that many symbols.
    pub fn observe_frame(&mut self, pulses: &[Symbol], len: usize, channel: u8, now: u64) -> (outcome:
        Outcome)
        requires
            len == FRAME_LEN ==> pulses@.len() >= FRAME_LEN,
        ensures
            (final(self)@, outcome@) == old(self)@.receive(pulses@, len, channel, now),
            len != FRAME_LEN ==> outcome@ == OutcomeView::Dropped && final(self)@ == old(self)@,
            final(self)@.wf(),
    {
        proof {
            use_type_invariant(&*self);
        }
        match decode(pulses, channel, len) {
            Ok(reading) => Outcome::Accepted(reading, self.step(Event::Reading { reading, now })),
            Err(DecodeError::WrongPayloadLen(_)) => Outcome::Dropped,
            Err(e) => Outcome::Rejected(e),
        }
    }
}

/// Debounce. Take a state that has not halted and a reading that is not
/// its candidate. Three such readings in a row are answered with nothing,
/// nothing, and the request to publish the third, provided the minimum
/// interval has passed by then. Once that publication is reported as done, a
/// fourth such reading is answered with nothing and changes nothing, and a
/// reading of another measurement becomes the candidate with a count of one.
pub proof fn lemma_debounce(
    s: ArbiterView,
    reading: Reading,
    other: Reading,
    t1: u64,
    t2: u64,
    t3: u64,
    t4: u64,
    t5: u64,
)
    requires
        !s.halted,
        !s.follows(reading),
        s.may_publish(t3),
        !reading.same_measurement(other),
    ensures
        ({
            let (s1, a1) = s.step(EventView::Reading { reading, now: t1 });
            let (s2, a2) = s1.step(EventView::Reading { reading, now: t2 });
            let (s3, a3) = s2.step(EventView::Reading { reading, now: t3 });
            let (done, a_done) = s3.step(EventView::Published { at: t3 });
            let (s4, a4) = done.step(EventView::Reading { reading, now: t4 });
            let (s5, a5) = s4.step(EventView::Reading { reading: other, now: t5 });
            &&& a1 == ActionView::Idle && s1.stage == Stage::Tracking(1)
            &&& a2 == ActionView::Idle && s2.stage == Stage::Tracking(2)
            &&& a3 == (ActionView::Publish { reading, at: t3 }) && s3.stage
                == Stage::LockedPendingPublish
            &&& a_done == ActionView::Idle && done.stage == Stage::Published && done.last_publish
                == t3
            &&& a4 == ActionView::Idle && s4 == done
            &&& a5 == ActionView::Idle && s5.count() == 1 && s5.candidate == Some(other)
        }),
{
}

/// A publication that is owed stays owed until it succeeds: while the
/// minimum interval has not passed, and after a failed attempt, the next
/// reading of the same measurement asks to be published again, and a failed
/// attempt leaves the time of the last publication alone.
pub proof fn lemma_owed_publication_is_retried(s: ArbiterView, reading: Reading, now: u64)
    requires
        !s.halted,
        s.stage is LockedPendingPublish,
        s.follows(reading),
    ensures
        s.step(EventView::PublishFailed) == (s, ActionView::Idle),
        s.step(EventView::Reading { reading, now }).0 == s,
        s.may_publish(now) ==> s.step(EventView::Reading { reading, now }).1 == (
        ActionView::Publish { reading, at: now }),
        !s.may_publish(now) ==> s.step(EventView::Reading { reading, now }).1 == ActionView::Idle,
{
}

/// Only the report of a publication that was owed moves the time of the
/// last publication.
pub proof fn lemma_last_publish_moves_on_success_only(s: ArbiterView, event: EventView)
    ensures
        s.step(event).0.last_publish != s.last_publish ==> event is Published && s.stage
            is LockedPendingPublish,
{
}

/// Every step keeps a well-formed state well-formed.
pub proof fn lemma_step_keeps_wf(s: ArbiterView, event: EventView)
    requires
        s.wf(),
    ensures
        s.step(event).0.wf(),
{
}

/// Liveness, one step: whenever a state that has not halted checks for a
/// stall at a time more than the ceiling after the last publication, the
/// answer is the fatal condition, and the state halts.
pub proof fn lemma_stall_is_fatal(s: ArbiterView, event: EventView)
    requires
        !s.halted,
        s.liveness_checked_at(event) matches Some(now) && s.stalled(now),
    ensures
        s.step(event).1 == ActionView::Fatal(Fatal::PublishStalled),
        s.step(event).0.halted,
{
}

/// The fatal condition is the answer to a step only where that step halts
/// a state that had not halted.
pub proof fn lemma_fatal_means_halting(s: ArbiterView, event: EventView)
    ensures
        s.step(event).1 is Fatal ==> !s.halted && s.step(event).0.halted,
        s.halted ==> s.step(event) == (s, ActionView::Idle),
        s.step(event).0.halted && !s.halted ==> s.step(event).1 is Fatal,
{
}

/// A halted state stays as it is whatever is reported to it.
pub proof fn lemma_halted_is_final(s: ArbiterView, events: Seq<EventView>)
    requires
        s.halted,
    ensures
        s.run(events) == s,
    decreases events.len(),
{
    if events.len() > 0 {
        lemma_halted_is_final(s, events.drop_last());
    }
}

/// Running a sequence of events is running a prefix of it and then the
/// rest.
proof fn lemma_run_split(s: ArbiterView, events: Seq<EventView>, at: int)
    requires
        0 <= at <= events.len(),
    ensures
        s.run(events) == s.run(events.take(at)).run(events.skip(at)),
    decreases events.len() - at,
{
    if at == events.len() {
        assert(events.take(at) =~= events);
        assert(events.skip(at) =~= Seq::<EventView>::empty());
    } else {
        let rest = events.skip(at);
        assert(rest.drop_last() =~= events.drop_last().skip(at));
        assert(events.drop_last().take(at) =~= events.take(at));
        lemma_run_split(s, events.drop_last(), at);
    }
}

/// Liveness, whole run: the fatal condition is signalled at most once.
/// After the step that signals it every answer is `Idle`.
pub proof fn lemma_fatal_at_most_once(s: ArbiterView, events: Seq<EventView>, first: int, later: int)
    requires
        0 <= first < later < events.len(),
        s.action_at(events, first) is Fatal,
    ensures
        s.action_at(events, later) == ActionView::Idle,
{
    let before = s.run(events.take(first));
    let halted = before.step(events[first]).0;
    lemma_fatal_means_halting(before, events[first]);
    let upto = events.take(first + 1);
    assert(upto.drop_last() =~= events.take(first));
    assert(upto.last() == events[first]);
    assert(s.run(upto) == halted);
    let prefix = events.take(later);
    assert(prefix.take(first + 1) =~= upto);
    lemma_run_split(s, prefix, first + 1);
    lemma_halted_is_final(halted, prefix.skip(first + 1));
    assert(s.run(prefix) == halted);
}

/// A state that has halted in the course of a run did so at a step that
/// signalled the fatal condition.
proof fn lemma_halt_was_signalled(s: ArbiterView, events: Seq<EventView>) -> (at: int)
    requires
        !s.halted,
        s.run(events).halted,
    ensures
        0 <= at < events.len(),
        s.action_at(events, at) is Fatal,
    decreases events.len(),
{
    let shorter = events.drop_last();
    if s.run(shorter).halted {
        let at = lemma_halt_was_signalled(s, shorter);
        assert(shorter.take(at) =~= events.take(at));
        at
    } else {
        let at = events.len() - 1;
        assert(events.take(at) =~= shorter);
        lemma_fatal_means_halting(s.run(shorter), events.last());
        at
    }
}

/// Liveness, whole run: if a state that has not halted is run through
/// events one of which, at position `at`, makes it check for a stall while
/// publications have stalled, then the fatal condition is signalled at that
/// position or before it, and at no other position of the run.
pub proof fn lemma_stall_is_signalled_once(s: ArbiterView, events: Seq<EventView>, at: int) -> (signal:
    int)
    requires
        !s.halted,
        0 <= at < events.len(),
        ({
            let before = s.run(events.take(at));
            before.liveness_checked_at(events[at]) matches Some(now) && before.stalled(now)
        }),
    ensures
        0 <= signal <= at,
        s.action_at(events, signal) is Fatal,
        forall|other: int|
            0 <= other < events.len() && other != signal ==> !(#[trigger] s.action_at(
                events,
                other,
            ) is Fatal),
{
    let before = s.run(events.take(at));
    let signal = if before.halted {
        let found = lemma_halt_was_signalled(s, events.take(at));
        assert(events.take(at).take(found) =~= events.take(found));
        found
    } else {
        lemma_stall_is_fatal(before, events[at]);
        at
    };
    assert forall|other: int| 0 <= other < events.len() && other != signal implies !(
    #[trigger] s.action_at(events, other) is Fatal) by {
        if other < signal {
            if s.action_at(events, other) is Fatal {
                lemma_fatal_at_most_once(s, events, other, signal);
            }
        } else {
            lemma_fatal_at_most_once(s, events, signal, other);
        }
    }
    signal
}

/// A pulse run that does not have the length of a frame is dropped: the
/// state stays as it is and the outcome is not one to log.
pub proof fn lemma_wrong_length_is_dropped(
    s: ArbiterView,
    frame: Seq<Symbol>,
    len: usize,
    channel: u8,
    now: u64,
)
    requires
        len != FRAME_LEN,
    ensures
        s.receive(frame, len, channel, now) == (s, OutcomeView::Dropped),
{
}

} // verus!
