//! The wait engine: the state machine that turns the fetches of one tracked
//! sailing into a stream of "still waiting" that ends with "found" or
//! "failed".
//!
//! The engine does no fetching itself. Its driver asks it what to do next,
//! performs the fetch after the pause it names, and hands back what the
//! fetch gave.

use vstd::prelude::*;
use crate::datetime::Date;
use crate::decode::DecodeError;
use crate::direction::Direction;
use crate::event::WaitForSpot;
use crate::event_map::EventMap;
use crate::schedule::{PollScheduler, delay_before};

verus! {

/// The service could not be reached, or gave no text.
#[derive(Debug)]
pub struct TransportError {
    pub cause: String,
}

/// Why a fetch gave no sailings.
#[derive(Debug)]
pub enum FetchError {
    /// The request failed on its way. An engine does not outlive this.
    Transport(TransportError),
    /// A body came, but not one of the schema: no data this round.
    Decode(DecodeError),
}

/// What one fetch says of the tracked sailing.
#[derive(Debug, Clone, Copy, PartialEq, Eq, Structural)]
pub enum Reading {
    /// The request failed on its way.
    TransportFailure,
    /// A body came, but not one of the schema: nothing is known this round.
    DecodeFailure,
    /// The sailings of the day came, and the tracked one is not among them.
    NotFoundInSnapshot,
    /// The sailing is there, with this capacity for small vehicles.
    Capacity(i32),
}

/// Where an engine stands. All but `Polling` are final.
#[derive(Debug, Clone, Copy, PartialEq, Eq, Structural)]
pub enum EngineState {
    Polling,
    Found(usize),
    Failed,
    Cancelled,
}

/// What an engine emits for one fetch, cause of a failure left aside.
#[derive(Debug, Clone, Copy, PartialEq, Eq, Structural)]
pub enum Signal {
    Waiting,
    Found(usize),
    Failed,
}

/// What a capacity for small vehicles means: places are free exactly where
/// it is positive.
pub open spec fn spot_of(capacity: i32) -> WaitForSpot {
    if capacity > 0 {
        WaitForSpot::Done(capacity as usize)
    } else {
        WaitForSpot::Waiting
    }
}

/// What a fetch says of the sailing with the identifier.
pub open spec fn reading_of(fetched: Result<EventMap, FetchError>, uuid: Seq<char>) -> Reading {
    match fetched {
        Ok(events) => if events@.dom().contains(uuid) {
            Reading::Capacity(events@[uuid].capacities.small_vehicles)
        } else {
            Reading::NotFoundInSnapshot
        },
        Err(FetchError::Transport(_)) => Reading::TransportFailure,
        Err(FetchError::Decode(_)) => Reading::DecodeFailure,
    }
}

/// The state after a reading.
pub open spec fn next_state(state: EngineState, reading: Reading) -> EngineState {
    match state {
        EngineState::Polling => match reading {
            Reading::TransportFailure => EngineState::Failed,
            Reading::DecodeFailure => EngineState::Polling,
            Reading::NotFoundInSnapshot => EngineState::Polling,
            Reading::Capacity(capacity) => match spot_of(capacity) {
                WaitForSpot::Done(count) => EngineState::Found(count),
                WaitForSpot::Waiting => EngineState::Polling,
            },
        },
        _ => state,
    }
}

/// What is emitted for a reading: nothing once the engine has ended.
pub open spec fn signal_for(state: EngineState, reading: Reading) -> Option<Signal> {
    match state {
        EngineState::Polling => match reading {
            Reading::TransportFailure => Some(Signal::Failed),
            Reading::DecodeFailure => Some(Signal::Waiting),
            Reading::NotFoundInSnapshot => Some(Signal::Waiting),
            Reading::Capacity(capacity) => match spot_of(capacity) {
                WaitForSpot::Done(count) => Some(Signal::Found(count)),
                WaitForSpot::Waiting => Some(Signal::Waiting),
            },
        },
        _ => None,
    }
}

/// The signal that an emission carries.
pub open spec fn signal_of(emission: Option<Result<WaitForSpot, TransportError>>) -> Option<
    Signal,
> {
    match emission {
        Some(Ok(WaitForSpot::Waiting)) => Some(Signal::Waiting),
        Some(Ok(WaitForSpot::Done(count))) => Some(Signal::Found(count)),
        Some(Err(_)) => Some(Signal::Failed),
        None => None,
    }
}

/// Decides from a capacity for small vehicles whether places are free.
pub fn spot_for(capacity: i32) -> (spot: WaitForSpot)
    ensures
        spot == spot_of(capacity),
        spot is Done <==> capacity > 0,
        capacity > 0 ==> spot == WaitForSpot::Done(capacity as usize),
        capacity <= 0 ==> spot == WaitForSpot::Waiting,
{
    if capacity > 0 {
        WaitForSpot::Done(capacity as usize)
    } else {
        WaitForSpot::Waiting
    }
}

/// Reads from a fetch what it says of the sailing with the identifier.
pub fn read_fetch(fetched: &Result<EventMap, FetchError>, uuid: &str) -> (reading: Reading)
    requires
        fetched matches Ok(events) ==> events.wf(),
    ensures
        reading == reading_of(*fetched, uuid@),
{
    match fetched {
        Ok(events) => match events.get(uuid) {
            Some(event) => Reading::Capacity(event.capacities.small_vehicles),
            None => Reading::NotFoundInSnapshot,
        },
        Err(FetchError::Transport(_)) => Reading::TransportFailure,
        Err(FetchError::Decode(_)) => Reading::DecodeFailure,
    }
}

/// The state in which an engine that started in `start` is after the
/// readings, taken in order.
pub open spec fn state_after(start: EngineState, readings: Seq<Reading>) -> EngineState
    decreases readings.len(),
{
    if readings.len() == 0 {
        start
    } else {
        next_state(state_after(start, readings.drop_last()), readings.last())
    }
}

/// What an engine that started in `start` emits for the reading of one tick,
/// after the readings of the ticks before it.
pub open spec fn signal_at(start: EngineState, readings: Seq<Reading>, tick: int) -> Option<
    Signal,
> {
    signal_for(state_after(start, readings.take(tick)), readings[tick])
}

/// An engine that has ended stays as it is, whatever is read.
pub proof fn lemma_ended_stays(start: EngineState, readings: Seq<Reading>)
    requires
        start != EngineState::Polling,
    ensures
        state_after(start, readings) == start,
    decreases readings.len(),
{
    if readings.len() > 0 {
        lemma_ended_stays(start, readings.drop_last());
    }
}

/// An engine that has ended emits nothing more: not after it found places,
/// not after it failed, not after it was cancelled.
pub proof fn lemma_ended_is_silent(start: EngineState, readings: Seq<Reading>, tick: int)
    requires
        start != EngineState::Polling,
        0 <= tick < readings.len(),
    ensures
        signal_at(start, readings, tick) is None,
{
    lemma_ended_stays(start, readings.take(tick));
}

/// The state after some readings, and then more, is the state after all.
pub proof fn lemma_state_after_split(start: EngineState, readings: Seq<Reading>, tick: int)
    requires
        0 <= tick <= readings.len(),
    ensures
        state_after(start, readings) == state_after(
            state_after(start, readings.take(tick)),
            readings.skip(tick),
        ),
    decreases readings.len(),
{
    if tick == readings.len() {
        assert(readings.take(tick) =~= readings);
        assert(readings.skip(tick).len() == 0);
    } else {
        lemma_state_after_split(start, readings.drop_last(), tick);
        assert(readings.drop_last().take(tick) =~= readings.take(tick));
        assert(readings.skip(tick).drop_last() =~= readings.drop_last().skip(tick));
        assert(readings.skip(tick).last() == readings.last());
    }
}

/// A transport failure ends a polling engine at once: `Failed` is emitted
/// for that tick, and nothing for any tick after it.
pub proof fn lemma_transport_failure_is_fatal(readings: Seq<Reading>, tick: int, later: int)
    requires
        0 <= tick < later < readings.len(),
        state_after(EngineState::Polling, readings.take(tick)) == EngineState::Polling,
        readings[tick] == Reading::TransportFailure,
    ensures
        signal_at(EngineState::Polling, readings, tick) == Some(Signal::Failed),
        state_after(EngineState::Polling, readings.take(tick + 1)) == EngineState::Failed,
        signal_at(EngineState::Polling, readings, later) is None,
{
    let upto = readings.take(tick + 1);
    assert(upto.drop_last() =~= readings.take(tick));
    assert(upto.last() == readings[tick]);
    let before = readings.take(later);
    lemma_state_after_split(EngineState::Polling, before, tick + 1);
    assert(before.take(tick + 1) =~= upto);
    lemma_ended_stays(EngineState::Failed, before.skip(tick + 1));
}

/// A round without data does not end a polling engine, be it that the body
/// was not decoded or that the sailing is not in it: `Waiting` is emitted for
/// that tick and the engine polls on.
pub proof fn lemma_missing_data_is_transient(readings: Seq<Reading>, tick: int)
    requires
        0 <= tick < readings.len(),
        state_after(EngineState::Polling, readings.take(tick)) == EngineState::Polling,
        readings[tick] == Reading::DecodeFailure || readings[tick] == Reading::NotFoundInSnapshot,
    ensures
        signal_at(EngineState::Polling, readings, tick) == Some(Signal::Waiting),
        state_after(EngineState::Polling, readings.take(tick + 1)) == EngineState::Polling,
{
    let upto = readings.take(tick + 1);
    assert(upto.drop_last() =~= readings.take(tick));
    assert(upto.last() == readings[tick]);
}

/// Places are announced at most once: after the tick for which `Found` was
/// emitted nothing is emitted.
pub proof fn lemma_found_once(readings: Seq<Reading>, tick: int, later: int)
    requires
        0 <= tick < later < readings.len(),
        signal_at(EngineState::Polling, readings, tick) matches Some(Signal::Found(_)),
    ensures
        signal_at(EngineState::Polling, readings, later) is None,
{
    let upto = readings.take(tick + 1);
    assert(upto.drop_last() =~= readings.take(tick));
    assert(upto.last() == readings[tick]);
    let before = readings.take(later);
    lemma_state_after_split(EngineState::Polling, before, tick + 1);
    assert(before.take(tick + 1) =~= upto);
    lemma_ended_stays(state_after(EngineState::Polling, upto), before.skip(tick + 1));
}

/// A sailing with capacity `capacity` for small vehicles is announced as
/// found exactly where the capacity is positive; otherwise the engine waits.
pub proof fn lemma_capacity_threshold(capacity: i32)
    ensures
        signal_for(EngineState::Polling, Reading::Capacity(capacity)) matches Some(
            Signal::Found(_),
        ) <==> capacity > 0,
        capacity > 0 ==> signal_for(EngineState::Polling, Reading::Capacity(capacity)) == Some(
            Signal::Found(capacity as usize),
        ),
        capacity <= 0 ==> signal_for(EngineState::Polling, Reading::Capacity(capacity)) == Some(
            Signal::Waiting,
        ),
        capacity <= 0 ==> next_state(EngineState::Polling, Reading::Capacity(capacity))
            == EngineState::Polling,
{
}

/// What the driver of an engine does next.
#[derive(Debug, Clone, Copy, PartialEq, Eq, Structural)]
pub enum Step {
    /// Pause for so many seconds, fetch, and hand the outcome to the engine.
    Fetch { delay_seconds: u64 },
    /// The engine has ended: fetch no more.
    Stop,
}

/// The state after a cancellation: a polling engine is cancelled, an engine
/// that has ended stays as it is.
pub open spec fn cancelled(state: EngineState) -> EngineState {
    if state == EngineState::Polling {
        EngineState::Cancelled
    } else {
        state
    }
}

/// What the driver of an engine is told: a polling engine asks for a fetch,
/// at once the first time and after the pause every later time; an engine
/// that has ended asks for nothing.
pub open spec fn step_for(engine: EngineView) -> Step {
    if engine.state == EngineState::Polling {
        Step::Fetch { delay_seconds: delay_before(engine.ticks, engine.interval) }
    } else {
        Step::Stop
    }
}

/// The number of fetches asked for once the driver was told its next step.
pub open spec fn ticks_after_step(engine: EngineView) -> nat {
    if engine.state == EngineState::Polling && engine.ticks < u64::MAX {
        engine.ticks + 1
    } else {
        engine.ticks
    }
}

/// An engine after its driver was told its next step so many times in a
/// row.
pub open spec fn after_steps(engine: EngineView, times: nat) -> EngineView
    decreases times,
{
    if times == 0 {
        engine
    } else {
        let before = after_steps(engine, (times - 1) as nat);
        EngineView { ticks: ticks_after_step(before), ..before }
    }
}

/// Each step of a polling engine asks for one fetch, however many came
/// before it: the first at once, every later one after the pause. Telling
/// the steps changes nothing but their count.
pub proof fn lemma_one_fetch_for_each_step(engine: EngineView, times: nat)
    requires
        engine.state == EngineState::Polling,
        engine.ticks == 0,
        times < u64::MAX,
    ensures
        after_steps(engine, times) == (EngineView { ticks: times, ..engine }),
        step_for(after_steps(engine, times)) == (Step::Fetch {
            delay_seconds: if times == 0 {
                0
            } else {
                engine.interval
            },
        }),
    decreases times,
{
    if times > 0 {
        lemma_one_fetch_for_each_step(engine, (times - 1) as nat);
    }
}

/// The wait engine of one tracked sailing.
#[derive(Debug)]
pub struct WaitEngine {
    direction: Direction,
    departure_date: Date,
    event_uuid: String,
    scheduler: PollScheduler,
    state: EngineState,
}

/// What a [`WaitEngine`] holds.
pub struct EngineView {
    pub state: EngineState,
    pub uuid: Seq<char>,
    pub line: Direction,
    pub date: Date,
    pub interval: u64,
    pub ticks: nat,
}

impl View for WaitEngine {
    type V = EngineView;

    closed spec fn view(&self) -> EngineView {
        EngineView {
            state: self.state,
            uuid: self.event_uuid@,
            line: self.direction,
            date: self.departure_date,
            interval: self.scheduler.interval(),
            ticks: self.scheduler.ticks(),
        }
    }
}

impl WaitEngine {
    /// Where the engine stands.
    pub open spec fn state(&self) -> EngineState {
        self@.state
    }

    /// The identifier of the tracked sailing.
    pub open spec fn uuid(&self) -> Seq<char> {
        self@.uuid
    }

    /// The line of the tracked sailing.
    pub open spec fn line(&self) -> Direction {
        self@.line
    }

    /// The day of the tracked sailing.
    pub open spec fn date(&self) -> Date {
        self@.date
    }

    /// The pause between two fetches, in seconds.
    pub open spec fn interval(&self) -> u64 {
        self@.interval
    }

    /// The number of fetches asked for so far.
    pub open spec fn ticks(&self) -> nat {
        self@.ticks
    }

    /// An engine that polls for the sailing and has asked for no fetch yet.
    pub fn new(
        direction: Direction,
        departure_date: Date,
        event_uuid: String,
        interval_seconds: u64,
    ) -> (engine: WaitEngine)
        ensures
            engine@ == (EngineView {
                state: EngineState::Polling,
                uuid: event_uuid@,
                line: direction,
                date: departure_date,
                interval: interval_seconds,
                ticks: 0,
            }),
    {
        WaitEngine {
            direction,
            departure_date,
            event_uuid,
            scheduler: PollScheduler::new(interval_seconds),
            state: EngineState::Polling,
        }
    }

    /// Where the engine stands.
    pub fn current_state(&self) -> (state: EngineState)
        ensures
            state == self.state(),
    {
        self.state
    }

    /// Whether the engine has ended.
    pub fn is_finished(&self) -> (ended: bool)
        ensures
            ended == (self.state() != EngineState::Polling),
    {
        match self.state {
            EngineState::Polling => false,
            _ => true,
        }
    }

    /// The identifier of the tracked sailing.
    pub fn event_uuid(&self) -> (uuid: &str)
        ensures
            uuid@ == self.uuid(),
    {
        self.event_uuid.as_str()
    }

    /// The line of the tracked sailing.
    pub fn direction(&self) -> (line: Direction)
        ensures
            line == self.line(),
    {
        self.direction
    }

    /// The day of the tracked sailing.
    pub fn departure_date(&self) -> (day: Date)
        ensures
            day == self.date(),
    {
        self.departure_date
    }

    /// Says what the driver does next. A polling engine asks for a fetch: at
    /// once the first time, after the pause every later time. An engine that
    /// has ended asks for nothing and stays as it is.
    pub fn next_step(&mut self) -> (step: Step)
        ensures
            step == step_for(old(self)@),
            final(self)@ == (EngineView { ticks: ticks_after_step(old(self)@), ..old(self)@ }),
    {
        match self.state {
            EngineState::Polling => {
                let delay_seconds = self.scheduler.next_delay();
                Step::Fetch { delay_seconds }
            },
            _ => Step::Stop,
        }
    }

    /// Takes what one fetch said of the sailing. A polling engine emits a
    /// signal and moves on; an engine that has ended emits nothing.
    pub fn on_reading(&mut self, reading: Reading) -> (signal: Option<Signal>)
        ensures
            signal == signal_for(old(self).state(), reading),
            final(self)@ == (EngineView {
                state: next_state(old(self).state(), reading),
                ..old(self)@
            }),
    {
        match self.state {
            EngineState::Polling => match reading {
                Reading::TransportFailure => {
                    self.state = EngineState::Failed;
                    Some(Signal::Failed)
                },
                Reading::DecodeFailure => Some(Signal::Waiting),
                Reading::NotFoundInSnapshot => Some(Signal::Waiting),
                Reading::Capacity(capacity) => match spot_for(capacity) {
                    WaitForSpot::Done(count) => {
                        self.state = EngineState::Found(count);
                        Some(Signal::Found(count))
                    },
                    WaitForSpot::Waiting => Some(Signal::Waiting),
                },
            },
            _ => None,
        }
    }

    /// Takes the outcome of one fetch. A failure on the way ends the engine
    /// and is handed on with its cause; a body that was not decoded, or one
    /// without the sailing, counts as waiting.
    pub fn on_fetch(&mut self, fetched: Result<EventMap, FetchError>) -> (emission: Option<
        Result<WaitForSpot, TransportError>,
    >)
        requires
            fetched matches Ok(events) ==> events.wf(),
        ensures
            signal_of(emission) == signal_for(
                old(self).state(),
                reading_of(fetched, old(self).uuid()),
            ),
            emission matches Some(Err(error)) ==> fetched matches Err(FetchError::Transport(failure))
                && error.cause@ == failure.cause@,
            final(self)@ == (EngineView {
                state: next_state(old(self).state(), reading_of(fetched, old(self).uuid())),
                ..old(self)@
            }),
    {
        let reading = read_fetch(&fetched, self.event_uuid.as_str());
        match self.on_reading(reading) {
            Some(Signal::Waiting) => Some(Ok(WaitForSpot::Waiting)),
            Some(Signal::Found(count)) => Some(Ok(WaitForSpot::Done(count))),
            Some(Signal::Failed) => match fetched {
                Err(FetchError::Transport(failure)) => Some(Err(failure)),
                _ => None,
            },
            None => None,
        }
    }

    /// Cancels a polling engine: it emits nothing from now on and asks for no
    /// further fetch. An engine that has ended stays as it is.
    pub fn cancel(&mut self)
        ensures
            final(self)@ == (EngineView { state: cancelled(old(self).state()), ..old(self)@ }),
            final(self).state() != EngineState::Polling,
    {
        match self.state {
            EngineState::Polling => {
                self.state = EngineState::Cancelled;
            },
            _ => {},
        }
    }
}

/// Once an engine is cancelled, no reading makes it emit anything, whatever
/// state it was in before.
pub proof fn lemma_cancelled_is_silent(before: EngineState, readings: Seq<Reading>, tick: int)
    requires
        0 <= tick < readings.len(),
    ensures
        signal_at(cancelled(before), readings, tick) is None,
{
    lemma_ended_is_silent(cancelled(before), readings, tick);
}

/// The driver of a cancelled engine is told to stop.
pub proof fn lemma_cancelled_stops(engine: EngineView)
    ensures
        step_for(EngineView { state: cancelled(engine.state), ..engine }) == Step::Stop,
{
}

/// The signals that an engine that started in `start` emits for the
/// readings, in order.
pub open spec fn signals_of(start: EngineState, readings: Seq<Reading>) -> Seq<Signal>
    decreases readings.len(),
{
    if readings.len() == 0 {
        Seq::empty()
    } else {
        let front = readings.drop_last();
        match signal_for(state_after(start, front), readings.last()) {
            Some(signal) => signals_of(start, front).push(signal),
            None => signals_of(start, front),
        }
    }
}

/// A polling engine emits one signal for each reading up to the one that
/// ends it, and none after: never more signals than readings, and all but
/// the last of them `Waiting`.
pub proof fn lemma_signals_shape(readings: Seq<Reading>)
    ensures
        signals_of(EngineState::Polling, readings).len() <= readings.len(),
        state_after(EngineState::Polling, readings) == EngineState::Polling ==> signals_of(
            EngineState::Polling,
            readings,
        ).len() == readings.len(),
        forall|i: int|
            0 <= i < signals_of(EngineState::Polling, readings).len() - 1 ==> signals_of(
                EngineState::Polling,
                readings,
            )[i] == Signal::Waiting,
        state_after(EngineState::Polling, readings) == EngineState::Polling ==> forall|i: int|
            0 <= i < signals_of(EngineState::Polling, readings).len() ==> signals_of(
                EngineState::Polling,
                readings,
            )[i] == Signal::Waiting,
    decreases readings.len(),
{
    if readings.len() > 0 {
        let front = readings.drop_last();
        lemma_signals_shape(front);
        if state_after(EngineState::Polling, front) != EngineState::Polling {
            assert(signal_for(state_after(EngineState::Polling, front), readings.last()) is None);
        }
    }
}

impl WaitEngine {
    /// Takes the readings of several fetches in order and gives back what
    /// the engine emits for them.
    pub fn replay(&mut self, readings: &Vec<Reading>) -> (signals: Vec<Signal>)
        ensures
            signals@ == signals_of(old(self).state(), readings@),
            final(self)@ == (EngineView {
                state: state_after(old(self).state(), readings@),
                ..old(self)@
            }),
    {
        let mut signals: Vec<Signal> = Vec::new();
        let mut at: usize = 0;
        while at < readings.len()
            invariant
                at <= readings@.len(),
                signals@ == signals_of(old(self).state(), readings@.take(at as int)),
                self@ == (EngineView {
                    state: state_after(old(self).state(), readings@.take(at as int)),
                    ..old(self)@
                }),
            decreases readings@.len() - at,
        {
            proof {
                let upto = readings@.take(at + 1);
                assert(upto.drop_last() =~= readings@.take(at as int));
                assert(upto.last() == readings@[at as int]);
            }
            match self.on_reading(readings[at]) {
                Some(signal) => {
                    signals.push(signal);
                },
                None => {},
            }
            at += 1;
        }
        assert(readings@.take(at as int) =~= readings@);
        signals
    }
}

} // verus!
