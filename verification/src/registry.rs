//! The registry of tracked sailings: one wait engine for each, driven
//! independently of the others.

use vstd::prelude::*;
use crate::datetime::{Date, OUTPUT_DATE_FORMAT, formatted_date};
use crate::datetime::naive_date_to_output_string;
use crate::direction::Direction;
use crate::engine::{EngineState, EngineView, FetchError, Step, TransportError, WaitEngine};
use crate::engine::{next_state, reading_of, signal_for, signal_of, step_for, ticks_after_step};
use crate::event::{Event, WaitForSpot, end_instant, is_local_range, start_instant};
use crate::event_map::EventMap;
use crate::text::str_eq;

verus! {

/// One line of the list of tracked sailings.
#[derive(Debug)]
pub struct TrackingListElement {
    pub direction: Direction,
    pub date: String,
    pub time: String,
    pub counter: usize,
    pub event_uuid: String,
    pub free_spots: Option<usize>,
}

/// What a [`TrackingListElement`] holds.
pub struct ElementView {
    pub direction: Direction,
    pub date: Seq<char>,
    pub time: Seq<char>,
    pub counter: usize,
    pub event_uuid: Seq<char>,
    pub free_spots: Option<usize>,
}

impl View for TrackingListElement {
    type V = ElementView;

    open spec fn view(&self) -> ElementView {
        ElementView {
            direction: self.direction,
            date: self.date@,
            time: self.time@,
            counter: self.counter,
            event_uuid: self.event_uuid@,
            free_spots: self.free_spots,
        }
    }
}

impl Clone for TrackingListElement {
    fn clone(&self) -> (copy: Self)
        ensures
            copy@ == self@,
    {
        TrackingListElement {
            direction: self.direction,
            date: self.date.clone(),
            time: self.time.clone(),
            counter: self.counter,
            event_uuid: self.event_uuid.clone(),
            free_spots: self.free_spots,
        }
    }
}

/// What the end of a line of the list shows.
#[derive(Debug, Clone, Copy, PartialEq, Eq, Structural)]
pub enum Loader {
    /// So many places were found.
    Spots(usize),
    /// Still waiting, in the first phase of the animation.
    Covered,
    /// Still waiting, in the second phase of the animation.
    Listening,
}

/// What the end of a line shows: the places once they are found, and before
/// that an animation that changes its phase with the counter of the line,
/// six ticks in the first phase and four in the second.
pub open spec fn loader_of(element: ElementView) -> Loader {
    match element.free_spots {
        Some(spots) => Loader::Spots(spots),
        None => if element.counter % 10 > 5 {
            Loader::Listening
        } else {
            Loader::Covered
        },
    }
}

impl TrackingListElement {
    /// What the end of the line shows.
    pub fn loader(&self) -> (shown: Loader)
        ensures
            shown == loader_of(self@),
    {
        match self.free_spots {
            Some(spots) => Loader::Spots(spots),
            None => {
                if self.counter % 10 > 5 {
                    Loader::Listening
                } else {
                    Loader::Covered
                }
            },
        }
    }

    /// The line of a sailing that was just chosen: nothing counted, nothing
    /// found. Line and day must be chosen, and the timestamps of the sailing
    /// in the form of the service.
    pub fn new(direction: Option<Direction>, date: Option<Date>, event: &Event) -> (element: Self)
        requires
            direction is Some,
            date matches Some(day) && day.wf(),
            start_instant(event@) is Some,
            end_instant(event@) is Some,
        ensures
            element@.direction == direction->0,
            element@.date == formatted_date(date->0, OUTPUT_DATE_FORMAT@),
            is_local_range(
                element@.time,
                start_instant(event@)->0 as int,
                end_instant(event@)->0 as int,
            ),
            element@.counter == 0,
            element@.event_uuid == event@.uuid,
            element@.free_spots is None,
    {
        let time = match event.time_range() {
            Ok(time) => time,
            Err(_) => unreached(),
        };
        TrackingListElement {
            direction: direction.unwrap(),
            date: naive_date_to_output_string(&date.unwrap()),
            time,
            counter: 0,
            event_uuid: event.uuid.clone(),
            free_spots: None,
        }
    }

    /// The line of a sailing that was just chosen, where there is a line, a
    /// day that exists, and a sailing with timestamps in the form of the
    /// service; `None` otherwise.
    pub fn try_new(direction: Option<Direction>, date: Option<Date>, event: &Event) -> (element:
        Option<Self>)
        ensures
            element is Some <==> direction is Some && (date matches Some(day) && day.wf())
                && start_instant(event@) is Some && end_instant(event@) is Some,
            element matches Some(made) ==> {
                &&& made@.direction == direction->0
                &&& made@.date == formatted_date(date->0, OUTPUT_DATE_FORMAT@)
                &&& is_local_range(
                    made@.time,
                    start_instant(event@)->0 as int,
                    end_instant(event@)->0 as int,
                )
                &&& made@.counter == 0
                &&& made@.event_uuid == event@.uuid
                &&& made@.free_spots is None
            },
    {
        if direction.is_none() {
            return None;
        }
        match date {
            Some(day) => {
                if Date::from_ymd(day.year, day.month, day.day).is_none() {
                    return None;
                }
            },
            None => {
                return None;
            },
        }
        match event.time_range() {
            Ok(_) => Some(Self::new(direction, date, event)),
            Err(_) => None,
        }
    }
}

/// A tracked sailing: its line of the list and its wait engine.
#[derive(Debug)]
pub struct Watch {
    element: TrackingListElement,
    engine: WaitEngine,
}

/// What a [`Watch`] holds.
pub struct WatchView {
    pub element: ElementView,
    pub engine: EngineView,
}

impl View for Watch {
    type V = WatchView;

    closed spec fn view(&self) -> WatchView {
        WatchView { element: self.element@, engine: self.engine@ }
    }
}

/// The number of places that an engine in this state has found.
pub open spec fn found_count(state: EngineState) -> Option<usize> {
    match state {
        EngineState::Found(count) => Some(count),
        _ => None,
    }
}

/// Whether a sailing with the identifier is tracked.
pub open spec fn is_watched(watches: Seq<WatchView>, uuid: Seq<char>) -> bool {
    exists|i: int| 0 <= i < watches.len() && (#[trigger] watches[i]).element.event_uuid == uuid
}

/// The tracked sailings are consistent: no identifier twice, each engine on
/// the sailing of its line of the list, and places shown as found exactly
/// where the engine found them.
pub open spec fn consistent(watches: Seq<WatchView>) -> bool {
    &&& forall|i: int|
        0 <= i < watches.len() ==> {
            &&& (#[trigger] watches[i]).engine.uuid == watches[i].element.event_uuid
            &&& watches[i].element.free_spots == found_count(watches[i].engine.state)
        }
    &&& forall|i: int, j: int|
        0 <= i < watches.len() && 0 <= j < watches.len() && i != j ==> (
        #[trigger] watches[i]).element.event_uuid != (#[trigger] watches[j]).element.event_uuid
}

/// A tracked sailing after its driver was told the next step.
pub open spec fn after_step(watch: WatchView) -> WatchView {
    WatchView {
        engine: EngineView { ticks: ticks_after_step(watch.engine), ..watch.engine },
        ..watch
    }
}

/// A tracked sailing after a fetch: the engine moved on, and places shown as
/// found where it found them.
pub open spec fn after_fetch(watch: WatchView, fetched: Result<EventMap, FetchError>)
    -> WatchView {
    let state = next_state(watch.engine.state, reading_of(fetched, watch.engine.uuid));
    WatchView {
        element: ElementView { free_spots: found_count(state), ..watch.element },
        engine: EngineView { state, ..watch.engine },
    }
}

/// A tracked sailing after a tick of the display: its counter one further,
/// starting over before it would overflow.
pub open spec fn after_tick(watch: WatchView) -> WatchView {
    WatchView {
        element: ElementView {
            counter: ((watch.element.counter % usize::MAX) + 1) as usize,
            ..watch.element
        },
        ..watch
    }
}

/// The list after the driver of the sailing with the identifier was told its
/// next step: no other sailing changes.
pub open spec fn stepped(watches: Seq<WatchView>, uuid: Seq<char>) -> Seq<WatchView> {
    Seq::new(
        watches.len(),
        |i: int|
            if watches[i].element.event_uuid == uuid {
                after_step(watches[i])
            } else {
                watches[i]
            },
    )
}

/// The list after a fetch for the sailing with the identifier: no other
/// sailing changes.
pub open spec fn delivered(
    watches: Seq<WatchView>,
    uuid: Seq<char>,
    fetched: Result<EventMap, FetchError>,
) -> Seq<WatchView> {
    Seq::new(
        watches.len(),
        |i: int|
            if watches[i].element.event_uuid == uuid {
                after_fetch(watches[i], fetched)
            } else {
                watches[i]
            },
    )
}

/// The list after a tick of the display.
pub open spec fn ticked(watches: Seq<WatchView>) -> Seq<WatchView> {
    Seq::new(watches.len(), |i: int| after_tick(watches[i]))
}

/// The engine of the sailing with the identifier, where it is in the list.
pub open spec fn engine_of(watches: Seq<WatchView>, uuid: Seq<char>) -> Option<EngineView>
    decreases watches.len(),
{
    if watches.len() == 0 {
        None
    } else if watches.last().element.event_uuid == uuid {
        Some(watches.last().engine)
    } else {
        engine_of(watches.drop_last(), uuid)
    }
}

/// In a consistent list the engine of a sailing is the engine at its place,
/// and a sailing that is not in the list has none.
pub proof fn lemma_engine_of(watches: Seq<WatchView>, uuid: Seq<char>)
    requires
        consistent(watches),
    ensures
        forall|i: int|
            0 <= i < watches.len() && (#[trigger] watches[i]).element.event_uuid == uuid
                ==> engine_of(watches, uuid) == Some(watches[i].engine),
        !is_watched(watches, uuid) ==> engine_of(watches, uuid) is None,
    decreases watches.len(),
{
    if watches.len() > 0 {
        let front = watches.drop_last();
        assert forall|i: int| 0 <= i < front.len() implies front[i] == watches[i] by {}
        assert(consistent(front)) by {
            assert forall|i: int| 0 <= i < front.len() implies {
                &&& (#[trigger] front[i]).engine.uuid == front[i].element.event_uuid
                &&& front[i].element.free_spots == found_count(front[i].engine.state)
            } by {
                assert(front[i] == watches[i]);
            }
            assert forall|i: int, j: int|
                0 <= i < front.len() && 0 <= j < front.len() && i != j implies (
            #[trigger] front[i]).element.event_uuid != (#[trigger] front[j]).element.event_uuid by {
                assert(front[i] == watches[i] && front[j] == watches[j]);
            }
        }
        lemma_engine_of(front, uuid);
        assert forall|i: int|
            0 <= i < watches.len() && (#[trigger] watches[i]).element.event_uuid == uuid implies engine_of(
            watches,
            uuid,
        ) == Some(watches[i].engine) by {
            if i < watches.len() - 1 {
                assert(front[i] == watches[i]);
                assert(watches[watches.len() - 1].element.event_uuid != watches[i].element.event_uuid);
            }
        }
        if !is_watched(watches, uuid) {
            assert(watches[watches.len() - 1].element.event_uuid != uuid);
            assert(!is_watched(front, uuid)) by {
                if is_watched(front, uuid) {
                    let i = choose|i: int|
                        0 <= i < front.len() && (#[trigger] front[i]).element.event_uuid == uuid;
                    assert(watches[i].element.event_uuid == uuid);
                }
            }
        }
    }
}

/// The sailings that a clearing keeps: those with places found, or those
/// without.
pub open spec fn kept(watches: Seq<WatchView>, found: bool) -> Seq<WatchView>
    decreases watches.len(),
{
    if watches.len() == 0 {
        watches
    } else if (watches.last().element.free_spots is Some) == found {
        kept(watches.drop_last(), found).push(watches.last())
    } else {
        kept(watches.drop_last(), found)
    }
}

/// What a clearing keeps is the list filtered: the sailings with places
/// found, or those without, in the order of the list.
pub proof fn lemma_kept_is_filter(watches: Seq<WatchView>, found: bool)
    ensures
        kept(watches, found) == watches.filter(
            |one: WatchView| (one.element.free_spots is Some) == found,
        ),
    decreases watches.len(),
{
    reveal(Seq::filter);
    if watches.len() > 0 {
        lemma_kept_is_filter(watches.drop_last(), found);
    }
}

/// The registry of tracked sailings.
#[derive(Debug)]
pub struct TrackingRegistry {
    entries: Vec<Watch>,
}

impl View for TrackingRegistry {
    type V = Seq<WatchView>;

    closed spec fn view(&self) -> Seq<WatchView> {
        self.entries@.map_values(|one: Watch| one@)
    }
}

impl TrackingRegistry {
    /// The registry is well formed.
    pub open spec fn wf(&self) -> bool {
        consistent(self@)
    }

    /// A registry that tracks nothing.
    pub fn new() -> (registry: TrackingRegistry)
        ensures
            registry.wf(),
            registry@.len() == 0,
    {
        TrackingRegistry { entries: Vec::new() }
    }

    /// The number of tracked sailings.
    pub fn len(&self) -> (count: usize)
        ensures
            count == self@.len(),
    {
        self.entries.len()
    }

    fn position(&self, uuid: &str) -> (found: Option<usize>)
        ensures
            match found {
                Some(at) => at < self@.len() && self@[at as int].element.event_uuid == uuid@,
                None => !is_watched(self@, uuid@),
            },
    {
        let mut at: usize = 0;
        while at < self.entries.len()
            invariant
                at <= self@.len(),
                self@.len() == self.entries@.len(),
                forall|i: int| 0 <= i < at ==> (#[trigger] self@[i]).element.event_uuid != uuid@,
            decreases self@.len() - at,
        {
            assert(self@[at as int] == self.entries@[at as int]@);
            if str_eq(self.entries[at].element.event_uuid.as_str(), uuid) {
                return Some(at);
            }
            at += 1;
        }
        None
    }

    /// Whether a sailing with the identifier is tracked.
    pub fn contains(&self, uuid: &str) -> (held: bool)
        ensures
            held == is_watched(self@, uuid@),
    {
        self.position(uuid).is_some()
    }

    /// The identifiers of the tracked sailings, in the order of the list.
    pub fn get_event_ids(&self) -> (ids: Vec<String>)
        ensures
            ids@.len() == self@.len(),
            forall|i: int| 0 <= i < ids@.len() ==> (#[trigger] ids@[i])@ == self@[i].element.event_uuid,
    {
        let mut ids: Vec<String> = Vec::new();
        let mut at: usize = 0;
        while at < self.entries.len()
            invariant
                at <= self.entries@.len(),
                self@.len() == self.entries@.len(),
                ids@.len() == at,
                forall|i: int| 0 <= i < at ==> (#[trigger] ids@[i])@ == self@[i].element.event_uuid,
            decreases self.entries@.len() - at,
        {
            assert(self@[at as int] == self.entries@[at as int]@);
            ids.push(self.entries[at].element.event_uuid.clone());
            at += 1;
        }
        ids
    }

    /// The lines of the list, in its order.
    pub fn elements(&self) -> (lines: Vec<TrackingListElement>)
        ensures
            lines@.len() == self@.len(),
            forall|i: int| 0 <= i < lines@.len() ==> (#[trigger] lines@[i])@ == self@[i].element,
    {
        let mut lines: Vec<TrackingListElement> = Vec::new();
        let mut at: usize = 0;
        while at < self.entries.len()
            invariant
                at <= self.entries@.len(),
                self@.len() == self.entries@.len(),
                lines@.len() == at,
                forall|i: int| 0 <= i < at ==> (#[trigger] lines@[i])@ == self@[i].element,
            decreases self.entries@.len() - at,
        {
            assert(self@[at as int] == self.entries@[at as int]@);
            lines.push(self.entries[at].element.clone());
            at += 1;
        }
        lines
    }

    /// Starts to track a sailing: its line joins the end of the list with a
    /// new engine that polls at the given pace. A sailing that is tracked
    /// already is not tracked again: nothing changes then.
    pub fn track(
        &mut self,
        element: TrackingListElement,
        departure_date: Date,
        pause_seconds: u64,
    ) -> (started: bool)
        requires
            old(self).wf(),
        ensures
            final(self).wf(),
            started == !is_watched(old(self)@, element@.event_uuid),
            !started ==> final(self)@ == old(self)@,
            started ==> final(self)@ == old(self)@.push(
                WatchView {
                    element: ElementView { free_spots: None, ..element@ },
                    engine: EngineView {
                        state: EngineState::Polling,
                        uuid: element@.event_uuid,
                        line: element@.direction,
                        date: departure_date,
                        interval: pause_seconds,
                        ticks: 0,
                    },
                },
            ),
    {
        if self.position(element.event_uuid.as_str()).is_some() {
            return false;
        }
        let engine = WaitEngine::new(
            element.direction,
            departure_date,
            element.event_uuid.clone(),
            pause_seconds,
        );
        let mut element = element;
        element.free_spots = None;
        let ghost before = self@;
        let one = Watch { element, engine };
        self.entries.push(one);
        proof {
            assert(self@ =~= before.push(one@));
            assert forall|i: int, j: int|
                0 <= i < self@.len() && 0 <= j < self@.len() && i != j implies (
            #[trigger] self@[i]).element.event_uuid != (#[trigger] self@[j]).element.event_uuid by {
                if i < before.len() {
                    assert(before[i] == self@[i]);
                }
                if j < before.len() {
                    assert(before[j] == self@[j]);
                }
            }
            assert forall|i: int| 0 <= i < self@.len() implies {
                &&& (#[trigger] self@[i]).engine.uuid == self@[i].element.event_uuid
                &&& self@[i].element.free_spots == found_count(self@[i].engine.state)
            } by {
                if i < before.len() {
                    assert(before[i] == self@[i]);
                }
            }
        }
        true
    }
}

impl TrackingRegistry {
    /// Says what the driver of the engine of a sailing does next. The engine
    /// of no other sailing is touched. A sailing that is not tracked, or no
    /// longer, has no engine: its driver is told to stop.
    pub fn next_step(&mut self, uuid: &str) -> (step: Step)
        requires
            old(self).wf(),
        ensures
            final(self).wf(),
            final(self)@ == stepped(old(self)@, uuid@),
            step == match engine_of(old(self)@, uuid@) {
                Some(engine) => step_for(engine),
                None => Step::Stop,
            },
    {
        let ghost before = self@;
        proof {
            lemma_engine_of(before, uuid@);
        }
        match self.position(uuid) {
            Some(at) => {
                assert(self.entries@[at as int]@ == before[at as int]);
                let step = self.entries[at].engine.next_step();
                proof {
                    assert(self@ =~= before.update(at as int, after_step(before[at as int])));
                    assert(self@ =~= stepped(before, uuid@));
                }
                step
            },
            None => {
                assert(self@ =~= stepped(before, uuid@));
                Step::Stop
            },
        }
    }

    /// Hands the outcome of a fetch to the engine of a sailing, and shows
    /// the places as found where the engine found them. The engine and the
    /// line of no other sailing are touched. For a sailing that is not
    /// tracked, or no longer, nothing is emitted.
    pub fn on_fetch(&mut self, uuid: &str, fetched: Result<EventMap, FetchError>) -> (emission:
        Option<Result<WaitForSpot, TransportError>>)
        requires
            old(self).wf(),
            fetched matches Ok(events) ==> events.wf(),
        ensures
            final(self).wf(),
            final(self)@ == delivered(old(self)@, uuid@, fetched),
            signal_of(emission) == match engine_of(old(self)@, uuid@) {
                Some(engine) => signal_for(engine.state, reading_of(fetched, uuid@)),
                None => None,
            },
            emission matches Some(Err(error)) ==> fetched matches Err(FetchError::Transport(failure))
                && error.cause@ == failure.cause@,
    {
        let ghost before = self@;
        proof {
            lemma_engine_of(before, uuid@);
        }
        match self.position(uuid) {
            Some(at) => {
                assert(self.entries@[at as int]@ == before[at as int]);
                let emission = self.entries[at].engine.on_fetch(fetched);
                let free_spots = match self.entries[at].engine.current_state() {
                    EngineState::Found(count) => Some(count),
                    _ => None,
                };
                self.entries[at].element.free_spots = free_spots;
                proof {
                    assert(self@ =~= before.update(at as int, after_fetch(before[at as int], fetched)));
                    assert(self@ =~= delivered(before, uuid@, fetched));
                }
                emission
            },
            None => {
                assert(self@ =~= delivered(before, uuid@, fetched));
                None
            },
        }
    }

    /// Counts one tick of the display on every line of the list.
    pub fn tick(&mut self)
        requires
            old(self).wf(),
        ensures
            final(self).wf(),
            final(self)@ == ticked(old(self)@),
    {
        let ghost before = self@;
        let mut at: usize = 0;
        while at < self.entries.len()
            invariant
                at <= self@.len(),
                self@.len() == before.len(),
                self@.len() == self.entries@.len(),
                forall|i: int| 0 <= i < at ==> (#[trigger] self@[i]) == after_tick(before[i]),
                forall|i: int| at <= i < before.len() ==> (#[trigger] self@[i]) == before[i],
            decreases self@.len() - at,
        {
            let ghost now = self@;
            assert(self.entries@[at as int]@ == now[at as int]);
            let counter = self.entries[at].element.counter;
            self.entries[at].element.counter = (counter % usize::MAX) + 1;
            proof {
                assert(self@ =~= now.update(at as int, after_tick(now[at as int])));
            }
            at += 1;
        }
        assert(self@ =~= ticked(before));
    }

    /// Stops tracking every sailing. Their engines end with them.
    pub fn clear_all(&mut self)
        ensures
            final(self).wf(),
            final(self)@.len() == 0,
    {
        self.entries.clear();
    }
}

/// Taking a sailing out of a consistent list leaves it consistent.
pub proof fn lemma_remove_consistent(watches: Seq<WatchView>, at: int)
    requires
        consistent(watches),
        0 <= at < watches.len(),
    ensures
        consistent(watches.remove(at)),
{
    let rest = watches.remove(at);
    assert forall|i: int| 0 <= i < rest.len() implies {
        &&& (#[trigger] rest[i]).engine.uuid == rest[i].element.event_uuid
        &&& rest[i].element.free_spots == found_count(rest[i].engine.state)
    } by {
        let from = if i < at {
            i
        } else {
            i + 1
        };
        assert(rest[i] == watches[from]);
    }
    assert forall|i: int, j: int|
        0 <= i < rest.len() && 0 <= j < rest.len() && i != j implies (
    #[trigger] rest[i]).element.event_uuid != (#[trigger] rest[j]).element.event_uuid by {
        let from_i = if i < at {
            i
        } else {
            i + 1
        };
        let from_j = if j < at {
            j
        } else {
            j + 1
        };
        assert(rest[i] == watches[from_i] && rest[j] == watches[from_j]);
    }
}

impl TrackingRegistry {
    fn retain(&mut self, found: bool)
        requires
            old(self).wf(),
        ensures
            final(self).wf(),
            final(self)@ == kept(old(self)@, found),
    {
        let ghost before = self@;
        let ghost mut seen: int = 0;
        let mut at: usize = 0;
        proof {
            assert(kept(before.take(0), found) =~= self@.take(0));
        }
        while at < self.entries.len()
            invariant
                at <= self@.len(),
                self@.len() == self.entries@.len(),
                0 <= seen <= before.len(),
                before.len() - seen == self@.len() - at,
                consistent(self@),
                self@.take(at as int) == kept(before.take(seen), found),
                self@.skip(at as int) == before.skip(seen),
            decreases self@.len() - at,
        {
            let ghost now = self@;
            proof {
                assert(now[at as int] == self.entries@[at as int]@);
                assert(now.skip(at as int)[0] == before.skip(seen)[0]);
                assert(before.take(seen + 1).drop_last() =~= before.take(seen));
                assert(before.take(seen + 1).last() == before[seen]);
                assert(now[at as int] == before[seen]);
                assert(now[at as int].element.free_spots == self.entries@[at as int].element.free_spots);
            }
            if self.entries[at].element.free_spots.is_some() == found {
                proof {
                    assert(now.take(at + 1) =~= now.take(at as int).push(now[at as int]));
                    assert(now.skip(at + 1) =~= now.skip(at as int).drop_first());
                    assert(before.skip(seen + 1) =~= before.skip(seen).drop_first());
                    seen = seen + 1;
                }
                at += 1;
            } else {
                self.entries.remove(at);
                proof {
                    assert(self@ =~= now.remove(at as int));
                    lemma_remove_consistent(now, at as int);
                    assert(self@.take(at as int) =~= now.take(at as int));
                    assert(self@.skip(at as int) =~= now.skip(at as int).drop_first());
                    assert(before.skip(seen + 1) =~= before.skip(seen).drop_first());
                    seen = seen + 1;
                }
            }
        }
        proof {
            assert(self@.take(at as int) =~= self@);
            assert(before.take(seen) =~= before);
        }
    }

    /// Takes the sailings with places found out of the list. Their engines
    /// have ended; those of the other sailings are not touched.
    pub fn clear_finished(&mut self)
        requires
            old(self).wf(),
        ensures
            final(self).wf(),
            final(self)@ == kept(old(self)@, false),
    {
        self.retain(false);
    }

    /// Takes the sailings without places found out of the list. Their
    /// engines end with them: the driver of each is told to stop, and what it
    /// still fetches is not taken.
    pub fn clear_unfinished(&mut self)
        requires
            old(self).wf(),
        ensures
            final(self).wf(),
            final(self)@ == kept(old(self)@, true),
    {
        self.retain(true);
    }
}

/// Sailings are tracked apart from one another. A fetch for one sailing,
/// be it one that fails on the way and ends the engine of that sailing,
/// leaves every other sailing as it was; and the other sailing then takes its
/// own next fetch as if the first had never come.
pub proof fn lemma_sailings_are_isolated(
    watches: Seq<WatchView>,
    one: int,
    other: int,
    fetched: Result<EventMap, FetchError>,
    next: Result<EventMap, FetchError>,
)
    requires
        consistent(watches),
        0 <= one < watches.len(),
        0 <= other < watches.len(),
        one != other,
    ensures
        delivered(watches, watches[one].element.event_uuid, fetched)[one] == after_fetch(
            watches[one],
            fetched,
        ),
        delivered(watches, watches[one].element.event_uuid, fetched)[other] == watches[other],
        delivered(
            delivered(watches, watches[one].element.event_uuid, fetched),
            watches[other].element.event_uuid,
            next,
        )[other] == after_fetch(watches[other], next),
        fetched is Err && fetched->Err_0 is Transport && watches[one].engine.state
            == EngineState::Polling ==> after_fetch(watches[one], fetched).engine.state
            == EngineState::Failed,
{
    assert(watches[one].element.event_uuid != watches[other].element.event_uuid);
}

/// A clearing takes a sailing out exactly where it was asked to: a sailing
/// stays in the list where its line shows places as the clearing keeps them,
/// and it stays with its engine as it was. A sailing that was taken out has
/// no engine any more, so its driver is told to stop and what it still
/// fetches is not taken.
pub proof fn lemma_clearing(watches: Seq<WatchView>, found: bool, at: int)
    requires
        consistent(watches),
        0 <= at < watches.len(),
    ensures
        consistent(kept(watches, found)),
        (watches[at].element.free_spots is Some) == found ==> engine_of(
            kept(watches, found),
            watches[at].element.event_uuid,
        ) == Some(watches[at].engine),
        (watches[at].element.free_spots is Some) != found ==> engine_of(
            kept(watches, found),
            watches[at].element.event_uuid,
        ) is None,
    decreases watches.len(),
{
    let uuid = watches[at].element.event_uuid;
    let front = watches.drop_last();
    let last = watches.last();
    lemma_remove_consistent(watches, watches.len() - 1);
    assert(front =~= watches.remove(watches.len() - 1));
    lemma_kept_within(front, found);
    let all_kept = kept(watches, found);
    if (last.element.free_spots is Some) == found {
        assert(all_kept.drop_last() =~= kept(front, found));
        assert(all_kept.last() == last);
    }
    if at < watches.len() - 1 {
        assert(front[at] == watches[at]);
        lemma_clearing(front, found, at);
        assert(last.element.event_uuid != uuid);
    } else {
        if front.len() > 0 {
            lemma_clearing(front, found, 0);
        }
        assert(!is_watched(front, uuid)) by {
            if is_watched(front, uuid) {
                let i = choose|i: int|
                    0 <= i < front.len() && (#[trigger] front[i]).element.event_uuid == uuid;
                assert(watches[i].element.event_uuid == uuid);
            }
        }
        assert(!is_watched(kept(front, found), uuid)) by {
            if is_watched(kept(front, found), uuid) {
                let i = choose|i: int|
                    0 <= i < kept(front, found).len() && (#[trigger] kept(
                        front,
                        found,
                    )[i]).element.event_uuid == uuid;
                assert(front.contains(kept(front, found)[i]));
                let j = choose|j: int| 0 <= j < front.len() && front[j] == kept(front, found)[i];
                assert(front[j].element.event_uuid == uuid);
            }
        }
        lemma_engine_of(kept(front, found), uuid);
    }
    assert(consistent(kept(watches, found))) by {
        let rest = kept(front, found);
        if (last.element.free_spots is Some) == found {
            let all = rest.push(last);
            assert forall|i: int, j: int|
                0 <= i < all.len() && 0 <= j < all.len() && i != j implies (
            #[trigger] all[i]).element.event_uuid != (#[trigger] all[j]).element.event_uuid by {
                if i < rest.len() && j < rest.len() {
                } else {
                    let other = if i < rest.len() {
                        i
                    } else {
                        j
                    };
                    assert(front.contains(rest[other]));
                    let k = choose|k: int| 0 <= k < front.len() && front[k] == rest[other];
                    assert(watches[k] == front[k]);
                    assert(watches[k].element.event_uuid != watches[watches.len()
                        - 1].element.event_uuid);
                }
            }
            assert forall|i: int| 0 <= i < all.len() implies {
                &&& (#[trigger] all[i]).engine.uuid == all[i].element.event_uuid
                &&& all[i].element.free_spots == found_count(all[i].engine.state)
            } by {
                if i < rest.len() {
                    assert(all[i] == rest[i]);
                } else {
                    assert(all[i] == watches[watches.len() - 1]);
                }
            }
        }
    }
}

/// What a clearing keeps was in the list before.
pub proof fn lemma_kept_within(watches: Seq<WatchView>, found: bool)
    ensures
        forall|i: int|
            0 <= i < kept(watches, found).len() ==> watches.contains(
                #[trigger] kept(watches, found)[i],
            ),
        forall|i: int|
            0 <= i < kept(watches, found).len() ==> ((#[trigger] kept(
                watches,
                found,
            )[i]).element.free_spots is Some) == found,
    decreases watches.len(),
{
    if watches.len() > 0 {
        let front = watches.drop_last();
        lemma_kept_within(front, found);
        let rest = kept(front, found);
        assert forall|i: int| 0 <= i < kept(watches, found).len() implies watches.contains(
            #[trigger] kept(watches, found)[i],
        ) by {
            if i < rest.len() {
                assert(front.contains(rest[i]));
                let k = choose|k: int| 0 <= k < front.len() && front[k] == rest[i];
                assert(watches[k] == rest[i]);
            } else {
                assert(watches[watches.len() - 1] == kept(watches, found)[i]);
            }
        }
    }
}

} // verus!
