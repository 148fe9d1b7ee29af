//! The feed through which the surrounding program learns of the sailings
//! of a day and of what the wait engines emit.

use vstd::prelude::*;
use crate::datetime::Date;
use crate::direction::Direction;
use crate::event::{EventView, WaitForSpot};
use crate::event_map::EventMap;
use crate::text::str_eq;

verus! {

/// What the surrounding program takes from the feed of one day and line.
#[derive(Debug)]
pub enum ApiEvent {
    /// The sailings of the day, from which one is chosen.
    FetchedEvents(EventMap),
    /// What the engine of the sailing with this identifier emitted.
    WaitResult((String, WaitForSpot)),
}

/// The feed of one day and line: the sailings of the day, handed out once,
/// and after them what the engines emit. Of what one engine emitted and
/// nobody took yet, only the newest is kept.
#[derive(Debug)]
pub struct ApiClient {
    departure_date: Date,
    direction: Direction,
    event_map: EventMap,
    event_list_sent: bool,
    wait_list: Vec<(String, WaitForSpot)>,
}

/// What an [`ApiClient`] holds.
pub struct FeedView {
    pub departure_date: Date,
    pub direction: Direction,
    pub events: Map<Seq<char>, EventView>,
    pub event_list_sent: bool,
    pub pending: Seq<(Seq<char>, WaitForSpot)>,
}

/// The place of the pending result of a sailing, where one is pending.
pub open spec fn pending_place(pending: Seq<(Seq<char>, WaitForSpot)>, uuid: Seq<char>) -> Option<
    int,
>
    decreases pending.len(),
{
    if pending.len() == 0 {
        None
    } else if pending.last().0 == uuid {
        Some(pending.len() - 1)
    } else {
        pending_place(pending.drop_last(), uuid)
    }
}

/// The pending results after one more came in: it takes the place of the
/// pending result of its sailing, or joins the end where none is pending.
pub open spec fn with_result(
    pending: Seq<(Seq<char>, WaitForSpot)>,
    uuid: Seq<char>,
    result: WaitForSpot,
) -> Seq<(Seq<char>, WaitForSpot)> {
    match pending_place(pending, uuid) {
        Some(at) => pending.update(at, (uuid, result)),
        None => pending.push((uuid, result)),
    }
}

/// No two pending results are of one sailing.
pub open spec fn one_for_each(pending: Seq<(Seq<char>, WaitForSpot)>) -> bool {
    forall|i: int, j: int|
        0 <= i < pending.len() && 0 <= j < pending.len() && i != j ==> (#[trigger] pending[i]).0
            != (#[trigger] pending[j]).0
}

/// The pending place of a sailing holds a result of that sailing; where
/// there is none, no pending result is of that sailing.
pub proof fn lemma_pending_place(pending: Seq<(Seq<char>, WaitForSpot)>, uuid: Seq<char>)
    ensures
        match pending_place(pending, uuid) {
            Some(at) => 0 <= at < pending.len() && pending[at].0 == uuid,
            None => forall|i: int| 0 <= i < pending.len() ==> (#[trigger] pending[i]).0 != uuid,
        },
    decreases pending.len(),
{
    if pending.len() > 0 {
        let front = pending.drop_last();
        lemma_pending_place(front, uuid);
        if pending.last().0 != uuid {
            match pending_place(front, uuid) {
                Some(at) => {
                    assert(front[at] == pending[at]);
                },
                None => {
                    assert forall|i: int| 0 <= i < pending.len() implies (#[trigger] pending[i]).0
                        != uuid by {
                        if i < front.len() {
                            assert(front[i] == pending[i]);
                        }
                    }
                },
            }
        }
    }
}

/// A new result never touches the pending result of another sailing, and
/// afterwards exactly one result of its own sailing is pending: the new one.
pub proof fn lemma_last_write_wins(
    pending: Seq<(Seq<char>, WaitForSpot)>,
    uuid: Seq<char>,
    result: WaitForSpot,
)
    requires
        one_for_each(pending),
    ensures
        one_for_each(with_result(pending, uuid, result)),
        forall|i: int|
            0 <= i < pending.len() && (#[trigger] pending[i]).0 != uuid ==> with_result(
                pending,
                uuid,
                result,
            )[i] == pending[i],
        exists|i: int|
            0 <= i < with_result(pending, uuid, result).len() && #[trigger] with_result(
                pending,
                uuid,
                result,
            )[i] == (uuid, result),
{
    lemma_pending_place(pending, uuid);
    let after = with_result(pending, uuid, result);
    match pending_place(pending, uuid) {
        Some(at) => {
            assert(after[at] == (uuid, result));
            assert forall|i: int, j: int|
                0 <= i < after.len() && 0 <= j < after.len() && i != j implies (
            #[trigger] after[i]).0 != (#[trigger] after[j]).0 by {
                assert(after[i].0 == pending[i].0 && after[j].0 == pending[j].0);
            }
        },
        None => {
            assert(after[pending.len() as int] == (uuid, result));
            assert forall|i: int, j: int|
                0 <= i < after.len() && 0 <= j < after.len() && i != j implies (
            #[trigger] after[i]).0 != (#[trigger] after[j]).0 by {
                if i < pending.len() {
                    assert(after[i] == pending[i]);
                }
                if j < pending.len() {
                    assert(after[j] == pending[j]);
                }
            }
        },
    }
}

impl View for ApiClient {
    type V = FeedView;

    closed spec fn view(&self) -> FeedView {
        FeedView {
            departure_date: self.departure_date,
            direction: self.direction,
            events: self.event_map@,
            event_list_sent: self.event_list_sent,
            pending: self.wait_list@.map_values(|one: (String, WaitForSpot)| (one.0@, one.1)),
        }
    }
}

impl ApiClient {
    /// The feed is well formed.
    pub closed spec fn wf(&self) -> bool {
        self.event_map.wf() && one_for_each(self@.pending)
    }

    /// The feed of a day and a line, with the sailings that a first fetch
    /// gave. Nothing was handed out yet and nothing is pending.
    pub fn new(departure_date: Date, direction: Direction, event_map: EventMap) -> (feed: ApiClient)
        requires
            event_map.wf(),
        ensures
            feed.wf(),
            feed@ == (FeedView {
                departure_date,
                direction,
                events: event_map@,
                event_list_sent: false,
                pending: Seq::empty(),
            }),
    {
        let feed = ApiClient {
            departure_date,
            direction,
            event_map,
            event_list_sent: false,
            wait_list: Vec::new(),
        };
        assert(feed@.pending =~= Seq::empty());
        feed
    }

    /// Takes in what the engine of a sailing emitted. It replaces what that
    /// engine emitted before and nobody took yet; what other engines
    /// emitted stays.
    pub fn push_result(&mut self, event_uuid: String, result: WaitForSpot)
        requires
            old(self).wf(),
        ensures
            final(self).wf(),
            final(self)@ == (FeedView {
                pending: with_result(old(self)@.pending, event_uuid@, result),
                ..old(self)@
            }),
    {
        let ghost start = self@;
        let ghost before = self@.pending;
        proof {
            lemma_last_write_wins(before, event_uuid@, result);
            assert(before.take(before.len() as int) =~= before);
        }
        let mut at: usize = self.wait_list.len();
        while at > 0
            invariant
                at <= self.wait_list@.len(),
                self@ == start,
                start == old(self)@,
                self.event_map.wf(),
                before == start.pending,
                before.len() == self.wait_list@.len(),
                one_for_each(with_result(before, event_uuid@, result)),
                pending_place(before, event_uuid@) == pending_place(
                    before.take(at as int),
                    event_uuid@,
                ),
            decreases at,
        {
            let ghost front = before.take(at as int);
            assert(front.last() == before[at - 1]);
            assert(front.drop_last() =~= before.take(at - 1));
            assert(before[at - 1] == (self.wait_list@[at - 1].0@, self.wait_list@[at - 1].1));
            if str_eq(self.wait_list[at - 1].0.as_str(), event_uuid.as_str()) {
                assert(front.last().0 == event_uuid@);
                assert(pending_place(front, event_uuid@) == Some(at - 1));
                self.wait_list.set(at - 1, (event_uuid, result));
                assert(self@.pending =~= before.update(at - 1, (event_uuid@, result)));
                return ;
            }
            at -= 1;
        }
        assert(before.take(0).len() == 0);
        self.wait_list.push((event_uuid, result));
        assert(self@.pending =~= before.push((event_uuid@, result)));
    }

    /// Hands out the next item of the feed: first, and once, the sailings of
    /// the day; then the oldest pending result; `None` where nothing is
    /// pending.
    pub fn poll(&mut self) -> (item: Option<ApiEvent>)
        requires
            old(self).wf(),
        ensures
            final(self).wf(),
            !old(self)@.event_list_sent ==> (item matches Some(ApiEvent::FetchedEvents(events))
                && events.wf() && events@ == old(self)@.events) && final(self)@ == (FeedView {
                event_list_sent: true,
                ..old(self)@
            }),
            old(self)@.event_list_sent && old(self)@.pending.len() > 0 ==> (item matches Some(
                ApiEvent::WaitResult(result),
            ) && (result.0@, result.1) == old(self)@.pending[0]) && final(self)@ == (FeedView {
                pending: old(self)@.pending.drop_first(),
                ..old(self)@
            }),
            old(self)@.event_list_sent && old(self)@.pending.len() == 0 ==> item is None
                && final(self)@ == old(self)@,
    {
        let ghost before = self@;
        if !self.event_list_sent {
            self.event_list_sent = true;
            assert(self@.pending =~= before.pending);
            return Some(ApiEvent::FetchedEvents(self.event_map.clone()));
        }
        if self.wait_list.len() > 0 {
            let result = self.wait_list.remove(0);
            proof {
                assert(self@.pending =~= before.pending.drop_first());
                assert forall|i: int, j: int|
                    0 <= i < self@.pending.len() && 0 <= j < self@.pending.len() && i
                        != j implies (#[trigger] self@.pending[i]).0 != (
                #[trigger] self@.pending[j]).0 by {
                    assert(self@.pending[i] == before.pending[i + 1]);
                    assert(self@.pending[j] == before.pending[j + 1]);
                }
            }
            return Some(ApiEvent::WaitResult(result));
        }
        None
    }
}

} // verus!
