//! Finding the tracked sailing in the list of a response.

use vstd::prelude::*;
use crate::event::{Event, EventView, views_of};
use crate::event_map::{keyed, lemma_keyed_domain, lemma_keyed_last_wins, has_key};
use crate::text::str_eq;

verus! {

/// The wish to wait for a place on the sailing with this identifier.
#[derive(Debug)]
pub struct WaitForSpot(pub String);

/// The position of the last sailing of the list with the identifier, if one
/// has it: of two sailings with one identifier the later one stands for both.
pub open spec fn last_match(events: Seq<EventView>, uuid: Seq<char>) -> Option<int>
    decreases events.len(),
{
    if events.len() == 0 {
        None
    } else if events.last().uuid == uuid {
        Some(events.len() - 1)
    } else {
        last_match(events.drop_last(), uuid)
    }
}

/// The last match is a sailing with the identifier that none with it
/// follows; there is none exactly where no sailing has the identifier.
pub proof fn lemma_last_match(events: Seq<EventView>, uuid: Seq<char>)
    ensures
        match last_match(events, uuid) {
            Some(at) => 0 <= at < events.len() && events[at].uuid == uuid && forall|i: int|
                at < i < events.len() ==> (#[trigger] events[i]).uuid != uuid,
            None => forall|i: int| 0 <= i < events.len() ==> (#[trigger] events[i]).uuid != uuid,
        },
    decreases events.len(),
{
    if events.len() > 0 && events.last().uuid != uuid {
        let front = events.drop_last();
        lemma_last_match(front, uuid);
        match last_match(front, uuid) {
            Some(at) => {
                assert(front[at] == events[at]);
                assert forall|i: int| at < i < events.len() implies (#[trigger] events[i]).uuid
                    != uuid by {
                    if i < front.len() {
                        assert(front[i] == events[i]);
                    }
                }
            },
            None => {
                assert forall|i: int| 0 <= i < events.len() implies (#[trigger] events[i]).uuid
                    != uuid by {
                    if i < front.len() {
                        assert(front[i] == events[i]);
                    }
                }
            },
        }
    }
}

/// Looking a sailing up in the list and in the list keyed by identifier
/// gives the same: the last match is what the keyed list holds under the
/// identifier, and there is no match exactly where it holds nothing.
pub proof fn lemma_last_match_is_keyed(events: Seq<EventView>, uuid: Seq<char>)
    ensures
        match last_match(events, uuid) {
            Some(at) => keyed(events).dom().contains(uuid) && keyed(events)[uuid] == events[at],
            None => !keyed(events).dom().contains(uuid),
        },
{
    lemma_last_match(events, uuid);
    lemma_keyed_domain(events, uuid);
    match last_match(events, uuid) {
        Some(at) => {
            lemma_keyed_last_wins(events, at);
        },
        None => {
            assert(!has_key(events, uuid));
        },
    }
}

impl WaitForSpot {
    /// The sailing of the list that has the identifier; of several that
    /// have it, the last.
    pub fn find_matching_event(&self, events: Vec<Event>) -> (found: Option<Event>)
        ensures
            match last_match(views_of(events@), self.0@) {
                Some(at) => found matches Some(event) && event@ == events@[at]@,
                None => found is None,
            },
    {
        let ghost all = views_of(events@);
        let mut at: usize = events.len();
        assert(all.take(at as int) =~= all);
        while at > 0
            invariant
                at <= events@.len(),
                all == views_of(events@),
                last_match(all, self.0@) == last_match(all.take(at as int), self.0@),
            decreases at,
        {
            let ghost front = all.take(at as int);
            assert(front.last() == all[at - 1]);
            assert(front.drop_last() =~= all.take(at - 1));
            if str_eq(events[at - 1].uuid.as_str(), self.0.as_str()) {
                return Some(events[at - 1].clone());
            }
            at -= 1;
        }
        assert(all.take(0).len() == 0);
        None
    }
}

} // verus!
