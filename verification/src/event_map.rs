//! The sailings of one response, keyed by their identifier.

use vstd::prelude::*;
use crate::event::{Event, EventView, views_of};
use crate::text::{lex_le, str_eq, str_le};
use crate::text::{lemma_lex_le_antisymmetric, lemma_lex_le_reflexive, lemma_lex_le_total};
use crate::text::lemma_lex_le_transitive;

verus! {

/// The map that keying `items` by identifier gives: of two items with one
/// identifier, the later one stays.
pub open spec fn keyed(items: Seq<EventView>) -> Map<Seq<char>, EventView>
    decreases items.len(),
{
    if items.len() == 0 {
        Map::empty()
    } else {
        keyed(items.drop_last()).insert(items.last().uuid, items.last())
    }
}

/// No two items of the sequence share an identifier.
pub open spec fn distinct_keys(items: Seq<EventView>) -> bool {
    forall|i: int, j: int|
        0 <= i < items.len() && 0 <= j < items.len() && i != j ==> items[i].uuid != items[j].uuid
}

/// Some item of the sequence has the identifier.
pub open spec fn has_key(items: Seq<EventView>, key: Seq<char>) -> bool {
    exists|i: int| 0 <= i < items.len() && #[trigger] items[i].uuid == key
}

/// The identifiers of the keyed map are those of the items.
pub proof fn lemma_keyed_domain(items: Seq<EventView>, key: Seq<char>)
    ensures
        keyed(items).dom().contains(key) <==> has_key(items, key),
    decreases items.len(),
{
    if items.len() > 0 {
        let front = items.drop_last();
        lemma_keyed_domain(front, key);
        if has_key(items, key) {
            let i = choose|i: int| 0 <= i < items.len() && #[trigger] items[i].uuid == key;
            if i < items.len() - 1 {
                assert(front[i].uuid == key);
            }
        }
        if has_key(front, key) {
            let i = choose|i: int| 0 <= i < front.len() && #[trigger] front[i].uuid == key;
            assert(items[i].uuid == key);
        }
        if items.last().uuid == key {
            assert(items[items.len() - 1].uuid == key);
        }
    }
}

/// Under an identifier the keyed map holds the last item that has it.
pub proof fn lemma_keyed_last_wins(items: Seq<EventView>, at: int)
    requires
        0 <= at < items.len(),
        forall|later: int| at < later < items.len() ==> items[later].uuid != items[at].uuid,
    ensures
        keyed(items).dom().contains(items[at].uuid),
        keyed(items)[items[at].uuid] == items[at],
    decreases items.len(),
{
    if at < items.len() - 1 {
        let front = items.drop_last();
        assert(front[at] == items[at]);
        assert forall|later: int| at < later < front.len() implies front[later].uuid
            != front[at].uuid by {
            assert(front[later] == items[later]);
        }
        lemma_keyed_last_wins(front, at);
    }
}

/// Keying is finite and holds at most as many sailings as there are items.
pub proof fn lemma_keyed_finite(items: Seq<EventView>)
    ensures
        keyed(items).dom().finite(),
        keyed(items).dom().len() <= items.len(),
    decreases items.len(),
{
    if items.len() > 0 {
        lemma_keyed_finite(items.drop_last());
    }
}

/// With distinct identifiers every item is kept, each under its own.
pub proof fn lemma_keyed_distinct(items: Seq<EventView>)
    requires
        distinct_keys(items),
    ensures
        keyed(items).dom().len() == items.len(),
        forall|i: int| 0 <= i < items.len() ==> keyed(items)[#[trigger] items[i].uuid] == items[i],
    decreases items.len(),
{
    lemma_keyed_finite(items);
    if items.len() > 0 {
        let front = items.drop_last();
        assert forall|i: int, j: int|
            0 <= i < front.len() && 0 <= j < front.len() && i != j implies front[i].uuid
            != front[j].uuid by {
            assert(front[i] == items[i] && front[j] == items[j]);
        }
        lemma_keyed_distinct(front);
        lemma_keyed_finite(front);
        lemma_keyed_domain(front, items.last().uuid);
        if has_key(front, items.last().uuid) {
            let i = choose|i: int| 0 <= i < front.len() && #[trigger] front[i].uuid == items.last().uuid;
            assert(front[i] == items[i]);
            assert(false);
        }
        assert forall|i: int| 0 <= i < items.len() implies keyed(items)[#[trigger] items[i].uuid]
            == items[i] by {
            if i < items.len() - 1 {
                assert(front[i] == items[i]);
            }
        }
    }
}

/// Replacing an item by one with the same identifier replaces what the keyed
/// map holds under it, and nothing else.
pub proof fn lemma_keyed_update(items: Seq<EventView>, at: int, item: EventView)
    requires
        distinct_keys(items),
        0 <= at < items.len(),
        items[at].uuid == item.uuid,
    ensures
        distinct_keys(items.update(at, item)),
        keyed(items.update(at, item)) == keyed(items).insert(item.uuid, item),
{
    let updated = items.update(at, item);
    lemma_keyed_distinct(items);
    lemma_keyed_distinct(updated);
    assert forall|key: Seq<char>| #[trigger]
        keyed(updated).dom().contains(key) == keyed(items).insert(item.uuid, item).dom().contains(
            key,
        ) by {
        lemma_keyed_domain(items, key);
        lemma_keyed_domain(updated, key);
        if has_key(items, key) {
            let i = choose|i: int| 0 <= i < items.len() && #[trigger] items[i].uuid == key;
            assert(updated[i].uuid == key);
        }
        if has_key(updated, key) {
            let i = choose|i: int| 0 <= i < updated.len() && #[trigger] updated[i].uuid == key;
            assert(items[i].uuid == key);
        }
    }
    assert forall|key: Seq<char>| #[trigger] keyed(updated).dom().contains(key) implies keyed(
        updated,
    )[key] == keyed(items).insert(item.uuid, item)[key] by {
        lemma_keyed_domain(updated, key);
        let i = choose|i: int| 0 <= i < updated.len() && #[trigger] updated[i].uuid == key;
        assert(keyed(updated)[updated[i].uuid] == updated[i]);
        if i != at {
            assert(keyed(items)[items[i].uuid] == items[i]);
        }
    }
    assert(keyed(updated) =~= keyed(items).insert(item.uuid, item));
}

/// A keyed collection of sailings: at most one under each identifier.
#[derive(Debug)]
pub struct EventMap {
    entries: Vec<Event>,
}

impl View for EventMap {
    type V = Map<Seq<char>, EventView>;

    closed spec fn view(&self) -> Map<Seq<char>, EventView> {
        keyed(views_of(self.entries@))
    }
}

impl EventMap {
    /// The collection is well formed: no identifier occurs twice in it.
    pub closed spec fn wf(&self) -> bool {
        distinct_keys(views_of(self.entries@))
    }

    /// A collection without sailings.
    pub fn new() -> (map: EventMap)
        ensures
            map.wf(),
            map@ == Map::<Seq<char>, EventView>::empty(),
    {
        EventMap { entries: Vec::new() }
    }

    /// The number of sailings.
    pub fn len(&self) -> (count: usize)
        requires
            self.wf(),
        ensures
            self@.dom().finite(),
            count == self@.dom().len(),
    {
        proof {
            lemma_keyed_distinct(views_of(self.entries@));
            lemma_keyed_finite(views_of(self.entries@));
        }
        self.entries.len()
    }

    /// Whether there is no sailing.
    pub fn is_empty(&self) -> (empty: bool)
        ensures
            empty == (self@ == Map::<Seq<char>, EventView>::empty()),
    {
        proof {
            if self.entries@.len() > 0 {
                lemma_keyed_domain(views_of(self.entries@), self.entries@[0]@.uuid);
                assert(views_of(self.entries@)[0].uuid == self.entries@[0]@.uuid);
            }
        }
        self.entries.len() == 0
    }

    fn position(&self, key: &str) -> (found: Option<usize>)
        ensures
            match found {
                Some(at) => at < self.entries@.len() && self.entries@[at as int]@.uuid == key@,
                None => !has_key(views_of(self.entries@), key@),
            },
    {
        let mut at: usize = 0;
        while at < self.entries.len()
            invariant
                at <= self.entries@.len(),
                forall|i: int| 0 <= i < at ==> self.entries@[i]@.uuid != key@,
            decreases self.entries@.len() - at,
        {
            if str_eq(self.entries[at].uuid.as_str(), key) {
                return Some(at);
            }
            at += 1;
        }
        assert forall|i: int| 0 <= i < views_of(self.entries@).len() implies #[trigger] views_of(
            self.entries@,
        )[i].uuid != key@ by {
            assert(self.entries@[i]@.uuid != key@);
        }
        None
    }

    /// The sailing with the identifier, if the collection holds one.
    pub fn get(&self, key: &str) -> (found: Option<&Event>)
        requires
            self.wf(),
        ensures
            match found {
                Some(event) => self@.dom().contains(key@) && event@ == self@[key@],
                None => !self@.dom().contains(key@),
            },
    {
        proof {
            lemma_keyed_domain(views_of(self.entries@), key@);
            lemma_keyed_distinct(views_of(self.entries@));
        }
        match self.position(key) {
            Some(at) => {
                assert(views_of(self.entries@)[at as int].uuid == key@);
                Some(&self.entries[at])
            },
            None => None,
        }
    }

    /// Whether the collection holds a sailing with the identifier.
    pub fn contains_key(&self, key: &str) -> (held: bool)
        requires
            self.wf(),
        ensures
            held == self@.dom().contains(key@),
    {
        self.get(key).is_some()
    }

    /// Puts the sailing under its identifier; one that was there is replaced.
    pub fn insert(&mut self, event: Event)
        requires
            old(self).wf(),
        ensures
            final(self).wf(),
            final(self)@ == old(self)@.insert(event@.uuid, event@),
    {
        let ghost before = views_of(self.entries@);
        match self.position(event.uuid.as_str()) {
            Some(at) => {
                proof {
                    assert(before[at as int].uuid == event@.uuid);
                    lemma_keyed_update(before, at as int, event@);
                }
                self.entries.set(at, event);
                assert(views_of(self.entries@) =~= before.update(at as int, event@));
            },
            None => {
                self.entries.push(event);
                proof {
                    let after = views_of(self.entries@);
                    assert(after =~= before.push(event@));
                    assert(after.drop_last() =~= before);
                    assert forall|i: int, j: int|
                        0 <= i < after.len() && 0 <= j < after.len() && i != j implies after[i].uuid
                        != after[j].uuid by {
                        if i < before.len() {
                            assert(before[i].uuid == after[i].uuid);
                        }
                        if j < before.len() {
                            assert(before[j].uuid == after[j].uuid);
                        }
                    }
                }
            },
        }
    }

    /// Keys the sailings of a response by identifier. Of two with one
    /// identifier the later one stays.
    pub fn from_items(items: Vec<Event>) -> (map: EventMap)
        ensures
            map.wf(),
            map@ == keyed(views_of(items@)),
    {
        let mut map = EventMap::new();
        let mut at: usize = 0;
        while at < items.len()
            invariant
                at <= items@.len(),
                map.wf(),
                map@ == keyed(views_of(items@).take(at as int)),
            decreases items@.len() - at,
        {
            let event = items[at].clone();
            proof {
                let next = views_of(items@).take(at + 1);
                assert(next.drop_last() =~= views_of(items@).take(at as int));
                assert(next.last() == event@);
            }
            map.insert(event);
            at += 1;
        }
        assert(views_of(items@).take(at as int) =~= views_of(items@));
        map
    }

    /// The sailings, each once, in no order that callers may rely on.
    pub fn values(&self) -> (events: &Vec<Event>)
        requires
            self.wf(),
        ensures
            distinct_keys(views_of(events@)),
            keyed(views_of(events@)) == self@,
    {
        &self.entries
    }
}

/// Whether sailing `a` is shown before sailing `b`, or is `b`: the earlier
/// start first, and of two with one start the smaller identifier.
pub open spec fn departs_before(a: EventView, b: EventView) -> bool {
    if a.start == b.start {
        lex_le(a.uuid, b.uuid)
    } else {
        lex_le(a.start, b.start)
    }
}

/// Whether the sailings stand in the order in which they are shown.
pub open spec fn ordered_by_start(events: Seq<EventView>) -> bool {
    forall|i: int, j: int| 0 <= i < j < events.len() ==> departs_before(events[i], events[j])
}

/// Of two sailings one is shown before the other.
pub proof fn lemma_departs_before_total(a: EventView, b: EventView)
    ensures
        departs_before(a, b) || departs_before(b, a),
{
    lemma_lex_le_total(a.uuid, b.uuid);
    lemma_lex_le_total(a.start, b.start);
}

/// The order in which sailings are shown is transitive.
pub proof fn lemma_departs_before_transitive(a: EventView, b: EventView, c: EventView)
    requires
        departs_before(a, b),
        departs_before(b, c),
    ensures
        departs_before(a, c),
{
    if a.start == b.start && b.start == c.start {
        lemma_lex_le_transitive(a.uuid, b.uuid, c.uuid);
    } else if a.start != b.start && b.start != c.start {
        lemma_lex_le_transitive(a.start, b.start, c.start);
        if a.start == c.start {
            lemma_lex_le_antisymmetric(a.start, b.start);
        }
    }
}

/// In the order in which sailings are shown the starts ascend.
pub proof fn lemma_starts_ascend(events: Seq<EventView>, earlier: int, later: int)
    requires
        ordered_by_start(events),
        0 <= earlier < later < events.len(),
    ensures
        lex_le(events[earlier].start, events[later].start),
{
    assert(departs_before(events[earlier], events[later]));
    lemma_lex_le_reflexive(events[earlier].start);
}

/// Two sequences with distinct identifiers that hold the same sailings key
/// to the same map.
pub proof fn lemma_keyed_same_items(first: Seq<EventView>, second: Seq<EventView>)
    requires
        distinct_keys(first),
        distinct_keys(second),
        forall|i: int| 0 <= i < first.len() ==> second.contains(#[trigger] first[i]),
        forall|i: int| 0 <= i < second.len() ==> first.contains(#[trigger] second[i]),
    ensures
        keyed(first) == keyed(second),
{
    lemma_keyed_distinct(first);
    lemma_keyed_distinct(second);
    assert forall|key: Seq<char>| #[trigger]
        keyed(first).dom().contains(key) == keyed(second).dom().contains(key) by {
        lemma_keyed_domain(first, key);
        lemma_keyed_domain(second, key);
        if has_key(first, key) {
            let i = choose|i: int| 0 <= i < first.len() && #[trigger] first[i].uuid == key;
            assert(second.contains(first[i]));
            let j = choose|j: int| 0 <= j < second.len() && second[j] == first[i];
            assert(second[j].uuid == key);
        }
        if has_key(second, key) {
            let i = choose|i: int| 0 <= i < second.len() && #[trigger] second[i].uuid == key;
            assert(first.contains(second[i]));
            let j = choose|j: int| 0 <= j < first.len() && first[j] == second[i];
            assert(first[j].uuid == key);
        }
    }
    assert forall|key: Seq<char>| #[trigger] keyed(first).dom().contains(key) implies keyed(
        first,
    )[key] == keyed(second)[key] by {
        lemma_keyed_domain(first, key);
        let i = choose|i: int| 0 <= i < first.len() && #[trigger] first[i].uuid == key;
        assert(second.contains(first[i]));
        let j = choose|j: int| 0 <= j < second.len() && second[j] == first[i];
        assert(keyed(first)[first[i].uuid] == first[i]);
        assert(keyed(second)[second[j].uuid] == second[j]);
    }
    assert(keyed(first) =~= keyed(second));
}

/// Whether sailing `a` is shown before sailing `b`, or is `b`.
pub fn shown_before(a: &Event, b: &Event) -> (before: bool)
    ensures
        before == departs_before(a@, b@),
{
    if str_eq(a.start.as_str(), b.start.as_str()) {
        str_le(a.uuid.as_str(), b.uuid.as_str())
    } else {
        str_le(a.start.as_str(), b.start.as_str())
    }
}

impl EventMap {
    /// The sailings in the order in which they are shown: by start, and of
    /// two with one start the smaller identifier first. Each sailing of the
    /// collection stands in the list once.
    pub fn sorted_by_start(&self) -> (events: Vec<Event>)
        requires
            self.wf(),
        ensures
            ordered_by_start(views_of(events@)),
            distinct_keys(views_of(events@)),
            keyed(views_of(events@)) == self@,
            events@.len() == self@.dom().len(),
    {
        let ghost all = views_of(self.entries@);
        let mut sorted: Vec<Event> = Vec::new();
        let mut done: usize = 0;
        while done < self.entries.len()
            invariant
                done <= self.entries@.len(),
                all == views_of(self.entries@),
                distinct_keys(all),
                sorted@.len() == done,
                ordered_by_start(views_of(sorted@)),
                distinct_keys(views_of(sorted@)),
                forall|i: int|
                    0 <= i < done ==> all.take(done as int).contains(
                        #[trigger] views_of(sorted@)[i],
                    ),
                forall|i: int|
                    0 <= i < done ==> views_of(sorted@).contains(#[trigger] all.take(done as int)[i]),
            decreases self.entries@.len() - done,
        {
            let event = self.entries[done].clone();
            let ghost before = views_of(sorted@);
            let mut place: usize = 0;
            while place < sorted.len() && shown_before(&sorted[place], &event)
                invariant
                    place <= sorted@.len(),
                    before == views_of(sorted@),
                    forall|i: int| 0 <= i < place ==> departs_before(#[trigger] before[i], event@),
                decreases sorted@.len() - place,
            {
                place += 1;
            }
            sorted.insert(place, event);
            proof {
                let item = all[done as int];
                let after = views_of(sorted@);
                assert(after =~= before.insert(place as int, item));
                let seen = all.take(done as int);
                let seen_after = all.take(done + 1);
                assert forall|i: int, j: int| 0 <= i < j < after.len() implies departs_before(
                    after[i],
                    after[j],
                ) by {
                    if i == place {
                        assert(after[j] == before[j - 1]);
                        lemma_departs_before_total(before[place as int], item);
                        if j - 1 > place {
                            lemma_departs_before_transitive(
                                item,
                                before[place as int],
                                before[j - 1],
                            );
                        }
                    } else if j == place {
                        assert(after[i] == before[i]);
                    } else {
                        let from_i = if i < place {
                            i
                        } else {
                            i - 1
                        };
                        let from_j = if j < place {
                            j
                        } else {
                            j - 1
                        };
                        assert(after[i] == before[from_i] && after[j] == before[from_j]);
                    }
                }
                assert forall|i: int| 0 <= i < after.len() implies seen_after.contains(
                    #[trigger] after[i],
                ) by {
                    if i == place {
                        assert(seen_after[done as int] == item);
                    } else {
                        let from = if i < place {
                            i
                        } else {
                            i - 1
                        };
                        assert(after[i] == before[from]);
                        assert(seen.contains(before[from]));
                        let k = choose|k: int| 0 <= k < seen.len() && seen[k] == before[from];
                        assert(seen_after[k] == before[from]);
                    }
                }
                assert forall|i: int| 0 <= i < seen_after.len() implies after.contains(
                    #[trigger] seen_after[i],
                ) by {
                    if i == done {
                        assert(after[place as int] == item);
                    } else {
                        assert(seen[i] == seen_after[i]);
                        assert(before.contains(seen[i]));
                        let k = choose|k: int| 0 <= k < before.len() && before[k] == seen[i];
                        let to = if k < place {
                            k
                        } else {
                            k + 1
                        };
                        assert(after[to] == before[k]);
                    }
                }
                assert forall|i: int, j: int|
                    0 <= i < after.len() && 0 <= j < after.len() && i != j implies after[i].uuid
                    != after[j].uuid by {
                    assert(seen_after.contains(after[i]));
                    assert(seen_after.contains(after[j]));
                    if i != place && j != place {
                        let from_i = if i < place {
                            i
                        } else {
                            i - 1
                        };
                        let from_j = if j < place {
                            j
                        } else {
                            j - 1
                        };
                        assert(after[i] == before[from_i] && after[j] == before[from_j]);
                    } else {
                        let other = if i == place {
                            j
                        } else {
                            i
                        };
                        let from = if other < place {
                            other
                        } else {
                            other - 1
                        };
                        assert(after[other] == before[from]);
                        assert(seen.contains(before[from]));
                        let k = choose|k: int| 0 <= k < seen.len() && seen[k] == before[from];
                        assert(all[k] == seen[k]);
                        assert(all[k].uuid != all[done as int].uuid);
                    }
                }
            }
            done += 1;
        }
        proof {
            assert(all.take(done as int) =~= all);
            lemma_keyed_same_items(views_of(sorted@), all);
            lemma_keyed_distinct(all);
        }
        sorted
    }
}

impl Clone for EventMap {
    fn clone(&self) -> (copy: Self)
        ensures
            copy@ == self@,
            copy.wf() == self.wf(),
    {
        let mut entries: Vec<Event> = Vec::new();
        let mut at: usize = 0;
        while at < self.entries.len()
            invariant
                at <= self.entries@.len(),
                entries@.len() == at,
                forall|i: int| 0 <= i < at ==> (#[trigger] entries@[i])@ == self.entries@[i]@,
            decreases self.entries@.len() - at,
        {
            entries.push(self.entries[at].clone());
            at += 1;
        }
        assert(views_of(entries@) =~= views_of(self.entries@));
        EventMap { entries }
    }
}

/// There is no sailing to choose from.
#[derive(Debug, Clone, Copy, PartialEq, Eq, Structural)]
pub struct NoFerryTimes;

impl NoFerryTimes {
    /// What is said where there is no sailing to choose from.
    pub fn message(&self) -> (text: &'static str)
        ensures
            text@ == "No ferry times found for that date"@,
    {
        "No ferry times found for that date"
    }
}

impl EventMap {
    /// The sailings to choose from, in the order in which they are shown; an
    /// error where there is none.
    pub fn choices(&self) -> (list: Result<Vec<Event>, NoFerryTimes>)
        requires
            self.wf(),
        ensures
            list is Err <==> self@.dom().len() == 0,
            list matches Ok(events) ==> {
                &&& ordered_by_start(views_of(events@))
                &&& distinct_keys(views_of(events@))
                &&& keyed(views_of(events@)) == self@
                &&& events@.len() == self@.dom().len()
            },
    {
        let events = self.sorted_by_start();
        if events.len() == 0 {
            Err(NoFerryTimes)
        } else {
            Ok(events)
        }
    }
}

} // verus!
