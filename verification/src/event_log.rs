//! The append-only event log.
//!
//! The log is the system's single source of truth: a sequence of events
//! with strictly increasing ids, starting at 1. Appending never rewrites
//! history; every read model elsewhere in the crate is a pure function of
//! the sequence this module maintains. Durable storage wraps this type
//! outside the library and replays its rows through [`EventLog::append`],
//! which reproduces the same ids.

use vstd::prelude::*;
use crate::json::{JsonVal, JsonValue};
use crate::strutil::str_eq;

verus! {

use vstd::seq_lib::*;
use vstd::string::StringExecFns;

/// The kind of an event.
#[derive(Clone, Copy, Debug, PartialEq, Eq, Structural)]
pub enum EventType {
    FactAsserted,
    FactRetracted,
    FactSuggested,
    FactSuggestionResolved,
    PlanSelected,
    ActionIntent,
    ActionResult,
    Escalated,
    EscalationResponded,
    Resolved,
}

/// The name of an event type's variant, used for storage and timelines.
pub open spec fn spec_event_type_name(t: EventType) -> Seq<char> {
    match t {
        EventType::FactAsserted => "FactAsserted"@,
        EventType::FactRetracted => "FactRetracted"@,
        EventType::FactSuggested => "FactSuggested"@,
        EventType::FactSuggestionResolved => "FactSuggestionResolved"@,
        EventType::PlanSelected => "PlanSelected"@,
        EventType::ActionIntent => "ActionIntent"@,
        EventType::ActionResult => "ActionResult"@,
        EventType::Escalated => "Escalated"@,
        EventType::EscalationResponded => "EscalationResponded"@,
        EventType::Resolved => "Resolved"@,
    }
}

/// The event type a variant name decodes to: the inverse of
/// [`spec_event_type_name`].
pub open spec fn spec_event_type_of_name(s: Seq<char>) -> Option<EventType> {
    if s == "FactAsserted"@ {
        Some(EventType::FactAsserted)
    } else if s == "FactRetracted"@ {
        Some(EventType::FactRetracted)
    } else if s == "FactSuggested"@ {
        Some(EventType::FactSuggested)
    } else if s == "FactSuggestionResolved"@ {
        Some(EventType::FactSuggestionResolved)
    } else if s == "PlanSelected"@ {
        Some(EventType::PlanSelected)
    } else if s == "ActionIntent"@ {
        Some(EventType::ActionIntent)
    } else if s == "ActionResult"@ {
        Some(EventType::ActionResult)
    } else if s == "Escalated"@ {
        Some(EventType::Escalated)
    } else if s == "EscalationResponded"@ {
        Some(EventType::EscalationResponded)
    } else if s == "Resolved"@ {
        Some(EventType::Resolved)
    } else {
        None
    }
}

/// The variant name of an event type.
pub fn event_type_name(t: EventType) -> (r: String)
    ensures
        r@ == spec_event_type_name(t),
{
    match t {
        EventType::FactAsserted => String::from_str("FactAsserted"),
        EventType::FactRetracted => String::from_str("FactRetracted"),
        EventType::FactSuggested => String::from_str("FactSuggested"),
        EventType::FactSuggestionResolved => String::from_str("FactSuggestionResolved"),
        EventType::PlanSelected => String::from_str("PlanSelected"),
        EventType::ActionIntent => String::from_str("ActionIntent"),
        EventType::ActionResult => String::from_str("ActionResult"),
        EventType::Escalated => String::from_str("Escalated"),
        EventType::EscalationResponded => String::from_str("EscalationResponded"),
        EventType::Resolved => String::from_str("Resolved"),
    }
}

/// Decode an event type from its variant name.
pub fn event_type_of_name(s: &str) -> (r: Option<EventType>)
    ensures
        r == spec_event_type_of_name(s@),
{
    if str_eq(s, "FactAsserted") {
        Some(EventType::FactAsserted)
    } else if str_eq(s, "FactRetracted") {
        Some(EventType::FactRetracted)
    } else if str_eq(s, "FactSuggested") {
        Some(EventType::FactSuggested)
    } else if str_eq(s, "FactSuggestionResolved") {
        Some(EventType::FactSuggestionResolved)
    } else if str_eq(s, "PlanSelected") {
        Some(EventType::PlanSelected)
    } else if str_eq(s, "ActionIntent") {
        Some(EventType::ActionIntent)
    } else if str_eq(s, "ActionResult") {
        Some(EventType::ActionResult)
    } else if str_eq(s, "Escalated") {
        Some(EventType::Escalated)
    } else if str_eq(s, "EscalationResponded") {
        Some(EventType::EscalationResponded)
    } else if str_eq(s, "Resolved") {
        Some(EventType::Resolved)
    } else {
        None
    }
}

/// Naming an event type and decoding the name again is the identity, so the
/// stored form of an event type loses nothing.
pub proof fn lemma_event_type_name_round_trip()
    ensures
        forall|t: EventType| spec_event_type_of_name(spec_event_type_name(t)) == Some(t),
{
    assert forall|t: EventType| spec_event_type_of_name(spec_event_type_name(t)) == Some(t) by {
        reveal_strlit("FactAsserted");
        reveal_strlit("FactRetracted");
        reveal_strlit("FactSuggested");
        reveal_strlit("FactSuggestionResolved");
        reveal_strlit("PlanSelected");
        reveal_strlit("ActionIntent");
        reveal_strlit("ActionResult");
        reveal_strlit("Escalated");
        reveal_strlit("EscalationResponded");
        reveal_strlit("Resolved");
        assert("FactAsserted"@.len() == 12);
        assert("FactRetracted"@.len() == 13);
        assert("FactSuggested"@.len() == 13);
        assert("FactSuggestionResolved"@.len() == 22);
        assert("PlanSelected"@.len() == 12);
        assert("ActionIntent"@.len() == 12);
        assert("ActionResult"@.len() == 12);
        assert("Escalated"@.len() == 9);
        assert("EscalationResponded"@.len() == 19);
        assert("Resolved"@.len() == 8);
        assert("FactAsserted"@[0] == 'F');
        assert("PlanSelected"@[0] == 'P');
        assert("ActionIntent"@[0] == 'A');
        assert("ActionResult"@[0] == 'A');
        assert("ActionIntent"@[6] == 'I');
        assert("ActionResult"@[6] == 'R');
        assert("FactRetracted"@[4] == 'R');
        assert("FactSuggested"@[4] == 'S');
    }
}

/// One event: what happened to which incident, when, with what payload.
#[derive(Debug)]
pub struct Event {
    /// Assigned by the log on append; `None` on an event not yet stored.
    pub id: Option<i64>,
    pub incident_id: String,
    pub event_type: EventType,
    pub description: String,
    pub details: Option<JsonValue>,
    pub timestamp: String,
}

/// Mathematical value of an event.
pub struct EventView {
    pub id: Option<i64>,
    pub incident_id: Seq<char>,
    pub event_type: EventType,
    pub description: Seq<char>,
    pub details: Option<JsonVal>,
    pub timestamp: Seq<char>,
}

impl View for Event {
    type V = EventView;

    open spec fn view(&self) -> EventView {
        EventView {
            id: self.id,
            incident_id: self.incident_id@,
            event_type: self.event_type,
            description: self.description@,
            details: match self.details {
                Some(d) => Some(d@),
                None => None,
            },
            timestamp: self.timestamp@,
        }
    }
}

impl DeepView for Event {
    type V = EventView;

    open spec fn deep_view(&self) -> EventView {
        self@
    }
}

impl Clone for Event {
    /// Copy with the same mathematical value.
    fn clone(&self) -> (res: Self)
        ensures
            res@ == self@,
    {
        Event {
            id: self.id,
            incident_id: self.incident_id.clone(),
            event_type: self.event_type,
            description: self.description.clone(),
            details: match &self.details {
                Some(d) => Some(d.clone()),
                None => None,
            },
            timestamp: self.timestamp.clone(),
        }
    }
}

/// A stored event carries the id the log assigned; everything else is taken
/// from the appended event.
pub open spec fn spec_with_id(e: EventView, id: i64) -> EventView {
    EventView {
        id: Some(id),
        incident_id: e.incident_id,
        event_type: e.event_type,
        description: e.description,
        details: e.details,
        timestamp: e.timestamp,
    }
}

/// Ids are dense: the event at position `i` carries id `i + 1`, so ids are
/// strictly increasing across the log.
pub open spec fn spec_log_wf(log: Seq<EventView>) -> bool {
    &&& log.len() <= i64::MAX
    &&& forall|i: int| 0 <= i < log.len() ==> (#[trigger] log[i]).id == Some((i + 1) as i64)
}

/// Events of one incident, in log order.
pub open spec fn spec_events_for_incident(log: Seq<EventView>, incident_id: Seq<char>) -> Seq<EventView> {
    log.filter(|e: EventView| e.incident_id == incident_id)
}

/// Events with id strictly greater than `after_id`, in log order.
pub open spec fn spec_events_after(log: Seq<EventView>, after_id: i64) -> Seq<EventView> {
    log.filter(|e: EventView| e.id is Some && e.id->0 > after_id)
}

/// Some event belongs to the incident.
pub open spec fn spec_has_event_for(log: Seq<EventView>, incident_id: Seq<char>) -> bool {
    exists|i: int| 0 <= i < log.len() && (#[trigger] log[i]).incident_id == incident_id
}

/// Some `Resolved` event belongs to the incident.
pub open spec fn spec_has_resolved(log: Seq<EventView>, incident_id: Seq<char>) -> bool {
    exists|i: int|
        0 <= i < log.len() && (#[trigger] log[i]).incident_id == incident_id
            && log[i].event_type == EventType::Resolved
}

/// An incident is active when it has at least one event and no `Resolved`
/// event.
pub open spec fn spec_active(log: Seq<EventView>, incident_id: Seq<char>) -> bool {
    spec_has_event_for(log, incident_id) && !spec_has_resolved(log, incident_id)
}

/// The position of the incident's last event, or -1 when it has none.
pub open spec fn spec_last_index_of(log: Seq<EventView>, incident_id: Seq<char>) -> int
    decreases log.len(),
{
    if log.len() == 0 {
        -1
    } else if log.last().incident_id == incident_id {
        log.len() - 1
    } else {
        spec_last_index_of(log.drop_last(), incident_id)
    }
}

/// What [`spec_last_index_of`] returns: the greatest position holding an
/// event of the incident, or -1 when there is none.
pub proof fn lemma_last_index_of(log: Seq<EventView>, incident_id: Seq<char>)
    ensures
        -1 <= spec_last_index_of(log, incident_id) < log.len(),
        spec_last_index_of(log, incident_id) >= 0
            ==> log[spec_last_index_of(log, incident_id)].incident_id == incident_id,
        forall|j: int| spec_last_index_of(log, incident_id) < j < log.len()
            ==> (#[trigger] log[j]).incident_id != incident_id,
    decreases log.len(),
{
    if log.len() > 0 {
        lemma_last_index_of(log.drop_last(), incident_id);
        assert(forall|j: int| 0 <= j < log.len() - 1 ==> log.drop_last()[j] == #[trigger] log[j]);
    }
}

/// Appending an event extends exactly the view of its own incident: the
/// incident named by the event gains it at the end, every other incident's
/// view is unchanged.
pub proof fn lemma_events_for_incident_push(log: Seq<EventView>, e: EventView, incident_id: Seq<char>)
    ensures
        e.incident_id == incident_id ==> spec_events_for_incident(log.push(e), incident_id)
            == spec_events_for_incident(log, incident_id).push(e),
        e.incident_id != incident_id ==> spec_events_for_incident(log.push(e), incident_id)
            == spec_events_for_incident(log, incident_id),
{
    reveal(Seq::filter);
    let pred = |ev: EventView| ev.incident_id == incident_id;
    assert(log.push(e).drop_last() =~= log);
    assert(log.push(e).last() == e);
}

/// The append-only event log.
///
/// The structure is in-memory and fully verified; durable storage lives
/// outside the library and keeps itself consistent with this sequence.
pub struct EventLog {
    events: Vec<Event>,
}

impl View for EventLog {
    type V = Seq<EventView>;

    closed spec fn view(&self) -> Seq<EventView> {
        self.events.deep_view()
    }
}

impl EventLog {
    /// The log's invariant: ids are dense from 1.
    pub open spec fn wf(&self) -> bool {
        spec_log_wf(self@)
    }

    /// A new, empty log.
    pub fn new() -> (r: Self)
        ensures
            r@ =~= Seq::<EventView>::empty(),
            r.wf(),
    {
        let r = EventLog { events: Vec::new() };
        proof {
            assert(r.events.deep_view() =~= Seq::<EventView>::empty());
        }
        r
    }

    /// How many events the log holds.
    pub fn len(&self) -> (r: usize)
        ensures
            r == self@.len(),
    {
        self.events.len()
    }

    /// Append an event. The log assigns the next id: one more than the
    /// number of events already stored, hence strictly greater than every
    /// id handed out before. Everything else is stored as given.
    pub fn append(&mut self, event: &Event) -> (r: Result<i64, String>)
        requires
            old(self).wf(),
            old(self)@.len() < i64::MAX,
        ensures
            final(self).wf(),
            match r {
                Ok(id) => {
                    &&& id == old(self)@.len() + 1
                    &&& final(self)@ =~= old(self)@.push(spec_with_id(event@, id))
                    &&& forall|i: int| 0 <= i < old(self)@.len()
                        ==> (#[trigger] old(self)@[i]).id->0 < id
                },
                Err(_) => false,
            },
    {
        let n = self.events.len();
        let id = (n as i64) + 1;
        let mut stored = event.clone();
        stored.id = Some(id);
        let ghost prev = self.events.deep_view();
        self.events.push(stored);
        proof {
            assert(self.events.deep_view() =~= prev.push(spec_with_id(event@, id)));
        }
        Ok(id)
    }

    /// The events of one incident, ascending by id (P-style: the order of
    /// the log itself).
    pub fn events_for_incident(&self, incident_id: &str) -> (r: Result<Vec<Event>, String>)
        requires
            self.wf(),
        ensures
            match r {
                Ok(evs) => {
                    &&& evs.deep_view() == spec_events_for_incident(self@, incident_id@)
                    &&& forall|i: int, j: int| 0 <= i < j < evs.deep_view().len()
                        ==> (#[trigger] evs.deep_view()[i]).id->0 < (#[trigger] evs.deep_view()[j]).id->0
                    &&& forall|i: int| 0 <= i < evs.deep_view().len()
                        ==> (#[trigger] evs.deep_view()[i]).id is Some
                },
                Err(_) => false,
            },
    {
        let ghost pred = |e: EventView| e.incident_id == incident_id@;
        let mut out: Vec<Event> = Vec::new();
        let mut i: usize = 0;
        proof {
            reveal(Seq::filter);
            assert(self@.take(0).filter(pred) =~= Seq::<EventView>::empty());
            assert(out.deep_view() =~= Seq::<EventView>::empty());
        }
        while i < self.events.len()
            invariant
                self.wf(),
                i <= self@.len(),
                self@.len() == self.events@.len(),
                out.deep_view() == self@.take(i as int).filter(pred),
                pred == (|e: EventView| e.incident_id == incident_id@),
            decreases self@.len() - i,
        {
            let ghost prev = out.deep_view();
            let ghost next_prefix = self@.take(i + 1 as int);
            proof {
                reveal(Seq::filter);
                assert(next_prefix.drop_last() =~= self@.take(i as int));
                assert(next_prefix.last() == self@[i as int]);
            }
            let e = &self.events[i];
            if str_eq(e.incident_id.as_str(), incident_id) {
                out.push(e.clone());
                proof {
                    assert(out.deep_view() =~= prev.push(self@[i as int]));
                }
            }
            i += 1;
        }
        proof {
            assert(self@.take(self@.len() as int) =~= self@);
            lemma_filter_ascending(self@, pred);
        }
        Ok(out)
    }

    /// The events with id strictly greater than `after_id`, ascending by
    /// id: exactly those the log gained after `after_id` was handed out.
    pub fn events_after(&self, after_id: i64) -> (r: Result<Vec<Event>, String>)
        requires
            self.wf(),
        ensures
            match r {
                Ok(evs) => {
                    &&& evs.deep_view() == spec_events_after(self@, after_id)
                    &&& forall|i: int| 0 <= i < evs.deep_view().len()
                        ==> (#[trigger] evs.deep_view()[i]).id is Some
                            && evs.deep_view()[i].id->0 > after_id
                    &&& forall|i: int, j: int| 0 <= i < j < evs.deep_view().len()
                        ==> (#[trigger] evs.deep_view()[i]).id->0 < (#[trigger] evs.deep_view()[j]).id->0
                    &&& forall|i: int| 0 <= i < self@.len() && (#[trigger] self@[i]).id->0 > after_id
                        ==> evs.deep_view().contains(self@[i])
                },
                Err(_) => false,
            },
    {
        let ghost pred = |e: EventView| e.id is Some && e.id->0 > after_id;
        let mut out: Vec<Event> = Vec::new();
        let mut i: usize = 0;
        proof {
            reveal(Seq::filter);
            assert(self@.take(0).filter(pred) =~= Seq::<EventView>::empty());
            assert(out.deep_view() =~= Seq::<EventView>::empty());
        }
        while i < self.events.len()
            invariant
                self.wf(),
                i <= self@.len(),
                self@.len() == self.events@.len(),
                out.deep_view() == self@.take(i as int).filter(pred),
                pred == (|e: EventView| e.id is Some && e.id->0 > after_id),
            decreases self@.len() - i,
        {
            let ghost prev = out.deep_view();
            let ghost next_prefix = self@.take(i + 1 as int);
            proof {
                reveal(Seq::filter);
                assert(next_prefix.drop_last() =~= self@.take(i as int));
                assert(next_prefix.last() == self@[i as int]);
            }
            let e = &self.events[i];
            let keep = match e.id {
                Some(x) => x > after_id,
                None => false,
            };
            if keep {
                out.push(e.clone());
                proof {
                    assert(out.deep_view() =~= prev.push(self@[i as int]));
                }
            }
            i += 1;
        }
        proof {
            assert(self@.take(self@.len() as int) =~= self@);
            lemma_filter_ascending(self@, pred);
            self@.filter_lemma(pred);
        }
        Ok(out)
    }

    /// Does the incident have a `Resolved` event?
    fn has_resolved(&self, incident_id: &str) -> (r: bool)
        ensures
            r == spec_has_resolved(self@, incident_id@),
    {
        let mut i: usize = 0;
        while i < self.events.len()
            invariant
                i <= self@.len(),
                self@.len() == self.events@.len(),
                forall|j: int| 0 <= j < i
                    ==> !((#[trigger] self@[j]).incident_id == incident_id@
                        && self@[j].event_type == EventType::Resolved),
            decreases self@.len() - i,
        {
            let e = &self.events[i];
            let is_resolved = match e.event_type {
                EventType::Resolved => true,
                _ => false,
            };
            if is_resolved && str_eq(e.incident_id.as_str(), incident_id) {
                proof {
                    assert(self@[i as int].incident_id == incident_id@
                        && self@[i as int].event_type == EventType::Resolved);
                }
                return true;
            }
            i += 1;
        }
        false
    }

    /// The incident ids that are active: at least one event, no `Resolved`
    /// event. Each id appears once, in order of first appearance in the
    /// log.
    pub fn active_incidents(&self) -> (r: Result<Vec<String>, String>)
        ensures
            match r {
                Ok(v) => {
                    &&& forall|i: int| 0 <= i < v.deep_view().len()
                        ==> spec_active(self@, #[trigger] v.deep_view()[i])
                    &&& forall|inc: Seq<char>| spec_active(self@, inc) ==> v.deep_view().contains(inc)
                    &&& forall|i: int, j: int| 0 <= i < j < v.deep_view().len()
                        ==> v.deep_view()[i] != v.deep_view()[j]
                },
                Err(_) => false,
            },
    {
        let mut out: Vec<String> = Vec::new();
        let mut i: usize = 0;
        while i < self.events.len()
            invariant
                i <= self@.len(),
                self@.len() == self.events@.len(),
                forall|a: int| 0 <= a < out.deep_view().len()
                    ==> spec_active(self@, #[trigger] out.deep_view()[a]),
                forall|a: int, b: int| 0 <= a < b < out.deep_view().len()
                    ==> out.deep_view()[a] != out.deep_view()[b],
                forall|j: int| 0 <= j < i && spec_active(self@, (#[trigger] self@[j]).incident_id)
                    ==> out.deep_view().contains(self@[j].incident_id),
            decreases self@.len() - i,
        {
            let inc = &self.events[i].incident_id;
            let ghost prev = out.deep_view();
            if !contains_string(&out, inc.as_str()) {
                if !self.has_resolved(inc.as_str()) {
                    out.push(inc.clone());
                    proof {
                        assert(out.deep_view() =~= prev.push(inc@));
                        assert(self@[i as int].incident_id == inc@);
                        assert(spec_has_event_for(self@, inc@));
                        assert forall|j: int|
                            0 <= j < i + 1 && spec_active(self@, (#[trigger] self@[j]).incident_id)
                                implies out.deep_view().contains(self@[j].incident_id) by {
                            if j < i {
                                assert(prev.contains(self@[j].incident_id));
                                let w = choose|w: int| 0 <= w < prev.len()
                                    && prev[w] == self@[j].incident_id;
                                assert(out.deep_view()[w] == self@[j].incident_id);
                            } else {
                                assert(out.deep_view()[prev.len() as int] == inc@);
                            }
                        }
                    }
                } else {
                    proof {
                        assert(!spec_active(self@, self@[i as int].incident_id));
                    }
                }
            } else {
                proof {
                    assert(out.deep_view().contains(self@[i as int].incident_id));
                }
            }
            i += 1;
        }
        proof {
            assert forall|inc: Seq<char>| spec_active(self@, inc)
                implies out.deep_view().contains(inc) by {
                let j = choose|j: int| 0 <= j < self@.len()
                    && (#[trigger] self@[j]).incident_id == inc;
                assert(out.deep_view().contains(self@[j].incident_id));
            }
        }
        Ok(out)
    }

    /// All incident ids, each once, ordered by the position of the
    /// incident's most recent event, most recent first.
    pub fn all_incidents(&self) -> (r: Result<Vec<String>, String>)
        ensures
            match r {
                Ok(v) => {
                    &&& forall|i: int| 0 <= i < v.deep_view().len()
                        ==> spec_has_event_for(self@, #[trigger] v.deep_view()[i])
                    &&& forall|inc: Seq<char>| spec_has_event_for(self@, inc)
                        ==> v.deep_view().contains(inc)
                    &&& forall|i: int, j: int| 0 <= i < j < v.deep_view().len()
                        ==> spec_last_index_of(self@, #[trigger] v.deep_view()[i])
                            > spec_last_index_of(self@, #[trigger] v.deep_view()[j])
                },
                Err(_) => false,
            },
    {
        let mut out: Vec<String> = Vec::new();
        let mut k: usize = self.events.len();
        proof {
            assert forall|inc: Seq<char>| spec_last_index_of(self@, inc) >= k
                implies out.deep_view().contains(inc) by {
                lemma_last_index_of(self@, inc);
            }
        }
        while k > 0
            invariant
                k <= self@.len(),
                self@.len() == self.events@.len(),
                forall|a: int| 0 <= a < out.deep_view().len()
                    ==> spec_last_index_of(self@, #[trigger] out.deep_view()[a]) >= k,
                forall|a: int, b: int| 0 <= a < b < out.deep_view().len()
                    ==> spec_last_index_of(self@, #[trigger] out.deep_view()[a])
                        > spec_last_index_of(self@, #[trigger] out.deep_view()[b]),
                forall|a: int, b: int| 0 <= a < b < out.deep_view().len()
                    ==> out.deep_view()[a] != out.deep_view()[b],
                forall|inc: Seq<char>| spec_last_index_of(self@, inc) >= k
                    ==> out.deep_view().contains(inc),
            decreases k,
        {
            let inc = &self.events[k - 1].incident_id;
            let ghost prev = out.deep_view();
            proof {
                lemma_last_index_of(self@, inc@);
                lemma_last_index_prefix(self@, inc@, k - 1 as int);
            }
            if !contains_string(&out, inc.as_str()) {
                out.push(inc.clone());
                proof {
                    assert(out.deep_view() =~= prev.push(inc@));
                    assert(spec_last_index_of(self@, inc@) == k - 1) by {
                        if spec_last_index_of(self@, inc@) >= k {
                            assert(prev.contains(inc@));
                            let w = choose|w: int| 0 <= w < prev.len() && prev[w] == inc@;
                        }
                    }
                    assert forall|inc2: Seq<char>| spec_last_index_of(self@, inc2) >= k - 1
                        implies out.deep_view().contains(inc2) by {
                        if spec_last_index_of(self@, inc2) >= k {
                            assert(prev.contains(inc2));
                            let w = choose|w: int| 0 <= w < prev.len() && prev[w] == inc2;
                            assert(out.deep_view()[w] == inc2);
                        } else {
                            lemma_last_index_of(self@, inc2);
                            assert(self@[k - 1 as int].incident_id == inc2);
                            assert(inc2 == inc@);
                            assert(out.deep_view()[prev.len() as int] == inc2);
                        }
                    }
                }
            } else {
                proof {
                    assert(prev.contains(inc@));
                    let w = choose|w: int| 0 <= w < prev.len() && prev[w] == inc@;
                    assert(spec_last_index_of(self@, out.deep_view()[w]) >= k);
                    assert forall|inc2: Seq<char>| spec_last_index_of(self@, inc2) >= k - 1
                        implies out.deep_view().contains(inc2) by {
                        if spec_last_index_of(self@, inc2) >= k {
                            assert(prev.contains(inc2));
                        } else {
                            lemma_last_index_of(self@, inc2);
                            assert(self@[k - 1 as int].incident_id == inc2);
                            assert(inc2 == inc@);
                        }
                    }
                }
            }
            k -= 1;
        }
        proof {
            assert forall|a: int| 0 <= a < out.deep_view().len()
                implies spec_has_event_for(self@, #[trigger] out.deep_view()[a]) by {
                lemma_last_index_of(self@, out.deep_view()[a]);
                let li = spec_last_index_of(self@, out.deep_view()[a]);
                assert(self@[li].incident_id == out.deep_view()[a]);
            }
            assert forall|inc: Seq<char>| spec_has_event_for(self@, inc)
                implies out.deep_view().contains(inc) by {
                lemma_last_index_of(self@, inc);
                let j = choose|j: int| 0 <= j < self@.len()
                    && (#[trigger] self@[j]).incident_id == inc;
                assert(spec_last_index_of(self@, inc) >= j >= 0);
            }
        }
        Ok(out)
    }

    /// The highest id handed out, or `None` on an empty log.
    pub fn latest_event_id(&self) -> (r: Result<Option<i64>, String>)
        requires
            self.wf(),
        ensures
            match r {
                Ok(opt) => {
                    &&& opt == (if self@.len() == 0 { None } else { Some(self@.len() as i64) })
                    &&& forall|i: int| 0 <= i < self@.len()
                        ==> (#[trigger] self@[i]).id->0 <= opt->0
                },
                Err(_) => false,
            },
    {
        let n = self.events.len();
        if n == 0 {
            Ok(None)
        } else {
            Ok(Some(n as i64))
        }
    }
}

/// Membership of a string among collected ids.
fn contains_string(v: &Vec<String>, s: &str) -> (r: bool)
    ensures
        r == v.deep_view().contains(s@),
{
    let mut i: usize = 0;
    while i < v.len()
        invariant
            i <= v@.len(),
            forall|j: int| 0 <= j < i ==> v.deep_view()[j] != s@,
        decreases v@.len() - i,
    {
        if str_eq(v[i].as_str(), s) {
            proof {
                assert(v.deep_view()[i as int] == s@);
            }
            return true;
        }
        i += 1;
    }
    proof {
        assert forall|j: int| 0 <= j < v.deep_view().len()
            implies v.deep_view()[j] != s@ by {}
    }
    false
}

/// If the incident occurs at position `p`, its last index is at least `p`.
proof fn lemma_last_index_prefix(log: Seq<EventView>, incident_id: Seq<char>, p: int)
    requires
        0 <= p < log.len(),
        log[p].incident_id == incident_id,
    ensures
        spec_last_index_of(log, incident_id) >= p,
{
    lemma_last_index_of(log, incident_id);
    if spec_last_index_of(log, incident_id) < p {
        assert(log[p].incident_id != incident_id);
    }
}

/// Filtering a log with dense ids keeps ids strictly ascending.
proof fn lemma_filter_ascending(log: Seq<EventView>, pred: spec_fn(EventView) -> bool)
    requires
        spec_log_wf(log),
    ensures
        forall|i: int| 0 <= i < log.filter(pred).len()
            ==> (#[trigger] log.filter(pred)[i]).id is Some,
        forall|i: int, j: int| 0 <= i < j < log.filter(pred).len()
            ==> (#[trigger] log.filter(pred)[i]).id->0 < (#[trigger] log.filter(pred)[j]).id->0,
    decreases log.len(),
{
    reveal(Seq::filter);
    if log.len() > 0 {
        let dl = log.drop_last();
        assert(spec_log_wf(dl)) by {
            assert(forall|i: int| 0 <= i < dl.len() ==> dl[i] == #[trigger] log[i]);
        }
        lemma_filter_ascending(dl, pred);
        lemma_filter_members(dl, pred);
        let fdl = dl.filter(pred);
        if pred(log.last()) {
            assert(log.filter(pred) == fdl.push(log.last()));
            assert forall|i: int| 0 <= i < fdl.len()
                implies (#[trigger] fdl[i]).id->0 < log.last().id->0 by {
                assert(dl.contains(fdl[i]));
                let w = choose|w: int| 0 <= w < dl.len() && dl[w] == fdl[i];
                assert(log[w] == dl[w]);
                assert(log.last().id == Some((log.len() - 1 + 1) as i64));
            }
        } else {
            assert(log.filter(pred) == fdl);
        }
    }
}

/// Every element of a filtered sequence is an element of the original.
proof fn lemma_filter_members(log: Seq<EventView>, pred: spec_fn(EventView) -> bool)
    ensures
        forall|i: int| 0 <= i < log.filter(pred).len()
            ==> log.contains(#[trigger] log.filter(pred)[i]),
    decreases log.len(),
{
    reveal(Seq::filter);
    if log.len() > 0 {
        let dl = log.drop_last();
        lemma_filter_members(dl, pred);
        let fdl = dl.filter(pred);
        assert forall|i: int| 0 <= i < log.filter(pred).len()
            implies log.contains(#[trigger] log.filter(pred)[i]) by {
            if pred(log.last()) {
                assert(log.filter(pred) == fdl.push(log.last()));
                if i < fdl.len() {
                    assert(dl.contains(fdl[i]));
                    let w = choose|w: int| 0 <= w < dl.len() && dl[w] == fdl[i];
                    assert(log[w] == log.filter(pred)[i]);
                } else {
                    assert(log[log.len() - 1] == log.filter(pred)[i]);
                }
            } else {
                assert(log.filter(pred) == fdl);
                assert(dl.contains(fdl[i]));
                let w = choose|w: int| 0 <= w < dl.len() && dl[w] == fdl[i];
                assert(log[w] == log.filter(pred)[i]);
            }
        }
    }
}

} // verus!
