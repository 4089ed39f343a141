//! The runtime dispatcher's notification policy.
//!
//! A background observer tails the log and surfaces semantic notifications
//! to an opaque sink: one `beliefs-updated` heartbeat per tick, and one
//! named notification per newly seen event of the kinds the UI reacts to.
//! The polling thread itself lives outside the library; which notifications
//! a tick emits, and how the cursor advances, is verified here.

use vstd::prelude::*;
use crate::event_log::{Event, EventLog, EventType, EventView, spec_events_after};
use crate::json::{JsonVal, JsonValue};

verus! {

use vstd::string::StringExecFns;

/// A sink for semantic UI notifications. Implementations live outside the
/// library (a desktop shell, a test capture); the dispatcher only pushes
/// into it.
pub trait EventSink {
    fn emit_json(&self, event: &str, payload: JsonValue);
}

/// One notification: its name and payload.
#[derive(Debug)]
pub struct Notification {
    pub name: String,
    pub payload: JsonValue,
}

/// Mathematical value of a notification.
pub struct NotificationView {
    pub name: Seq<char>,
    pub payload: JsonVal,
}

impl View for Notification {
    type V = NotificationView;

    open spec fn view(&self) -> NotificationView {
        NotificationView { name: self.name@, payload: self.payload@ }
    }
}

impl DeepView for Notification {
    type V = NotificationView;

    open spec fn deep_view(&self) -> NotificationView {
        self@
    }
}

/// An incident count clamped into an `i64`.
pub open spec fn spec_count_i64(n: int) -> i64 {
    if n > i64::MAX {
        i64::MAX
    } else {
        n as i64
    }
}

/// The heartbeat notification: the number of active incidents.
pub open spec fn spec_heartbeat(active_count: int) -> NotificationView {
    NotificationView {
        name: "beliefs-updated"@,
        payload: JsonVal::Obj(
            seq![("active_incident_count"@, JsonVal::Int(spec_count_i64(active_count)))],
        ),
    }
}

/// The notification one event emits, if its kind emits one: `plan-selected`,
/// `action-completed`, `escalation-required` or `incident-resolved`, each
/// carrying the incident and the event's description.
pub open spec fn spec_notification_of(e: EventView) -> Option<NotificationView> {
    let payload = JsonVal::Obj(
        seq![("incident_id"@, JsonVal::Str(e.incident_id)), ("description"@, JsonVal::Str(e.description))],
    );
    match e.event_type {
        EventType::PlanSelected => Some(NotificationView { name: "plan-selected"@, payload }),
        EventType::ActionResult => Some(NotificationView { name: "action-completed"@, payload }),
        EventType::Escalated => Some(
            NotificationView { name: "escalation-required"@, payload },
        ),
        EventType::Resolved => Some(NotificationView { name: "incident-resolved"@, payload }),
        _ => None,
    }
}

/// The notifications a batch of new events emits, after the heartbeat.
pub open spec fn spec_notifications(events: Seq<EventView>, active_count: int) -> Seq<
    NotificationView,
>
    decreases events.len(),
{
    if events.len() == 0 {
        seq![spec_heartbeat(active_count)]
    } else {
        let rest = spec_notifications(events.drop_last(), active_count);
        match spec_notification_of(events.last()) {
            Some(n) => rest.push(n),
            None => rest,
        }
    }
}

fn notification_of(e: &Event) -> (r: Option<Notification>)
    ensures
        match r {
            Some(n) => spec_notification_of(e@) == Some(n@),
            None => spec_notification_of(e@) is None,
        },
{
    let name: &str = match e.event_type {
        EventType::PlanSelected => "plan-selected",
        EventType::ActionResult => "action-completed",
        EventType::Escalated => "escalation-required",
        EventType::Resolved => "incident-resolved",
        _ => {
            return None;
        },
    };
    let mut fields: Vec<(String, JsonValue)> = Vec::new();
    fields.push((String::from_str("incident_id"), JsonValue::Str(e.incident_id.clone())));
    fields.push((String::from_str("description"), JsonValue::Str(e.description.clone())));
    let payload = JsonValue::Obj(fields);
    proof {
        reveal_with_fuel(crate::json::view_json, 3);
        assert(payload@->Obj_0 =~= spec_notification_of(e@)->0.payload->Obj_0);
        assert(payload@ =~~= spec_notification_of(e@)->0.payload);
    }
    Some(Notification { name: name.to_owned(), payload })
}

/// The notifications one polling tick emits for a batch of new events: the
/// `beliefs-updated` heartbeat first, then one notification per event whose
/// kind the UI reacts to, in log order.
pub fn notifications_for(events: &Vec<Event>, active_count: usize) -> (r: Vec<Notification>)
    ensures
        r.deep_view() == spec_notifications(events.deep_view(), active_count as int),
{
    let count: i64 = if active_count as u64 > (i64::MAX as u64) {
        i64::MAX
    } else {
        active_count as i64
    };
    proof {
        assert(count == spec_count_i64(active_count as int));
    }
    let mut fields: Vec<(String, JsonValue)> = Vec::new();
    fields.push((String::from_str("active_incident_count"), JsonValue::Int(count)));
    let payload = JsonValue::Obj(fields);
    proof {
        reveal_with_fuel(crate::json::view_json, 3);
        assert(payload@->Obj_0 =~= spec_heartbeat(active_count as int).payload->Obj_0);
        assert(payload@ =~~= spec_heartbeat(active_count as int).payload);
    }
    let mut out: Vec<Notification> = Vec::new();
    out.push(Notification { name: String::from_str("beliefs-updated"), payload });
    let mut i: usize = 0;
    proof {
        assert(out.deep_view() =~= spec_notifications(events.deep_view().take(0), active_count as int));
    }
    while i < events.len()
        invariant
            i <= events@.len(),
            events.deep_view().len() == events@.len(),
            out.deep_view() == spec_notifications(events.deep_view().take(i as int), active_count as int),
        decreases events@.len() - i,
    {
        let ghost next_prefix = events.deep_view().take(i + 1 as int);
        proof {
            assert(next_prefix.drop_last() =~= events.deep_view().take(i as int));
            assert(next_prefix.last() == events.deep_view()[i as int]);
        }
        let ghost prev = out.deep_view();
        match notification_of(&events[i]) {
            Some(n) => {
                out.push(n);
                proof {
                    assert(out.deep_view()
                        =~= prev.push(spec_notification_of(events.deep_view()[i as int])->0));
                }
            },
            None => {},
        }
        i += 1;
    }
    proof {
        assert(events.deep_view().take(events.deep_view().len() as int) =~= events.deep_view());
    }
    out
}

/// One polling tick: emit the heartbeat and a notification per event newer
/// than the cursor, advancing the cursor to the newest id seen.
pub fn emit_updates<S: EventSink>(log: &EventLog, sink: &S, last_id: &mut i64, active_count: usize)
    requires
        log.wf(),
    ensures
        *final(last_id) == (if log@.len() > 0 && log@.len() as i64 > *old(last_id) {
            log@.len() as i64
        } else {
            *old(last_id)
        }),
{
    let notifications = {
        let events = match log.events_after(*last_id) {
            Ok(evs) => evs,
            Err(_) => {
                return;
            },
        };
        let ghost evs_view = events.deep_view();
        let mut i: usize = 0;
        while i < events.len()
            invariant
                log.wf(),
                evs_view == events.deep_view(),
                evs_view.len() == events@.len(),
                evs_view == spec_events_after(log@, *old(last_id)),
                forall|j: int| 0 <= j < evs_view.len() ==> (#[trigger] evs_view[j]).id is Some
                    && evs_view[j].id->0 > *old(last_id),
                forall|j1: int, j2: int| 0 <= j1 < j2 < evs_view.len()
                    ==> (#[trigger] evs_view[j1]).id->0 < (#[trigger] evs_view[j2]).id->0,
                i <= events@.len(),
                *last_id == (if i == 0 {
                    *old(last_id)
                } else {
                    evs_view[i - 1].id->0
                }),
            decreases events@.len() - i,
        {
            match events[i].id {
                Some(id) => {
                    if id > *last_id {
                        *last_id = id;
                    }
                },
                None => {},
            }
            proof {
                assert(evs_view[i as int].id is Some);
                if i > 0 {
                    assert(evs_view[i - 1].id->0 < evs_view[i as int].id->0);
                }
            }
            i += 1;
        }
        proof {
            if evs_view.len() > 0 {
                lemma_events_after_last(log@, *old(last_id));
            } else {
                lemma_events_after_empty(log@, *old(last_id));
            }
        }
        notifications_for(&events, active_count)
    };
    let mut i: usize = 0;
    while i < notifications.len()
        decreases notifications@.len() - i,
    {
        let n = &notifications[i];
        sink.emit_json(n.name.as_str(), n.payload.clone());
        i += 1;
    }
}

/// On a log with dense ids, the batch after `k` is non-empty exactly when
/// the log's last id exceeds `k`, and then ends at the last id.
proof fn lemma_events_after_last(log: Seq<EventView>, k: i64)
    requires
        crate::event_log::spec_log_wf(log),
        spec_events_after(log, k).len() > 0,
    ensures
        log.len() > 0,
        log.len() as i64 > k,
        spec_events_after(log, k).last() == log.last(),
    decreases log.len(),
{
    reveal(Seq::filter);
    let pred = |e: EventView| e.id is Some && e.id->0 > k;
    if log.len() > 0 {
        let dl = log.drop_last();
        assert(crate::event_log::spec_log_wf(dl)) by {
            assert(forall|i: int| 0 <= i < dl.len() ==> dl[i] == #[trigger] log[i]);
        }
        if pred(log.last()) {
            assert(spec_events_after(log, k) == dl.filter(pred).push(log.last()));
        } else {
            assert(spec_events_after(log, k) == dl.filter(pred));
            lemma_events_after_last(dl, k);
            assert(log.last().id == Some((log.len() - 1 + 1) as i64));
            assert(dl.len() as i64 > k);
            assert(false);
        }
    }
}

/// On a log with dense ids, an empty batch after `k` means no id exceeds
/// `k`.
proof fn lemma_events_after_empty(log: Seq<EventView>, k: i64)
    requires
        crate::event_log::spec_log_wf(log),
        spec_events_after(log, k).len() == 0,
    ensures
        log.len() == 0 || log.len() as i64 <= k,
    decreases log.len(),
{
    reveal(Seq::filter);
    let pred = |e: EventView| e.id is Some && e.id->0 > k;
    if log.len() > 0 {
        let dl = log.drop_last();
        if pred(log.last()) {
            assert(spec_events_after(log, k) == dl.filter(pred).push(log.last()));
            assert(false);
        } else {
            assert(log.last().id == Some((log.len() - 1 + 1) as i64));
        }
    }
}

} // verus!
