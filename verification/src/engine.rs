//! The connection core's state: the FIFO pending-reply queue and the
//! background-job map, with the classification step that routes every
//! decoded message to exactly one consumer.
//!
//! Callers own the waiting side of each hand-off; the engine deals in
//! numbered slots.  A slot number is handed out when a command or job is
//! registered, and every routing decision names the slot to fulfill, so the
//! unverified shell around the engine never decides who receives a message.

use vstd::prelude::*;
use crate::json::{field_lookup, fields_view, json_fields_of, parse_json_fields};
use crate::message::{header_lookup, str_eq, Message, MessageView};

verus! {

/// Where one received message must be routed.
pub enum Action {
    /// A disconnect notice or an unusable event frame: every drained slot
    /// fails, and the receive loop terminates.
    Shutdown { drained: Vec<u64> },
    /// The synchronous-reply path: fulfill the oldest pending slot.
    FulfillReply { slot: u64 },
    /// A background-job completion: fulfill the slot registered under the
    /// event's job identifier.
    FulfillJob { slot: u64 },
    /// A free-running event: forward its fields to the listener, if any.
    DeliverEvent { fields: Vec<(String, Option<String>)> },
    /// Nothing to do: an event for an unknown job, or a reply with nothing
    /// pending.
    Ignore,
}

/// How the engine classifies one received event-json message.
pub enum EventClass {
    /// No body, an unparseable body, or a non-string identifier field:
    /// a protocol violation that tears the connection down.
    Broken,
    /// A completion for the job registered under `id`: either a direct
    /// job field, or an application identifier together with the
    /// execution-complete marker.
    Job { id: Seq<char> },
    /// Anything else: free event traffic for the listener.
    Free,
}

/// The `Content-Type` header of a message.
pub open spec fn content_type_of(m: MessageView) -> Option<Seq<char>> {
    header_lookup(m.headers, "Content-Type"@)
}

/// Whether the message is a disconnect notice.
pub open spec fn is_disconnect(m: MessageView) -> bool {
    content_type_of(m) == Some("text/disconnect-notice"@)
}

/// Whether the message is event traffic.
pub open spec fn is_event_json(m: MessageView) -> bool {
    content_type_of(m) == Some("text/event-json"@)
}

/// How an event-json message is classified, from its parsed body fields:
/// a `Job-UUID` field names the job directly; an `Application-UUID` field
/// names it when the event is the execution-complete marker; a non-string
/// value in either field is a protocol violation.
pub open spec fn classify_event(m: MessageView) -> EventClass {
    match m.body {
        None => EventClass::Broken,
        Some(b) => match json_fields_of(b) {
            None => EventClass::Broken,
            Some(f) => match field_lookup(f, "Job-UUID"@) {
                Some(Some(j)) => EventClass::Job { id: j },
                Some(None) => EventClass::Broken,
                None => match field_lookup(f, "Application-UUID"@) {
                    Some(Some(u)) => if field_lookup(f, "Event-Name"@) == Some(
                        Some("CHANNEL_EXECUTE_COMPLETE"@),
                    ) {
                        EventClass::Job { id: u }
                    } else {
                        EventClass::Free
                    },
                    Some(None) => EventClass::Broken,
                    None => EventClass::Free,
                },
            },
        },
    }
}

/// The slot registered under `id`: the first entry with that key.
pub open spec fn job_lookup(jobs: Seq<(Seq<char>, u64)>, id: Seq<char>) -> Option<u64>
    decreases jobs.len(),
{
    if jobs.len() == 0 {
        None
    } else if jobs[0].0 == id {
        Some(jobs[0].1)
    } else {
        job_lookup(jobs.drop_first(), id)
    }
}

proof fn lemma_job_lookup_at(s: Seq<(Seq<char>, u64)>, i: int, id: Seq<char>)
    requires
        0 <= i < s.len(),
        s[i].0 == id,
        forall|j: int| 0 <= j < i ==> s[j].0 != id,
    ensures
        job_lookup(s, id) == Some(s[i].1),
    decreases i,
{
    if i > 0 {
        lemma_job_lookup_at(s.drop_first(), i - 1, id);
    }
}

proof fn lemma_job_lookup_none(s: Seq<(Seq<char>, u64)>, id: Seq<char>)
    requires
        forall|j: int| 0 <= j < s.len() ==> s[j].0 != id,
    ensures
        job_lookup(s, id) is None,
    decreases s.len(),
{
    if s.len() > 0 {
        lemma_job_lookup_none(s.drop_first(), id);
    }
}

proof fn lemma_job_lookup_absent(s: Seq<(Seq<char>, u64)>, id: Seq<char>)
    requires
        job_lookup(s, id) is None,
    ensures
        forall|j: int| 0 <= j < s.len() ==> s[j].0 != id,
    decreases s.len(),
{
    if s.len() > 0 {
        lemma_job_lookup_absent(s.drop_first(), id);
        assert forall|j: int| 0 <= j < s.len() implies s[j].0 != id by {
            if j > 0 {
                assert(s.drop_first()[j - 1] == s[j]);
            }
        }
    }
}

proof fn lemma_job_lookup_remove(s: Seq<(Seq<char>, u64)>, i: int, k: Seq<char>)
    requires
        0 <= i < s.len(),
        k != s[i].0,
    ensures
        job_lookup(s.remove(i), k) == job_lookup(s, k),
    decreases i,
{
    if i == 0 {
        assert(s.remove(0) =~= s.drop_first());
    } else {
        assert(s.remove(i)[0] == s[0]);
        if s[0].0 != k {
            assert(s.remove(i).drop_first() =~= s.drop_first().remove(i - 1));
            lemma_job_lookup_remove(s.drop_first(), i - 1, k);
        }
    }
}

proof fn lemma_job_lookup_push(s: Seq<(Seq<char>, u64)>, id: Seq<char>, slot: u64, k: Seq<char>)
    ensures
        k == id && (forall|j: int| 0 <= j < s.len() ==> s[j].0 != id) ==> job_lookup(
            s.push((id, slot)),
            k,
        ) == Some(slot),
        k != id ==> job_lookup(s.push((id, slot)), k) == job_lookup(s, k),
    decreases s.len(),
{
    if s.len() == 0 {
        assert(s.push((id, slot))[0] == (id, slot));
        assert(s.push((id, slot)).drop_first() =~= Seq::<(Seq<char>, u64)>::empty());
    } else {
        assert(s.push((id, slot))[0] == s[0]);
        assert(s.push((id, slot)).drop_first() =~= s.drop_first().push((id, slot)));
        lemma_job_lookup_push(s.drop_first(), id, slot, k);
    }
}

/// The body of a message, cloned out so the borrow of the message ends.
fn clone_body(msg: &Message) -> (r: Option<String>)
    ensures
        match r {
            Some(b) => msg@.body == Some(b@),
            None => msg@.body is None,
        },
{
    match msg.body() {
        Some(b) => Some(b.clone()),
        None => None,
    }
}

/// The connection core's bookkeeping: the FIFO queue of slots awaiting a
/// synchronous reply, the job map from identifier to slot, the counter the
/// next slot comes from, the connection flag, and the bound call identifier
/// of an outbound session.
pub struct Engine {
    pub pending: Vec<u64>,
    pub jobs: Vec<(String, u64)>,
    pub next_slot: u64,
    pub connected: bool,
    pub call_uuid: Option<String>,
}

impl Engine {
    /// The job map as key/slot pairs of character sequences.
    pub open spec fn jobs_view(&self) -> Seq<(Seq<char>, u64)> {
        self.jobs@.map(|i: int, p: (String, u64)| (p.0@, p.1))
    }

    /// Well-formedness: slot numbers in use stay below the counter, the
    /// queue holds no slot twice, and no job identifier is registered twice.
    pub open spec fn wf(&self) -> bool {
        &&& forall|i: int, j: int|
            0 <= i < j < self.pending@.len() ==> self.pending@[i] != self.pending@[j]
        &&& forall|i: int| 0 <= i < self.pending@.len() ==> self.pending@[i] < self.next_slot
        &&& forall|i: int, j: int|
            0 <= i < j < self.jobs_view().len() ==> self.jobs_view()[i].0 != self.jobs_view()[j].0
        &&& forall|i: int| 0 <= i < self.jobs_view().len() ==> self.jobs_view()[i].1
            < self.next_slot
    }

    /// A fresh engine: nothing pending, no jobs, not yet connected.
    pub fn new() -> (e: Engine)
        ensures
            e.wf(),
            e.pending@ =~= Seq::<u64>::empty(),
            e.jobs_view() =~= Seq::<(Seq<char>, u64)>::empty(),
            !e.connected,
            e.call_uuid is None,
    {
        Engine {
            pending: Vec::new(),
            jobs: Vec::new(),
            next_slot: 0,
            connected: false,
            call_uuid: None,
        }
    }

    /// Registers a command that was just sent: a fresh slot joins the tail
    /// of the pending-reply queue.
    pub fn begin_command(&mut self) -> (slot: u64)
        requires
            old(self).wf(),
            old(self).next_slot < u64::MAX,
        ensures
            final(self).wf(),
            slot == old(self).next_slot,
            !old(self).pending@.contains(slot),
            final(self).pending@ == old(self).pending@.push(slot),
            final(self).jobs@ == old(self).jobs@,
            final(self).next_slot == old(self).next_slot + 1,
            final(self).connected == old(self).connected,
            final(self).call_uuid == old(self).call_uuid,
    {
        let slot = self.next_slot;
        self.pending.push(slot);
        self.next_slot = self.next_slot + 1;
        proof {
            assert(self.jobs_view() =~= old(self).jobs_view());
            assert forall|x: int| 0 <= x < old(self).pending@.len() implies old(self).pending@[x]
                != slot by {
                assert(old(self).pending@[x] < old(self).next_slot);
            }
            assert forall|x: int, y: int|
                0 <= x < y < self.pending@.len() implies self.pending@[x] != self.pending@[y] by {
                if y < old(self).pending@.len() {
                    assert(old(self).pending@[x] != old(self).pending@[y]);
                } else {
                    assert(self.pending@[y] == slot);
                }
            }
            assert forall|x: int|
                0 <= x < self.pending@.len() implies self.pending@[x] < self.next_slot by {
                if x < old(self).pending@.len() {
                    assert(old(self).pending@[x] < old(self).next_slot);
                }
            }
            assert forall|x: int, y: int|
                0 <= x < y < self.jobs_view().len() implies self.jobs_view()[x].0
                != self.jobs_view()[y].0 by {
                assert(old(self).jobs_view()[x].0 != old(self).jobs_view()[y].0);
            }
            assert forall|x: int|
                0 <= x < self.jobs_view().len() implies self.jobs_view()[x].1 < self.next_slot by {
                assert(old(self).jobs_view()[x].1 < old(self).next_slot);
            }
        }
        slot
    }

    /// Removes the job registered under `id`, handing back its slot.
    fn remove_job(&mut self, id: &str) -> (r: Option<u64>)
        requires
            old(self).wf(),
        ensures
            final(self).wf(),
            r == job_lookup(old(self).jobs_view(), id@),
            job_lookup(final(self).jobs_view(), id@) is None,
            forall|k: Seq<char>| k != id@ ==> job_lookup(final(self).jobs_view(), k) == job_lookup(
                old(self).jobs_view(),
                k,
            ),
            r is None ==> final(self).jobs@ == old(self).jobs@,
            final(self).pending@ == old(self).pending@,
            final(self).next_slot == old(self).next_slot,
            final(self).connected == old(self).connected,
            final(self).call_uuid == old(self).call_uuid,
    {
        let n = self.jobs.len();
        let mut i: usize = 0;
        while i < n
            invariant
                old(self).wf(),
                *self == *old(self),
                n == self.jobs.len(),
                i <= n,
                forall|j: int| 0 <= j < i ==> self.jobs_view()[j].0 != id@,
            decreases n - i,
        {
            if str_eq(self.jobs[i].0.as_str(), id) {
                let ghost pre = self.jobs_view();
                proof {
                    assert(pre[i as int].0 == id@);
                    assert(forall|j: int| 0 <= j < i ==> pre[j].0 != id@);
                    assert forall|x: int, y: int|
                        0 <= x < y < pre.len() implies pre[x].0 != pre[y].0 by {
                        assert(old(self).jobs_view()[x].0 != old(self).jobs_view()[y].0);
                    }
                    assert forall|x: int| 0 <= x < pre.len() implies pre[x].1
                        < self.next_slot by {
                        assert(old(self).jobs_view()[x].1 < old(self).next_slot);
                    }
                }
                let entry = self.jobs.remove(i);
                proof {
                    assert(self.jobs_view() =~= pre.remove(i as int));
                    lemma_job_lookup_at(pre, i as int, id@);
                    assert forall|k: Seq<char>| k != id@ implies job_lookup(
                        self.jobs_view(),
                        k,
                    ) == job_lookup(pre, k) by {
                        lemma_job_lookup_remove(pre, i as int, k);
                    }
                    assert forall|j: int|
                        0 <= j < self.jobs_view().len() implies self.jobs_view()[j].0 != id@ by {
                        if j < i {
                            assert(self.jobs_view()[j] == pre[j]);
                        } else {
                            assert(self.jobs_view()[j] == pre[j + 1]);
                            assert(pre[j + 1].0 != pre[i as int].0);
                        }
                    }
                    lemma_job_lookup_none(self.jobs_view(), id@);
                    assert forall|x: int, y: int|
                        0 <= x < y < self.jobs_view().len() implies self.jobs_view()[x].0
                        != self.jobs_view()[y].0 by {
                        let px = if x < i { x } else { x + 1 };
                        let py = if y < i { y } else { y + 1 };
                        assert(self.jobs_view()[x] == pre[px]);
                        assert(self.jobs_view()[y] == pre[py]);
                    }
                    assert forall|x: int|
                        0 <= x < self.jobs_view().len() implies self.jobs_view()[x].1
                        < self.next_slot by {
                        let px = if x < i { x } else { x + 1 };
                        assert(self.jobs_view()[x] == pre[px]);
                    }
                }
                return Some(entry.1);
            }
            i += 1;
        }
        proof {
            lemma_job_lookup_none(self.jobs_view(), id@);
        }
        None
    }

    /// Registers a background job under `id`: a fresh slot replaces any
    /// slot still registered under the same identifier.
    pub fn begin_job(&mut self, id: String) -> (slot: u64)
        requires
            old(self).wf(),
            old(self).next_slot < u64::MAX,
        ensures
            final(self).wf(),
            slot == old(self).next_slot,
            job_lookup(final(self).jobs_view(), id@) == Some(slot),
            forall|k: Seq<char>| k != id@ ==> job_lookup(final(self).jobs_view(), k) == job_lookup(
                old(self).jobs_view(),
                k,
            ),
            final(self).pending@ == old(self).pending@,
            final(self).next_slot == old(self).next_slot + 1,
            final(self).connected == old(self).connected,
            final(self).call_uuid == old(self).call_uuid,
    {
        let _ = self.remove_job(id.as_str());
        let slot = self.next_slot;
        let ghost mid = self.jobs_view();
        proof {
            lemma_job_lookup_absent(mid, id@);
            assert(self.wf());
            assert forall|x: int, y: int| 0 <= x < y < mid.len() implies mid[x].0 != mid[y].0 by {
                assert(self.jobs_view()[x].0 != self.jobs_view()[y].0);
            }
            assert forall|x: int| 0 <= x < mid.len() implies mid[x].1 < self.next_slot by {
                assert(self.jobs_view()[x].1 < self.next_slot);
            }
        }
        self.jobs.push((id, slot));
        self.next_slot = self.next_slot + 1;
        proof {
            assert(self.jobs_view() =~= mid.push((id@, slot)));
            assert forall|k: Seq<char>| k != id@ implies job_lookup(self.jobs_view(), k)
                == job_lookup(mid, k) by {
                lemma_job_lookup_push(mid, id@, slot, k);
            }
            lemma_job_lookup_push(mid, id@, slot, id@);
            assert forall|x: int, y: int|
                0 <= x < y < self.jobs_view().len() implies self.jobs_view()[x].0
                != self.jobs_view()[y].0 by {
                if y < mid.len() {
                    assert(self.jobs_view()[x] == mid[x]);
                    assert(self.jobs_view()[y] == mid[y]);
                } else {
                    assert(self.jobs_view()[y].0 == id@);
                    assert(self.jobs_view()[x] == mid[x]);
                }
            }
            assert forall|x: int|
                0 <= x < self.jobs_view().len() implies self.jobs_view()[x].1 < self.next_slot by {
                if x < mid.len() {
                    assert(self.jobs_view()[x] == mid[x]);
                }
            }
        }
        slot
    }

    /// Drains the pending-reply queue: every drained slot fails its caller.
    fn drain_pending(&mut self) -> (drained: Vec<u64>)
        requires
            old(self).wf(),
        ensures
            final(self).wf(),
            drained@ == old(self).pending@,
            final(self).pending@ =~= Seq::<u64>::empty(),
            final(self).jobs@ == old(self).jobs@,
            final(self).next_slot == old(self).next_slot,
            final(self).connected == old(self).connected,
            final(self).call_uuid == old(self).call_uuid,
    {
        let mut drained: Vec<u64> = Vec::new();
        core::mem::swap(&mut drained, &mut self.pending);
        proof {
            assert(self.jobs_view() =~= old(self).jobs_view());
            assert forall|x: int, y: int|
                0 <= x < y < self.jobs_view().len() implies self.jobs_view()[x].0
                != self.jobs_view()[y].0 by {
                assert(old(self).jobs_view()[x].0 != old(self).jobs_view()[y].0);
            }
            assert forall|x: int|
                0 <= x < self.jobs_view().len() implies self.jobs_view()[x].1 < self.next_slot by {
                assert(old(self).jobs_view()[x].1 < old(self).next_slot);
            }
        }
        drained
    }

    /// Routes one received message, per the receive-loop state machine:
    /// a disconnect notice drains every pending slot and ends the loop; an
    /// event is matched against the job map or handed to the listener; and
    /// everything else fulfills the head of the pending-reply queue.
    ///
    /// A job slot is fulfilled only by an event carrying its own
    /// identifier, and is gone from the map afterwards; events for unknown
    /// identifiers fulfill nothing.
    pub fn on_message(&mut self, msg: &Message) -> (a: Action)
        requires
            old(self).wf(),
        ensures
            final(self).wf(),
            final(self).next_slot == old(self).next_slot,
            final(self).connected == old(self).connected,
            final(self).call_uuid == old(self).call_uuid,
            is_disconnect(msg@)
                ==> (a matches Action::Shutdown { drained }
                && drained@ == old(self).pending@
                && final(self).pending@.len() == 0
                && final(self).jobs@ == old(self).jobs@),
            !is_disconnect(msg@) && is_event_json(msg@) && !(classify_event(msg@) is Broken)
                ==> final(self).pending@ == old(self).pending@,
            !is_disconnect(msg@) && is_event_json(msg@) && classify_event(msg@) is Broken
                ==> (a matches Action::Shutdown { drained }
                && drained@ == old(self).pending@
                && final(self).pending@.len() == 0
                && final(self).jobs@ == old(self).jobs@),
            !is_disconnect(msg@) && is_event_json(msg@)
                ==> (classify_event(msg@) matches EventClass::Job { id }
                ==> (job_lookup(old(self).jobs_view(), id) matches Some(s)
                ==> (a == (Action::FulfillJob { slot: s })
                && job_lookup(final(self).jobs_view(), id) is None
                && (forall|k: Seq<char>| k != id
                    ==> job_lookup(final(self).jobs_view(), k)
                        == job_lookup(old(self).jobs_view(), k))))),
            !is_disconnect(msg@) && is_event_json(msg@)
                ==> (classify_event(msg@) matches EventClass::Job { id }
                ==> (job_lookup(old(self).jobs_view(), id) is None
                ==> (a == Action::Ignore && final(self).jobs@ == old(self).jobs@))),
            !is_disconnect(msg@) && is_event_json(msg@) && classify_event(msg@) is Free
                ==> (a matches Action::DeliverEvent { fields }
                && (msg@.body matches Some(b) && json_fields_of(b) == Some(fields_view(fields@)))
                && final(self).jobs@ == old(self).jobs@),
            !is_disconnect(msg@) && !is_event_json(msg@) && old(self).pending@.len() > 0
                ==> (a == (Action::FulfillReply { slot: old(self).pending@[0] })
                && final(self).pending@ == old(self).pending@.drop_first()
                && final(self).jobs@ == old(self).jobs@),
            !is_disconnect(msg@) && !is_event_json(msg@) && old(self).pending@.len() == 0
                ==> (a == Action::Ignore
                && final(self).pending@ == old(self).pending@
                && final(self).jobs@ == old(self).jobs@),
    {
        let ct = msg.content_type();
        let is_disc = match &ct {
            Some(t) => str_eq(t.as_str(), "text/disconnect-notice"),
            None => false,
        };
        if is_disc {
            let drained = self.drain_pending();
            return Action::Shutdown { drained };
        }
        let is_event = match &ct {
            Some(t) => str_eq(t.as_str(), "text/event-json"),
            None => false,
        };
        if is_event {
            let body = match clone_body(msg) {
                Some(b) => b,
                None => {
                    let drained = self.drain_pending();
                    return Action::Shutdown { drained };
                },
            };
            let fields = match parse_json_fields(body.as_str()) {
                Ok(f) => f,
                Err(_) => {
                    let drained = self.drain_pending();
                    return Action::Shutdown { drained };
                },
            };
            let job_id = match crate::json::find_field(&fields, "Job-UUID") {
                Some(v) => match v {
                    Some(j) => Some(j.clone()),
                    None => {
                        let drained = self.drain_pending();
                        return Action::Shutdown { drained };
                    },
                },
                None => None,
            };
            let job_id = match job_id {
                Some(j) => Some(j),
                None => {
                    match crate::json::find_field(&fields, "Application-UUID") {
                        Some(v) => match v {
                            Some(u) => {
                                let complete = match crate::json::find_field(
                                    &fields,
                                    "Event-Name",
                                ) {
                                    Some(Some(n)) => str_eq(
                                        n.as_str(),
                                        "CHANNEL_EXECUTE_COMPLETE",
                                    ),
                                    _ => false,
                                };
                                if complete {
                                    Some(u.clone())
                                } else {
                                    None
                                }
                            },
                            None => {
                                let drained = self.drain_pending();
                                return Action::Shutdown { drained };
                            },
                        },
                        None => None,
                    }
                },
            };
            match job_id {
                Some(id) => {
                    match self.remove_job(id.as_str()) {
                        Some(slot) => Action::FulfillJob { slot },
                        None => Action::Ignore,
                    }
                },
                None => Action::DeliverEvent { fields },
            }
        } else {
            if self.pending.len() > 0 {
                let slot = self.pending.remove(0);
                proof {
                    assert(self.pending@ =~= old(self).pending@.drop_first());
                }
                Action::FulfillReply { slot }
            } else {
                Action::Ignore
            }
        }
    }

    /// End of stream or a read error: exactly the disconnect-notice
    /// treatment, every pending slot fails and the loop terminates.
    pub fn on_stream_end(&mut self) -> (drained: Vec<u64>)
        requires
            old(self).wf(),
        ensures
            final(self).wf(),
            drained@ == old(self).pending@,
            final(self).pending@.len() == 0,
            final(self).jobs@ == old(self).jobs@,
            final(self).next_slot == old(self).next_slot,
            final(self).connected == old(self).connected,
            final(self).call_uuid == old(self).call_uuid,
    {
        self.drain_pending()
    }

    /// The connection flag.
    pub fn is_connected(&self) -> (r: bool)
        ensures
            r == self.connected,
    {
        self.connected
    }

    /// The call identifier bound to this connection, if the outbound
    /// bootstrap bound one.
    pub fn bound_call(&self) -> (r: Option<&String>)
        ensures
            match r {
                Some(u) => self.call_uuid == Some(*u),
                None => self.call_uuid is None,
            },
    {
        match &self.call_uuid {
            Some(u) => Some(u),
            None => None,
        }
    }

    /// Flips the connection flag, as authentication success and explicit
    /// disconnect do.
    pub fn set_connected(&mut self, value: bool)
        ensures
            *final(self) == (Engine { connected: value, ..*old(self) }),
    {
        self.connected = value;
    }

    /// Binds the call identifier of an outbound session.
    pub fn bind_call(&mut self, id: String)
        ensures
            *final(self) == (Engine { call_uuid: Some(id), ..*old(self) }),
    {
        self.call_uuid = Some(id);
    }
}

/// After `k` in-order reply deliveries the queue left is `q.skip(k)`, by
/// the reply clause of [`Engine::on_message`] applied `k` times; its head —
/// the slot the next reply fulfills — is exactly the slot at position `k`
/// of the original queue.  Delivering `n` replies in arrival order
/// therefore fulfills the first `n` slots, each with the reply at its own
/// position.
pub proof fn lemma_fifo_order(q: Seq<u64>, k: int)
    requires
        0 <= k < q.len(),
    ensures
        q.skip(k)[0] == q[k],
        q.skip(k).drop_first() =~= q.skip(k + 1),
{
}

/// FIFO correlation over a whole run: for a queue of slots q, the slots
/// fulfilled by the first `n` in-order reply deliveries — the head of what
/// remains before each step — are exactly the first `n` slots of `q`, in
/// order.
pub proof fn lemma_fifo_correlation(q: Seq<u64>, n: int)
    requires
        0 <= n <= q.len(),
    ensures
        Seq::new(n as nat, |k: int| q.skip(k)[0]) =~= q.take(n),
{
}

} // verus!
