//! The session protocols: the commands the engine sends, the inbound and
//! outbound bootstrap sequences, and the reading of a background job's
//! completion event.
//!
//! The handshakes are state machines: the caller performs one send and one
//! receive per step and feeds every reply back in, so the decisions — what
//! to send, when the session is up, when it has failed — are all made here.

use vstd::prelude::*;
use crate::engine::Engine;
use crate::error::EslError;
use crate::json::{field_lookup, json_fields_of, parse_json_fields, find_field};
use crate::message::{header_lookup, headers_view, Message, MessageView};
use crate::reply::{parse_api_response, spec_parse_api_response, ReplyCode};

verus! {

/// The two roles a connection can play: an inbound connection dials the
/// switch and authenticates; an outbound connection is accepted from the
/// switch and bound to one call leg.
#[derive(Clone, Copy, Debug, PartialEq, Eq, Structural)]
pub enum EslConnectionType {
    Inbound,
    Outbound,
}

/// Where a bootstrap stands: which reply it is waiting for, or how it
/// ended.
#[derive(Clone, Copy, Debug, PartialEq, Eq, Structural)]
pub enum HandshakePhase {
    AwaitGreeting,
    AwaitAuthReply,
    AwaitSubscribeReply,
    AwaitConnectReply,
    AwaitOutboundSubscribeReply,
    AwaitMyeventsReply,
    Complete,
    Failed,
}

/// What the caller must do after feeding one reply in: send a command and
/// await its reply, stop with a ready session, or stop with an error.
pub enum HandshakeAction {
    Send { command: String },
    Done,
    Fail { error: EslError },
}

/// A bootstrap in progress, carrying what it has learned so far: the
/// connection flag once authentication succeeded, the setup metadata of an
/// outbound session, and the call identifier bound from it.
pub struct Handshake {
    pub role: EslConnectionType,
    pub password: String,
    pub phase: HandshakePhase,
    pub connected: bool,
    pub call_uuid: Option<String>,
    pub connection_info: Option<Vec<(String, String)>>,
}

/// The entry points: one bootstrap state machine per role.
pub struct Esl;

impl Esl {
    /// Begins the inbound bootstrap: the peer speaks first with a greeting,
    /// which is discarded; then authentication and the event subscription
    /// follow, each a [`Handshake::on_reply`] step.
    pub fn inbound(password: String) -> (h: Handshake)
        ensures
            h.role is Inbound,
            h.phase is AwaitGreeting,
            !h.connected,
            h.call_uuid is None,
            h.connection_info is None,
            h.password == password,
    {
        Handshake {
            role: EslConnectionType::Inbound,
            password,
            phase: HandshakePhase::AwaitGreeting,
            connected: false,
            call_uuid: None,
            connection_info: None,
        }
    }

    /// Begins the outbound bootstrap: this side speaks first, so the
    /// machine comes with the command to send before the first reply.
    pub fn outbound() -> (r: (Handshake, String))
        ensures
            r.0.role is Outbound,
            r.0.phase is AwaitConnectReply,
            !r.0.connected,
            r.0.call_uuid is None,
            r.0.connection_info is None,
            r.1@ == "connect"@,
    {
        let h = Handshake {
            role: EslConnectionType::Outbound,
            password: String::new(),
            phase: HandshakePhase::AwaitConnectReply,
            connected: false,
            call_uuid: None,
            connection_info: None,
        };
        (h, String::from_str("connect"))
    }
}

/// The subscription that both bootstraps install: background-job
/// completions and application-execution completions, as JSON events.
fn standard_events_command() -> (r: String)
    ensures
        r@ == "event json BACKGROUND_JOB CHANNEL_EXECUTE_COMPLETE"@,
{
    String::from_str("event json BACKGROUND_JOB CHANNEL_EXECUTE_COMPLETE")
}

/// Copies a header vector.
fn clone_headers(headers: &Vec<(String, String)>) -> (r: Vec<(String, String)>)
    ensures
        headers_view(r@) == headers_view(headers@),
{
    let n = headers.len();
    let mut out: Vec<(String, String)> = Vec::new();
    let mut i: usize = 0;
    while i < n
        invariant
            n == headers.len(),
            i <= n,
            out@.len() == i,
            forall|j: int| 0 <= j < i ==> (out@[j].0@, out@[j].1@) == (headers@[j].0@,
            headers@[j].1@),
        decreases n - i,
    {
        out.push((headers[i].0.clone(), headers[i].1.clone()));
        i += 1;
    }
    proof {
        assert(headers_view(out@) =~= headers_view(headers@));
    }
    out
}

impl Handshake {
    /// Fields the bootstrap never changes.
    pub open spec fn same_identity(&self, other: &Handshake) -> bool {
        self.role == other.role && self.password == other.password
    }

    /// Feeds one received message into the bootstrap and says what to do
    /// next.  The greeting is discarded unconditionally; the
    /// authentication reply decides between a live session and an
    /// authentication failure; the outbound steps capture the setup
    /// metadata and bind the call identifier out of it.
    pub fn on_reply(&mut self, msg: &Message) -> (a: HandshakeAction)
        ensures
            final(self).same_identity(old(self)),
            old(self).phase is AwaitGreeting ==> (a matches HandshakeAction::Send { command }
                && command@ == "auth "@ + old(self).password@
                && final(self).phase is AwaitAuthReply
                && final(self).connected == old(self).connected
                && final(self).call_uuid == old(self).call_uuid
                && final(self).connection_info == old(self).connection_info),
            old(self).phase is AwaitAuthReply ==> match header_lookup(
                msg@.headers,
                "Reply-Text"@,
            ) {
                None => (a matches HandshakeAction::Fail { error } && error is InternalError)
                    && final(self).phase is Failed && final(self).connected == old(self).connected,
                Some(rt) => match spec_parse_api_response(rt) {
                    None => (a matches HandshakeAction::Fail { error }
                        && error is InternalError) && final(self).phase is Failed && final(self).connected == old(self).connected,
                    Some(p) => if p.0 is Okay {
                        (a matches HandshakeAction::Send { command } && command@
                            == "event json BACKGROUND_JOB CHANNEL_EXECUTE_COMPLETE"@) && final(self).phase is AwaitSubscribeReply && final(self).connected
                    } else if p.0 is Failure {
                        a == (HandshakeAction::Fail { error: EslError::AuthFailed }) && final(self).phase is Failed && final(self).connected == old(self).connected
                    } else {
                        (a matches HandshakeAction::Fail { error } && error is InternalError)
                            && final(self).phase is Failed && final(self).connected == old(self).connected
                    },
                },
            },
            old(self).phase is AwaitSubscribeReply ==> (a is Done && final(self).phase is Complete
                && final(self).connected == old(self).connected && final(self).call_uuid == old(self).call_uuid),
            old(self).phase is AwaitConnectReply ==> (a matches HandshakeAction::Send { command }
                && command@ == "event json BACKGROUND_JOB CHANNEL_EXECUTE_COMPLETE"@
                && final(self).phase is AwaitOutboundSubscribeReply
                && (final(self).connection_info matches Some(ci) && headers_view(ci@)
                    == msg@.headers)
                && final(self).connected == old(self).connected),
            old(self).phase is AwaitOutboundSubscribeReply ==> (a matches
                HandshakeAction::Send { command } && command@ == "myevents"@
                && final(self).phase is AwaitMyeventsReply
                && final(self).connection_info == old(self).connection_info
                && final(self).connected == old(self).connected),
            old(self).phase is AwaitMyeventsReply ==> match old(self).connection_info {
                None => (a matches HandshakeAction::Fail { error } && error is InternalError)
                    && final(self).phase is Failed,
                Some(ci) => match header_lookup(headers_view(ci@), "Channel-Unique-ID"@) {
                    None => (a matches HandshakeAction::Fail { error }
                        && error is InternalError) && final(self).phase is Failed,
                    Some(v) => a is Done && final(self).phase is Complete && (final(self).call_uuid matches Some(u) && u@ == v),
                },
            },
            old(self).phase is Complete || old(self).phase is Failed ==> (a matches
                HandshakeAction::Fail { error } && error is InternalError && *final(self) == *old(self)),
    {
        match self.phase {
            HandshakePhase::AwaitGreeting => {
                let mut command = String::from_str("auth ");
                command.append(self.password.as_str());
                self.phase = HandshakePhase::AwaitAuthReply;
                HandshakeAction::Send { command }
            },
            HandshakePhase::AwaitAuthReply => {
                let reply_text = match msg.get_header("Reply-Text") {
                    Some(rt) => rt.clone(),
                    None => {
                        self.phase = HandshakePhase::Failed;
                        return HandshakeAction::Fail {
                            error: EslError::InternalError(
                                String::from_str("authentication reply carries no Reply-Text"),
                            ),
                        };
                    },
                };
                let parsed = match parse_api_response(reply_text.as_str()) {
                    Ok(p) => p,
                    Err(e) => {
                        self.phase = HandshakePhase::Failed;
                        return HandshakeAction::Fail { error: e };
                    },
                };
                match parsed.0 {
                    ReplyCode::Okay => {
                        self.connected = true;
                        self.phase = HandshakePhase::AwaitSubscribeReply;
                        HandshakeAction::Send { command: standard_events_command() }
                    },
                    ReplyCode::Failure => {
                        self.phase = HandshakePhase::Failed;
                        HandshakeAction::Fail { error: EslError::AuthFailed }
                    },
                    ReplyCode::Unknown => {
                        self.phase = HandshakePhase::Failed;
                        HandshakeAction::Fail {
                            error: EslError::InternalError(
                                String::from_str("unknown code in authentication reply"),
                            ),
                        }
                    },
                }
            },
            HandshakePhase::AwaitSubscribeReply => {
                self.phase = HandshakePhase::Complete;
                HandshakeAction::Done
            },
            HandshakePhase::AwaitConnectReply => {
                self.connection_info = Some(clone_headers(&msg.headers));
                self.phase = HandshakePhase::AwaitOutboundSubscribeReply;
                HandshakeAction::Send { command: standard_events_command() }
            },
            HandshakePhase::AwaitOutboundSubscribeReply => {
                self.phase = HandshakePhase::AwaitMyeventsReply;
                HandshakeAction::Send { command: String::from_str("myevents") }
            },
            HandshakePhase::AwaitMyeventsReply => {
                let call = match &self.connection_info {
                    Some(ci) => match crate::codec::find_header(ci, "Channel-Unique-ID") {
                        Some(v) => Some(v.clone()),
                        None => None,
                    },
                    None => None,
                };
                match call {
                    Some(u) => {
                        self.call_uuid = Some(u);
                        self.phase = HandshakePhase::Complete;
                        HandshakeAction::Done
                    },
                    None => {
                        self.phase = HandshakePhase::Failed;
                        HandshakeAction::Fail {
                            error: EslError::InternalError(
                                String::from_str("setup metadata names no call identifier"),
                            ),
                        }
                    },
                }
            },
            HandshakePhase::Complete | HandshakePhase::Failed => {
                HandshakeAction::Fail {
                    error: EslError::InternalError(String::from_str("the bootstrap is over")),
                }
            },
        }
    }
}

/// The `api` command line for a command text.
pub fn api_command(command: &str) -> (r: String)
    ensures
        r@ == "api "@ + command@,
{
    let mut s = String::from_str("api ");
    s.append(command);
    s
}

/// The `bgapi` command line: the command with the caller-chosen job
/// identifier embedded as a header.
pub fn bgapi_command(command: &str, job_id: &str) -> (r: String)
    ensures
        r@ == "bgapi "@ + command@ + "\nJob-UUID: "@ + job_id@,
{
    let mut s = String::from_str("bgapi ");
    s.append(command);
    s.append("\nJob-UUID: ");
    s.append(job_id);
    s
}

/// The structured `sendmsg` command that runs an application on the call
/// leg `call_id`, tagged with the fresh application identifier `event_id`
/// whose completion event will carry it back.
pub fn execute_command(call_id: &str, app_name: &str, app_args: &str, event_id: &str) -> (r:
    String)
    ensures
        r@ == "sendmsg "@ + call_id@ + "\nexecute-app-name: "@ + app_name@
            + "\nexecute-app-arg: "@ + app_args@ + "\ncall-command: execute\nEvent-UUID: "@
            + event_id@,
{
    let mut s = String::from_str("sendmsg ");
    s.append(call_id);
    s.append("\nexecute-app-name: ");
    s.append(app_name);
    s.append("\nexecute-app-arg: ");
    s.append(app_args);
    s.append("\ncall-command: execute\nEvent-UUID: ");
    s.append(event_id);
    s
}

/// The names joined by single spaces, from position `i` on, onto `acc`.
pub open spec fn join_spaces_from(names: Seq<Seq<char>>, i: int, acc: Seq<char>) -> Seq<char>
    decreases names.len() - i when 0 <= i <= names.len()
{
    if i >= names.len() {
        acc
    } else if i == 0 {
        join_spaces_from(names, 1, names[0])
    } else {
        join_spaces_from(names, i + 1, acc + " "@ + names[i])
    }
}

/// The names joined by single spaces.
pub open spec fn joined_names(names: Seq<Seq<char>>) -> Seq<char> {
    join_spaces_from(names, 0, Seq::<char>::empty())
}

/// The views of a vector of names.
pub open spec fn names_view(names: Seq<String>) -> Seq<Seq<char>> {
    names.map(|i: int, s: String| s@)
}

/// The subscription command for the given event names.
pub fn subscribe_command(events: &Vec<String>) -> (r: String)
    ensures
        r@ == "event json "@ + joined_names(names_view(events@)),
{
    let n = events.len();
    let mut joined = String::new();
    let mut i: usize = 0;
    while i < n
        invariant
            n == events.len(),
            i <= n,
            joined_names(names_view(events@)) == join_spaces_from(
                names_view(events@),
                i as int,
                joined@,
            ),
        decreases n - i,
    {
        if i == 0 {
            joined = events[0].clone();
        } else {
            joined.append(" ");
            joined.append(events[i].as_str());
        }
        i += 1;
    }
    let mut s = String::from_str("event json ");
    s.append(joined.as_str());
    s
}

/// Relies on `uuid::Uuid::new_v4` and its hyphenated text form: a fresh
/// random identifier, thirty-six characters of text.  Nothing relates two
/// draws, so every claim downstream holds whatever identifier comes back.
#[verifier::external_body]
pub fn new_id() -> (r: String)
    ensures
        r@.len() == 36,
{
    uuid::Uuid::new_v4().to_string()
}

/// Draws a fresh job identifier, registers a job slot under it, and builds
/// the `bgapi` command carrying it: the command text, the identifier, and
/// the slot its completion will fulfill.
pub fn prepare_bgapi(engine: &mut Engine, command: &str) -> (r: (String, String, u64))
    requires
        old(engine).wf(),
        old(engine).next_slot < u64::MAX,
    ensures
        final(engine).wf(),
        r.0@ == "bgapi "@ + command@ + "\nJob-UUID: "@ + r.1@,
        r.1@.len() == 36,
        crate::engine::job_lookup(final(engine).jobs_view(), r.1@) == Some(r.2),
        forall|k: Seq<char>| k != r.1@ ==> crate::engine::job_lookup(final(engine).jobs_view(), k)
            == crate::engine::job_lookup(old(engine).jobs_view(), k),
        final(engine).pending@ == old(engine).pending@,
        final(engine).connected == old(engine).connected,
        final(engine).call_uuid == old(engine).call_uuid,
        final(engine).next_slot == old(engine).next_slot + 1,
{
    let id = new_id();
    let slot = engine.begin_job(id.clone());
    let cmd = bgapi_command(command, id.as_str());
    (cmd, id, slot)
}

/// Draws a fresh application identifier, registers a job slot under it,
/// and builds the `sendmsg` command that runs the application on this
/// connection's bound call leg.
pub fn prepare_execute(engine: &mut Engine, app_name: &str, app_args: &str) -> (r: (
    String,
    String,
    u64,
))
    requires
        old(engine).wf(),
        old(engine).next_slot < u64::MAX,
        old(engine).call_uuid is Some,
    ensures
        final(engine).wf(),
        old(engine).call_uuid matches Some(c) ==> r.0@ == "sendmsg "@ + c@
            + "\nexecute-app-name: "@ + app_name@ + "\nexecute-app-arg: "@ + app_args@
            + "\ncall-command: execute\nEvent-UUID: "@ + r.1@,
        r.1@.len() == 36,
        crate::engine::job_lookup(final(engine).jobs_view(), r.1@) == Some(r.2),
        forall|k: Seq<char>| k != r.1@ ==> crate::engine::job_lookup(final(engine).jobs_view(), k)
            == crate::engine::job_lookup(old(engine).jobs_view(), k),
        final(engine).pending@ == old(engine).pending@,
        final(engine).connected == old(engine).connected,
        final(engine).call_uuid == old(engine).call_uuid,
        final(engine).next_slot == old(engine).next_slot + 1,
{
    let call = match &engine.call_uuid {
        Some(c) => c.clone(),
        None => vstd::pervasive::unreached(),
    };
    let id = new_id();
    let slot = engine.begin_job(id.clone());
    let cmd = execute_command(call.as_str(), app_name, app_args, id.as_str());
    (cmd, id, slot)
}

/// The merged view a background-job completion is read through: the JSON
/// body's fields shadow the event's own headers on key collision.
pub open spec fn merged_lookup(
    fields: Seq<(Seq<char>, Option<Seq<char>>)>,
    headers: Seq<(Seq<char>, Seq<char>)>,
    key: Seq<char>,
) -> Option<Option<Seq<char>>> {
    match field_lookup(fields, key) {
        Some(v) => Some(v),
        None => match header_lookup(headers, key) {
            Some(v) => Some(Some(v)),
            None => None,
        },
    }
}

/// Reads a background job's completion event: its JSON body is merged over
/// its headers, the `_body` entry of the merge holds the response line,
/// and that line decides between the job's success text, an API failure,
/// and a raw pass-through.
pub fn interpret_bgapi_completion(event: &Message) -> (r: Result<String, EslError>)
    ensures
        event@.body is None ==> (r matches Err(e) && e is InternalError),
        event@.body matches Some(b) ==> ((json_fields_of(b) is None ==> (r matches Err(e)
            && e is Decode)) && (match json_fields_of(b) {
            None => true,
            Some(f) => match merged_lookup(f, event@.headers, "_body"@) {
                None => (r matches Err(e) && e is InternalError),
                Some(entry) => match entry {
                    None => (r matches Err(e) && e is InternalError),
                    Some(bs) => match spec_parse_api_response(bs) {
                        None => (r matches Err(e) && e is InternalError),
                        Some(p) => if p.0 is Okay {
                            (r matches Ok(t) && t@ == p.1)
                        } else if p.0 is Failure {
                            (r matches Err(e) && e matches EslError::ApiError(t) && t@ == p.1)
                        } else {
                            (r matches Ok(t) && t@ == bs)
                        },
                    },
                },
            },
        })),
{
    let body = match event.body() {
        Some(b) => b.clone(),
        None => {
            return Err(
                EslError::InternalError(String::from_str("completion event carries no body")),
            );
        },
    };
    let fields = parse_json_fields(body.as_str())?;
    let selected = match find_field(&fields, "_body") {
        Some(v) => match v {
            Some(s) => s.clone(),
            None => {
                return Err(
                    EslError::InternalError(String::from_str("the merged _body entry is no text")),
                );
            },
        },
        None => match event.get_header("_body") {
            Some(h) => h.clone(),
            None => {
                return Err(
                    EslError::InternalError(String::from_str("no _body entry after the merge")),
                );
            },
        },
    };
    let parsed = match parse_api_response(selected.as_str()) {
        Ok(p) => p,
        Err(_) => {
            return Err(
                EslError::InternalError(String::from_str("unparseable response line in _body")),
            );
        },
    };
    match parsed.0 {
        ReplyCode::Okay => Ok(parsed.1),
        ReplyCode::Failure => Err(EslError::ApiError(parsed.1)),
        ReplyCode::Unknown => Ok(selected),
    }
}

} // verus!
