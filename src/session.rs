//! Decisions of the connection state machine. The socket, the reader task
//! and the timers live outside the library; they report what happened and
//! carry out what these functions decide.

use vstd::prelude::*;

use crate::command::{reply_success, EslResponse};
use crate::error::{owned, EslError};
use crate::event::{EslEventType, EventFormat};
use crate::headers::lookup;
use crate::protocol::{EslMessage, MessageType};
use crate::text::{chars_of, str_eq};

verus! {

/// Who opened the connection.
#[derive(Debug, Clone, Copy, PartialEq, Eq, Structural)]
pub enum ConnectionMode {
    /// The client connected to the switch.
    Inbound,
    /// The switch connected to the client.
    Outbound,
}

/// Why a connection ended.
#[derive(Debug, Clone, Copy, PartialEq, Eq, Structural)]
pub enum DisconnectReason {
    /// The peer sent a disconnect notice.
    ServerNotice,
    /// The peer closed the socket.
    ConnectionClosed,
    /// The transport failed.
    IoError,
    /// No traffic within the liveness window.
    HeartbeatExpired,
    /// The framing broke.
    ProtocolError,
    /// The client disconnected.
    ClientRequested,
}

/// Where a connection stands.
#[derive(Debug, Clone, Copy, PartialEq, Eq, Structural)]
pub enum ConnectionStatus {
    Connecting,
    Authenticating,
    Connected,
    Disconnected(DisconnectReason),
}

/// What the reader does with a framed message.
#[derive(Debug, Clone, Copy, PartialEq, Eq, Structural)]
pub enum ReaderAction {
    /// Parse it as an event in this format and hand it to the consumer.
    ForwardEvent(EventFormat),
    /// Hand it to the caller awaiting a reply.
    DeliverReply,
    /// End the connection.
    Disconnect(DisconnectReason),
    /// Drop it and read on.
    Ignore,
}

/// Event format that a content type announces.
pub open spec fn format_of(ct: Seq<char>) -> EventFormat {
    if ct == "text/event-json"@ {
        EventFormat::Json
    } else if ct == "text/event-xml"@ {
        EventFormat::Xml
    } else {
        EventFormat::Plain
    }
}

/// Whether a disconnect notice announces that the peer lingers.
pub open spec fn lingers(h: Map<Seq<char>, Seq<char>>) -> bool {
    lookup(h, "Content-Disposition"@) == Some("linger"@)
}

/// What the reader does with a message of kind `t` and headers `h`.
pub open spec fn action_for(t: MessageType, h: Map<Seq<char>, Seq<char>>) -> ReaderAction {
    match t {
        MessageType::Event => ReaderAction::ForwardEvent(format_of(crate::protocol::content_type_of(h))),
        MessageType::CommandReply | MessageType::ApiResponse => ReaderAction::DeliverReply,
        MessageType::Disconnect => if lingers(h) {
            ReaderAction::Ignore
        } else {
            ReaderAction::Disconnect(DisconnectReason::ServerNotice)
        },
        _ => ReaderAction::Ignore,
    }
}

/// What the reader does with a framed message.
pub fn classify_message(message: &EslMessage) -> (r: ReaderAction)
    ensures
        r == action_for(message.message_type, message.headers@),
{
    match &message.message_type {
        MessageType::Event => {
            let format = match message.headers.get("Content-Type") {
                Some(ct) => {
                    if str_eq(ct.as_str(), "text/event-json") {
                        EventFormat::Json
                    } else if str_eq(ct.as_str(), "text/event-xml") {
                        EventFormat::Xml
                    } else {
                        EventFormat::Plain
                    }
                },
                None => {
                    proof {
                        reveal_strlit("unknown");
                        reveal_strlit("text/event-json");
                        reveal_strlit("text/event-xml");
                        assert("unknown"@[0] != "text/event-json"@[0]);
                        assert("unknown"@[0] != "text/event-xml"@[0]);
                    }
                    EventFormat::Plain
                },
            };
            ReaderAction::ForwardEvent(format)
        },
        MessageType::CommandReply | MessageType::ApiResponse => ReaderAction::DeliverReply,
        MessageType::Disconnect => {
            let linger = match message.headers.get("Content-Disposition") {
                Some(d) => str_eq(d.as_str(), "linger"),
                None => false,
            };
            if linger {
                ReaderAction::Ignore
            } else {
                ReaderAction::Disconnect(DisconnectReason::ServerNotice)
            }
        },
        _ => ReaderAction::Ignore,
    }
}

/// Outcome of a socket read of `bytes_read` bytes: zero means the peer closed.
pub fn on_read(bytes_read: usize) -> (r: Option<DisconnectReason>)
    ensures
        r == if bytes_read == 0 { Some(DisconnectReason::ConnectionClosed) } else { None },
{
    if bytes_read == 0 {
        Some(DisconnectReason::ConnectionClosed)
    } else {
        None
    }
}

/// Whether the liveness window has passed: only with a nonzero threshold,
/// and only when more time than it has gone by since the last read.
pub fn liveness_expired(threshold_ms: u64, elapsed_ms: u64) -> (r: bool)
    ensures
        r == (threshold_ms != 0 && elapsed_ms > threshold_ms),
{
    threshold_ms != 0 && elapsed_ms > threshold_ms
}

/// The first message of an inbound connection must be an authentication challenge.
pub fn expect_auth_request(message: &EslMessage) -> (r: Result<(), EslError>)
    ensures
        r is Ok <==> message.message_type is AuthRequest,
        r matches Err(e) ==> e is ProtocolError,
{
    match message.message_type {
        MessageType::AuthRequest => Ok(()),
        _ => Err(EslError::protocol_error("Expected auth request")),
    }
}

/// Reply to the authentication command: success, or an authentication
/// failure carrying the reply text.
pub fn check_auth_reply(response: &EslResponse) -> (r: Result<(), EslError>)
    ensures
        r is Ok <==> response.success_view(),
        r matches Err(EslError::AuthenticationFailed { reason }) ==> reason@ == match lookup(
            response.headers_view(),
            "Reply-Text"@,
        ) {
            Some(v) => v,
            None => "Authentication failed"@,
        },
        r matches Err(e) ==> e is AuthenticationFailed,
{
    if response.is_success() {
        Ok(())
    } else {
        let reason = match response.reply_text() {
            Some(t) => t.clone(),
            None => String::from_str("Authentication failed"),
        };
        Err(EslError::AuthenticationFailed { reason })
    }
}

/// A user name for user authentication must hold a domain: `user@domain`.
pub fn validate_user(user: &str) -> (r: Result<(), EslError>)
    ensures
        r is Ok <==> user@.contains('@'),
        r matches Err(e) ==> e is AuthenticationFailed,
{
    let v = chars_of(user);
    let k = crate::text::find_char(&v, '@', 0, v.len());
    proof {
        assert(v@.subrange(0, v@.len() as int) =~= v@);
        crate::text::lemma_char_pos(v@, '@');
    }
    if k < v.len() {
        Ok(())
    } else {
        Err(EslError::auth_failed("Invalid username format: must be user@domain"))
    }
}

/// Wire names joined by spaces.
pub open spec fn names_text(events: Seq<EslEventType>) -> Seq<char>
    decreases events.len(),
{
    if events.len() == 0 {
        Seq::empty()
    } else if events.len() == 1 {
        events[0].wire_name()
    } else {
        names_text(events.drop_last()) + " "@ + events.last().wire_name()
    }
}

/// Argument of an event subscription: `ALL` when the list holds the
/// catch-all kind, else the wire names separated by spaces.
pub fn events_argument(events: &[EslEventType]) -> (r: String)
    ensures
        r@ == if events@.contains(EslEventType::All) { "ALL"@ } else { names_text(events@) },
{
    let mut i: usize = 0;
    while i < events.len()
        invariant
            i <= events@.len(),
            forall|j: int| 0 <= j < i ==> events@[j] != EslEventType::All,
        decreases events@.len() - i,
    {
        if events[i] == EslEventType::All {
            return String::from_str("ALL");
        }
        i = i + 1;
    }
    let mut r = String::new();
    let mut k: usize = 0;
    while k < events.len()
        invariant
            k <= events@.len(),
            !events@.contains(EslEventType::All),
            r@ == names_text(events@.take(k as int)),
        decreases events@.len() - k,
    {
        if k > 0 {
            r.append(" ");
        }
        r.append(events[k].to_string().as_str());
        proof {
            assert(events@.take(k + 1).drop_last() =~= events@.take(k as int));
            if k == 0 {
                assert(events@.take(0) =~= Seq::<EslEventType>::empty());
            }
        }
        k = k + 1;
    }
    assert(events@.take(k as int) =~= events@);
    r
}

/// Whether events were dropped on a full queue and the consumer has not yet
/// been told: a dropped event owes a queue-full notice, delivered ahead of
/// the next event.
#[derive(Debug)]
pub struct EventBacklog {
    dropped: bool,
}

impl EventBacklog {
    pub closed spec fn owes_notice(&self) -> bool {
        self.dropped
    }

    /// Nothing dropped yet.
    pub fn new() -> (r: Self)
        ensures
            !r.owes_notice(),
    {
        EventBacklog { dropped: false }
    }

    /// Whether a queue-full notice must go out before the next event.
    pub fn notice_owed(&self) -> (r: bool)
        ensures
            r == self.owes_notice(),
    {
        self.dropped
    }

    /// The notice was offered to the queue: it is settled once delivered.
    pub fn notice_sent(&mut self, delivered: bool)
        ensures
            final(self).owes_notice() == (old(self).owes_notice() && !delivered),
    {
        if delivered {
            self.dropped = false;
        }
    }

    /// An event was offered to the queue: one that did not fit owes a notice.
    pub fn event_sent(&mut self, delivered: bool)
        ensures
            final(self).owes_notice() == (old(self).owes_notice() || !delivered),
    {
        if !delivered {
            self.dropped = true;
        }
    }
}

/// Status and reply slot of one connection.
#[derive(Debug)]
pub struct SessionState {
    status: ConnectionStatus,
    awaiting_reply: bool,
}

impl SessionState {
    pub closed spec fn status_view(&self) -> ConnectionStatus {
        self.status
    }

    pub closed spec fn awaiting_view(&self) -> bool {
        self.awaiting_reply
    }

    /// A session of the given mode: inbound ones authenticate first,
    /// outbound ones are trusted once accepted.
    pub fn new(mode: ConnectionMode) -> (r: Self)
        ensures
            r.status_view() == match mode {
                ConnectionMode::Inbound => ConnectionStatus::Authenticating,
                ConnectionMode::Outbound => ConnectionStatus::Connected,
            },
            !r.awaiting_view(),
    {
        let status = match mode {
            ConnectionMode::Inbound => ConnectionStatus::Authenticating,
            ConnectionMode::Outbound => ConnectionStatus::Connected,
        };
        SessionState { status, awaiting_reply: false }
    }

    /// The status.
    pub fn status(&self) -> (r: ConnectionStatus)
        ensures
            r == self.status_view(),
    {
        self.status
    }

    /// Whether commands may be sent.
    pub fn is_connected(&self) -> (r: bool)
        ensures
            r == (self.status_view() == ConnectionStatus::Connected),
    {
        match self.status {
            ConnectionStatus::Connected => true,
            _ => false,
        }
    }

    /// The handshake succeeded.
    pub fn authenticated(&mut self)
        ensures
            old(self).status_view() == ConnectionStatus::Authenticating ==> final(self).status_view()
                == ConnectionStatus::Connected,
            old(self).status_view() != ConnectionStatus::Authenticating ==> final(self).status_view()
                == old(self).status_view(),
            final(self).awaiting_view() == old(self).awaiting_view(),
    {
        match self.status {
            ConnectionStatus::Authenticating => {
                self.status = ConnectionStatus::Connected;
            },
            _ => {},
        }
    }

    /// A command is about to be written: refused unless connected; the
    /// reply slot is taken.
    pub fn begin_command(&mut self) -> (r: Result<(), EslError>)
        ensures
            r is Ok <==> old(self).status_view() == ConnectionStatus::Connected,
            r matches Err(e) ==> e is NotConnected,
            r is Ok ==> final(self).awaiting_view(),
            r is Err ==> final(self).awaiting_view() == old(self).awaiting_view(),
            final(self).status_view() == old(self).status_view(),
    {
        if !self.is_connected() {
            return Err(EslError::NotConnected);
        }
        self.awaiting_reply = true;
        Ok(())
    }

    /// A reply arrived: `true` when a caller was waiting for it (the slot is
    /// freed), `false` when none was, and the reply is dropped.
    pub fn reply_arrived(&mut self) -> (r: bool)
        ensures
            r == old(self).awaiting_view(),
            !final(self).awaiting_view(),
            final(self).status_view() == old(self).status_view(),
    {
        let was = self.awaiting_reply;
        self.awaiting_reply = false;
        was
    }

    /// The wait for a reply timed out: the slot is freed and the caller gets
    /// a timeout error; the connection stays usable.
    pub fn command_timed_out(&mut self, timeout_ms: u64) -> (r: EslError)
        ensures
            r == (EslError::Timeout { timeout_ms }),
            !final(self).awaiting_view(),
            final(self).status_view() == old(self).status_view(),
    {
        self.awaiting_reply = false;
        EslError::Timeout { timeout_ms }
    }

    /// The connection ended for `reason`; the first reason stays, as the
    /// disconnected state is final.
    pub fn disconnected(&mut self, reason: DisconnectReason)
        ensures
            old(self).status_view() is Disconnected ==> final(self).status_view() == old(self).status_view(),
            !(old(self).status_view() is Disconnected) ==> final(self).status_view()
                == ConnectionStatus::Disconnected(reason),
            !final(self).awaiting_view(),
    {
        match self.status {
            ConnectionStatus::Disconnected(_) => {},
            _ => {
                self.status = ConnectionStatus::Disconnected(reason);
            },
        }
        self.awaiting_reply = false;
    }

    /// Reader step for a framed message: decides the action and, for a
    /// disconnect notice, ends the connection.
    pub fn on_message(&mut self, message: &EslMessage) -> (r: ReaderAction)
        ensures
            r == action_for(message.message_type, message.headers@),
            r matches ReaderAction::Disconnect(reason) ==> (!(old(self).status_view() is Disconnected)
                ==> final(self).status_view() == ConnectionStatus::Disconnected(reason)),
            !(r is Disconnect) ==> final(self).status_view() == old(self).status_view(),
    {
        let action = classify_message(message);
        match action {
            ReaderAction::Disconnect(reason) => self.disconnected(reason),
            _ => {},
        }
        action
    }
}

} // verus!
