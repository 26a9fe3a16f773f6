//! Event kinds, priorities and the event value itself.

use vstd::prelude::*;

use vstd::string::StringSliceAdditionalSpecFns;
use vstd::utf8::*;

use crate::error::owned;
use crate::headers::{lookup, HeaderMap};
use crate::numbers::{decimal, decimal_string};
use crate::pct::{encode_value, encoded};
use crate::text::str_eq;
use crate::variables::{array_items, array_text, EslArray};

verus! {

/// Wire format of subscribed events.
#[derive(Debug, Clone, Copy, PartialEq, Eq, Structural)]
pub enum EventFormat {
    /// Plain text (default).
    Plain,
    /// JSON.
    Json,
    /// XML.
    Xml,
}

impl EventFormat {
    /// The token that selects this format on the wire.
    pub open spec fn token(self) -> Seq<char> {
        match self {
            EventFormat::Plain => "plain"@,
            EventFormat::Json => "json"@,
            EventFormat::Xml => "xml"@,
        }
    }

    /// The token that selects this format on the wire.
    pub fn to_string(&self) -> (r: String)
        ensures
            r@ == self.token(),
    {
        match self {
            EventFormat::Plain => String::from_str("plain"),
            EventFormat::Json => String::from_str("json"),
            EventFormat::Xml => String::from_str("xml"),
        }
    }
}

/// Switch event kinds, in the switch's canonical order.
#[derive(Debug, Clone, Copy, PartialEq, Eq, Hash, Structural)]
pub enum EslEventType {
    Custom,
    Clone,
    ChannelCreate,
    ChannelDestroy,
    ChannelState,
    ChannelCallstate,
    ChannelAnswer,
    ChannelHangup,
    ChannelHangupComplete,
    ChannelExecute,
    ChannelExecuteComplete,
    ChannelHold,
    ChannelUnhold,
    ChannelBridge,
    ChannelUnbridge,
    ChannelProgress,
    ChannelProgressMedia,
    ChannelOutgoing,
    ChannelPark,
    ChannelUnpark,
    ChannelApplication,
    ChannelOriginate,
    ChannelUuid,
    Api,
    Log,
    InboundChan,
    OutboundChan,
    Startup,
    Shutdown,
    Publish,
    Unpublish,
    Talk,
    Notalk,
    SessionCrash,
    ModuleLoad,
    ModuleUnload,
    Dtmf,
    Message,
    PresenceIn,
    NotifyIn,
    PresenceOut,
    PresenceProbe,
    MessageWaiting,
    MessageQuery,
    Roster,
    Codec,
    BackgroundJob,
    DetectedSpeech,
    DetectedTone,
    PrivateCommand,
    Heartbeat,
    Trap,
    AddSchedule,
    DelSchedule,
    ExeSchedule,
    ReSchedule,
    ReloadXml,
    Notify,
    PhoneFeature,
    PhoneFeatureSubscribe,
    SendMessage,
    RecvMessage,
    RequestParams,
    ChannelData,
    General,
    Command,
    SessionHeartbeat,
    ClientDisconnected,
    ServerDisconnected,
    SendInfo,
    RecvInfo,
    RecvRtcpMessage,
    SendRtcpMessage,
    CallSecure,
    Nat,
    RecordStart,
    RecordStop,
    PlaybackStart,
    PlaybackStop,
    CallUpdate,
    Failure,
    SocketData,
    MediaBugStart,
    MediaBugStop,
    ConferenceDataQuery,
    ConferenceData,
    CallSetupReq,
    CallSetupResult,
    CallDetail,
    DeviceState,
    Text,
    ShutdownRequested,
    All,
    StartRecording,
}

/// The event kind whose wire name is exactly `s`.
pub open spec fn event_type_named(s: Seq<char>) -> Option<EslEventType> {
    if s == "CUSTOM"@ {
        Some(EslEventType::Custom)
    } else if s == "CLONE"@ {
        Some(EslEventType::Clone)
    } else if s == "CHANNEL_CREATE"@ {
        Some(EslEventType::ChannelCreate)
    } else if s == "CHANNEL_DESTROY"@ {
        Some(EslEventType::ChannelDestroy)
    } else if s == "CHANNEL_STATE"@ {
        Some(EslEventType::ChannelState)
    } else if s == "CHANNEL_CALLSTATE"@ {
        Some(EslEventType::ChannelCallstate)
    } else if s == "CHANNEL_ANSWER"@ {
        Some(EslEventType::ChannelAnswer)
    } else if s == "CHANNEL_HANGUP"@ {
        Some(EslEventType::ChannelHangup)
    } else if s == "CHANNEL_HANGUP_COMPLETE"@ {
        Some(EslEventType::ChannelHangupComplete)
    } else if s == "CHANNEL_EXECUTE"@ {
        Some(EslEventType::ChannelExecute)
    } else if s == "CHANNEL_EXECUTE_COMPLETE"@ {
        Some(EslEventType::ChannelExecuteComplete)
    } else if s == "CHANNEL_HOLD"@ {
        Some(EslEventType::ChannelHold)
    } else if s == "CHANNEL_UNHOLD"@ {
        Some(EslEventType::ChannelUnhold)
    } else if s == "CHANNEL_BRIDGE"@ {
        Some(EslEventType::ChannelBridge)
    } else if s == "CHANNEL_UNBRIDGE"@ {
        Some(EslEventType::ChannelUnbridge)
    } else if s == "CHANNEL_PROGRESS"@ {
        Some(EslEventType::ChannelProgress)
    } else if s == "CHANNEL_PROGRESS_MEDIA"@ {
        Some(EslEventType::ChannelProgressMedia)
    } else if s == "CHANNEL_OUTGOING"@ {
        Some(EslEventType::ChannelOutgoing)
    } else if s == "CHANNEL_PARK"@ {
        Some(EslEventType::ChannelPark)
    } else if s == "CHANNEL_UNPARK"@ {
        Some(EslEventType::ChannelUnpark)
    } else if s == "CHANNEL_APPLICATION"@ {
        Some(EslEventType::ChannelApplication)
    } else if s == "CHANNEL_ORIGINATE"@ {
        Some(EslEventType::ChannelOriginate)
    } else if s == "CHANNEL_UUID"@ {
        Some(EslEventType::ChannelUuid)
    } else if s == "API"@ {
        Some(EslEventType::Api)
    } else if s == "LOG"@ {
        Some(EslEventType::Log)
    } else if s == "INBOUND_CHAN"@ {
        Some(EslEventType::InboundChan)
    } else if s == "OUTBOUND_CHAN"@ {
        Some(EslEventType::OutboundChan)
    } else if s == "STARTUP"@ {
        Some(EslEventType::Startup)
    } else if s == "SHUTDOWN"@ {
        Some(EslEventType::Shutdown)
    } else if s == "PUBLISH"@ {
        Some(EslEventType::Publish)
    } else if s == "UNPUBLISH"@ {
        Some(EslEventType::Unpublish)
    } else if s == "TALK"@ {
        Some(EslEventType::Talk)
    } else if s == "NOTALK"@ {
        Some(EslEventType::Notalk)
    } else if s == "SESSION_CRASH"@ {
        Some(EslEventType::SessionCrash)
    } else if s == "MODULE_LOAD"@ {
        Some(EslEventType::ModuleLoad)
    } else if s == "MODULE_UNLOAD"@ {
        Some(EslEventType::ModuleUnload)
    } else if s == "DTMF"@ {
        Some(EslEventType::Dtmf)
    } else if s == "MESSAGE"@ {
        Some(EslEventType::Message)
    } else if s == "PRESENCE_IN"@ {
        Some(EslEventType::PresenceIn)
    } else if s == "NOTIFY_IN"@ {
        Some(EslEventType::NotifyIn)
    } else if s == "PRESENCE_OUT"@ {
        Some(EslEventType::PresenceOut)
    } else if s == "PRESENCE_PROBE"@ {
        Some(EslEventType::PresenceProbe)
    } else if s == "MESSAGE_WAITING"@ {
        Some(EslEventType::MessageWaiting)
    } else if s == "MESSAGE_QUERY"@ {
        Some(EslEventType::MessageQuery)
    } else if s == "ROSTER"@ {
        Some(EslEventType::Roster)
    } else if s == "CODEC"@ {
        Some(EslEventType::Codec)
    } else if s == "BACKGROUND_JOB"@ {
        Some(EslEventType::BackgroundJob)
    } else if s == "DETECTED_SPEECH"@ {
        Some(EslEventType::DetectedSpeech)
    } else if s == "DETECTED_TONE"@ {
        Some(EslEventType::DetectedTone)
    } else if s == "PRIVATE_COMMAND"@ {
        Some(EslEventType::PrivateCommand)
    } else if s == "HEARTBEAT"@ {
        Some(EslEventType::Heartbeat)
    } else if s == "TRAP"@ {
        Some(EslEventType::Trap)
    } else if s == "ADD_SCHEDULE"@ {
        Some(EslEventType::AddSchedule)
    } else if s == "DEL_SCHEDULE"@ {
        Some(EslEventType::DelSchedule)
    } else if s == "EXE_SCHEDULE"@ {
        Some(EslEventType::ExeSchedule)
    } else if s == "RE_SCHEDULE"@ {
        Some(EslEventType::ReSchedule)
    } else if s == "RELOADXML"@ {
        Some(EslEventType::ReloadXml)
    } else if s == "NOTIFY"@ {
        Some(EslEventType::Notify)
    } else if s == "PHONE_FEATURE"@ {
        Some(EslEventType::PhoneFeature)
    } else if s == "PHONE_FEATURE_SUBSCRIBE"@ {
        Some(EslEventType::PhoneFeatureSubscribe)
    } else if s == "SEND_MESSAGE"@ {
        Some(EslEventType::SendMessage)
    } else if s == "RECV_MESSAGE"@ {
        Some(EslEventType::RecvMessage)
    } else if s == "REQUEST_PARAMS"@ {
        Some(EslEventType::RequestParams)
    } else if s == "CHANNEL_DATA"@ {
        Some(EslEventType::ChannelData)
    } else if s == "GENERAL"@ {
        Some(EslEventType::General)
    } else if s == "COMMAND"@ {
        Some(EslEventType::Command)
    } else if s == "SESSION_HEARTBEAT"@ {
        Some(EslEventType::SessionHeartbeat)
    } else if s == "CLIENT_DISCONNECTED"@ {
        Some(EslEventType::ClientDisconnected)
    } else if s == "SERVER_DISCONNECTED"@ {
        Some(EslEventType::ServerDisconnected)
    } else if s == "SEND_INFO"@ {
        Some(EslEventType::SendInfo)
    } else if s == "RECV_INFO"@ {
        Some(EslEventType::RecvInfo)
    } else if s == "RECV_RTCP_MESSAGE"@ {
        Some(EslEventType::RecvRtcpMessage)
    } else if s == "SEND_RTCP_MESSAGE"@ {
        Some(EslEventType::SendRtcpMessage)
    } else if s == "CALL_SECURE"@ {
        Some(EslEventType::CallSecure)
    } else if s == "NAT"@ {
        Some(EslEventType::Nat)
    } else if s == "RECORD_START"@ {
        Some(EslEventType::RecordStart)
    } else if s == "RECORD_STOP"@ {
        Some(EslEventType::RecordStop)
    } else if s == "PLAYBACK_START"@ {
        Some(EslEventType::PlaybackStart)
    } else if s == "PLAYBACK_STOP"@ {
        Some(EslEventType::PlaybackStop)
    } else if s == "CALL_UPDATE"@ {
        Some(EslEventType::CallUpdate)
    } else if s == "FAILURE"@ {
        Some(EslEventType::Failure)
    } else if s == "SOCKET_DATA"@ {
        Some(EslEventType::SocketData)
    } else if s == "MEDIA_BUG_START"@ {
        Some(EslEventType::MediaBugStart)
    } else if s == "MEDIA_BUG_STOP"@ {
        Some(EslEventType::MediaBugStop)
    } else if s == "CONFERENCE_DATA_QUERY"@ {
        Some(EslEventType::ConferenceDataQuery)
    } else if s == "CONFERENCE_DATA"@ {
        Some(EslEventType::ConferenceData)
    } else if s == "CALL_SETUP_REQ"@ {
        Some(EslEventType::CallSetupReq)
    } else if s == "CALL_SETUP_RESULT"@ {
        Some(EslEventType::CallSetupResult)
    } else if s == "CALL_DETAIL"@ {
        Some(EslEventType::CallDetail)
    } else if s == "DEVICE_STATE"@ {
        Some(EslEventType::DeviceState)
    } else if s == "TEXT"@ {
        Some(EslEventType::Text)
    } else if s == "SHUTDOWN_REQUESTED"@ {
        Some(EslEventType::ShutdownRequested)
    } else if s == "ALL"@ {
        Some(EslEventType::All)
    } else if s == "START_RECORDING"@ {
        Some(EslEventType::StartRecording)
    } else {
        None
    }
}

/// Case folding of `str::to_uppercase`, a function of the characters alone.
pub uninterp spec fn upper_of(s: Seq<char>) -> Seq<char>;

/// Relies on `str::to_uppercase`: the upper-case form depends on the characters alone.
#[verifier::external_body]
pub(crate) fn uppercase(s: &str) -> (r: String)
    ensures
        r@ == upper_of(s@),
{
    s.to_uppercase()
}

impl EslEventType {
    /// The name of this kind on the wire.
    pub open spec fn wire_name(self) -> Seq<char> {
        match self {
            EslEventType::Custom => "CUSTOM"@,
            EslEventType::Clone => "CLONE"@,
            EslEventType::ChannelCreate => "CHANNEL_CREATE"@,
            EslEventType::ChannelDestroy => "CHANNEL_DESTROY"@,
            EslEventType::ChannelState => "CHANNEL_STATE"@,
            EslEventType::ChannelCallstate => "CHANNEL_CALLSTATE"@,
            EslEventType::ChannelAnswer => "CHANNEL_ANSWER"@,
            EslEventType::ChannelHangup => "CHANNEL_HANGUP"@,
            EslEventType::ChannelHangupComplete => "CHANNEL_HANGUP_COMPLETE"@,
            EslEventType::ChannelExecute => "CHANNEL_EXECUTE"@,
            EslEventType::ChannelExecuteComplete => "CHANNEL_EXECUTE_COMPLETE"@,
            EslEventType::ChannelHold => "CHANNEL_HOLD"@,
            EslEventType::ChannelUnhold => "CHANNEL_UNHOLD"@,
            EslEventType::ChannelBridge => "CHANNEL_BRIDGE"@,
            EslEventType::ChannelUnbridge => "CHANNEL_UNBRIDGE"@,
            EslEventType::ChannelProgress => "CHANNEL_PROGRESS"@,
            EslEventType::ChannelProgressMedia => "CHANNEL_PROGRESS_MEDIA"@,
            EslEventType::ChannelOutgoing => "CHANNEL_OUTGOING"@,
            EslEventType::ChannelPark => "CHANNEL_PARK"@,
            EslEventType::ChannelUnpark => "CHANNEL_UNPARK"@,
            EslEventType::ChannelApplication => "CHANNEL_APPLICATION"@,
            EslEventType::ChannelOriginate => "CHANNEL_ORIGINATE"@,
            EslEventType::ChannelUuid => "CHANNEL_UUID"@,
            EslEventType::Api => "API"@,
            EslEventType::Log => "LOG"@,
            EslEventType::InboundChan => "INBOUND_CHAN"@,
            EslEventType::OutboundChan => "OUTBOUND_CHAN"@,
            EslEventType::Startup => "STARTUP"@,
            EslEventType::Shutdown => "SHUTDOWN"@,
            EslEventType::Publish => "PUBLISH"@,
            EslEventType::Unpublish => "UNPUBLISH"@,
            EslEventType::Talk => "TALK"@,
            EslEventType::Notalk => "NOTALK"@,
            EslEventType::SessionCrash => "SESSION_CRASH"@,
            EslEventType::ModuleLoad => "MODULE_LOAD"@,
            EslEventType::ModuleUnload => "MODULE_UNLOAD"@,
            EslEventType::Dtmf => "DTMF"@,
            EslEventType::Message => "MESSAGE"@,
            EslEventType::PresenceIn => "PRESENCE_IN"@,
            EslEventType::NotifyIn => "NOTIFY_IN"@,
            EslEventType::PresenceOut => "PRESENCE_OUT"@,
            EslEventType::PresenceProbe => "PRESENCE_PROBE"@,
            EslEventType::MessageWaiting => "MESSAGE_WAITING"@,
            EslEventType::MessageQuery => "MESSAGE_QUERY"@,
            EslEventType::Roster => "ROSTER"@,
            EslEventType::Codec => "CODEC"@,
            EslEventType::BackgroundJob => "BACKGROUND_JOB"@,
            EslEventType::DetectedSpeech => "DETECTED_SPEECH"@,
            EslEventType::DetectedTone => "DETECTED_TONE"@,
            EslEventType::PrivateCommand => "PRIVATE_COMMAND"@,
            EslEventType::Heartbeat => "HEARTBEAT"@,
            EslEventType::Trap => "TRAP"@,
            EslEventType::AddSchedule => "ADD_SCHEDULE"@,
            EslEventType::DelSchedule => "DEL_SCHEDULE"@,
            EslEventType::ExeSchedule => "EXE_SCHEDULE"@,
            EslEventType::ReSchedule => "RE_SCHEDULE"@,
            EslEventType::ReloadXml => "RELOADXML"@,
            EslEventType::Notify => "NOTIFY"@,
            EslEventType::PhoneFeature => "PHONE_FEATURE"@,
            EslEventType::PhoneFeatureSubscribe => "PHONE_FEATURE_SUBSCRIBE"@,
            EslEventType::SendMessage => "SEND_MESSAGE"@,
            EslEventType::RecvMessage => "RECV_MESSAGE"@,
            EslEventType::RequestParams => "REQUEST_PARAMS"@,
            EslEventType::ChannelData => "CHANNEL_DATA"@,
            EslEventType::General => "GENERAL"@,
            EslEventType::Command => "COMMAND"@,
            EslEventType::SessionHeartbeat => "SESSION_HEARTBEAT"@,
            EslEventType::ClientDisconnected => "CLIENT_DISCONNECTED"@,
            EslEventType::ServerDisconnected => "SERVER_DISCONNECTED"@,
            EslEventType::SendInfo => "SEND_INFO"@,
            EslEventType::RecvInfo => "RECV_INFO"@,
            EslEventType::RecvRtcpMessage => "RECV_RTCP_MESSAGE"@,
            EslEventType::SendRtcpMessage => "SEND_RTCP_MESSAGE"@,
            EslEventType::CallSecure => "CALL_SECURE"@,
            EslEventType::Nat => "NAT"@,
            EslEventType::RecordStart => "RECORD_START"@,
            EslEventType::RecordStop => "RECORD_STOP"@,
            EslEventType::PlaybackStart => "PLAYBACK_START"@,
            EslEventType::PlaybackStop => "PLAYBACK_STOP"@,
            EslEventType::CallUpdate => "CALL_UPDATE"@,
            EslEventType::Failure => "FAILURE"@,
            EslEventType::SocketData => "SOCKET_DATA"@,
            EslEventType::MediaBugStart => "MEDIA_BUG_START"@,
            EslEventType::MediaBugStop => "MEDIA_BUG_STOP"@,
            EslEventType::ConferenceDataQuery => "CONFERENCE_DATA_QUERY"@,
            EslEventType::ConferenceData => "CONFERENCE_DATA"@,
            EslEventType::CallSetupReq => "CALL_SETUP_REQ"@,
            EslEventType::CallSetupResult => "CALL_SETUP_RESULT"@,
            EslEventType::CallDetail => "CALL_DETAIL"@,
            EslEventType::DeviceState => "DEVICE_STATE"@,
            EslEventType::Text => "TEXT"@,
            EslEventType::ShutdownRequested => "SHUTDOWN_REQUESTED"@,
            EslEventType::All => "ALL"@,
            EslEventType::StartRecording => "START_RECORDING"@,
        }
    }

    /// The name of this kind on the wire.
    pub fn to_string(&self) -> (r: String)
        ensures
            r@ == self.wire_name(),
    {
        match self {
            EslEventType::Custom => String::from_str("CUSTOM"),
            EslEventType::Clone => String::from_str("CLONE"),
            EslEventType::ChannelCreate => String::from_str("CHANNEL_CREATE"),
            EslEventType::ChannelDestroy => String::from_str("CHANNEL_DESTROY"),
            EslEventType::ChannelState => String::from_str("CHANNEL_STATE"),
            EslEventType::ChannelCallstate => String::from_str("CHANNEL_CALLSTATE"),
            EslEventType::ChannelAnswer => String::from_str("CHANNEL_ANSWER"),
            EslEventType::ChannelHangup => String::from_str("CHANNEL_HANGUP"),
            EslEventType::ChannelHangupComplete => String::from_str("CHANNEL_HANGUP_COMPLETE"),
            EslEventType::ChannelExecute => String::from_str("CHANNEL_EXECUTE"),
            EslEventType::ChannelExecuteComplete => String::from_str("CHANNEL_EXECUTE_COMPLETE"),
            EslEventType::ChannelHold => String::from_str("CHANNEL_HOLD"),
            EslEventType::ChannelUnhold => String::from_str("CHANNEL_UNHOLD"),
            EslEventType::ChannelBridge => String::from_str("CHANNEL_BRIDGE"),
            EslEventType::ChannelUnbridge => String::from_str("CHANNEL_UNBRIDGE"),
            EslEventType::ChannelProgress => String::from_str("CHANNEL_PROGRESS"),
            EslEventType::ChannelProgressMedia => String::from_str("CHANNEL_PROGRESS_MEDIA"),
            EslEventType::ChannelOutgoing => String::from_str("CHANNEL_OUTGOING"),
            EslEventType::ChannelPark => String::from_str("CHANNEL_PARK"),
            EslEventType::ChannelUnpark => String::from_str("CHANNEL_UNPARK"),
            EslEventType::ChannelApplication => String::from_str("CHANNEL_APPLICATION"),
            EslEventType::ChannelOriginate => String::from_str("CHANNEL_ORIGINATE"),
            EslEventType::ChannelUuid => String::from_str("CHANNEL_UUID"),
            EslEventType::Api => String::from_str("API"),
            EslEventType::Log => String::from_str("LOG"),
            EslEventType::InboundChan => String::from_str("INBOUND_CHAN"),
            EslEventType::OutboundChan => String::from_str("OUTBOUND_CHAN"),
            EslEventType::Startup => String::from_str("STARTUP"),
            EslEventType::Shutdown => String::from_str("SHUTDOWN"),
            EslEventType::Publish => String::from_str("PUBLISH"),
            EslEventType::Unpublish => String::from_str("UNPUBLISH"),
            EslEventType::Talk => String::from_str("TALK"),
            EslEventType::Notalk => String::from_str("NOTALK"),
            EslEventType::SessionCrash => String::from_str("SESSION_CRASH"),
            EslEventType::ModuleLoad => String::from_str("MODULE_LOAD"),
            EslEventType::ModuleUnload => String::from_str("MODULE_UNLOAD"),
            EslEventType::Dtmf => String::from_str("DTMF"),
            EslEventType::Message => String::from_str("MESSAGE"),
            EslEventType::PresenceIn => String::from_str("PRESENCE_IN"),
            EslEventType::NotifyIn => String::from_str("NOTIFY_IN"),
            EslEventType::PresenceOut => String::from_str("PRESENCE_OUT"),
            EslEventType::PresenceProbe => String::from_str("PRESENCE_PROBE"),
            EslEventType::MessageWaiting => String::from_str("MESSAGE_WAITING"),
            EslEventType::MessageQuery => String::from_str("MESSAGE_QUERY"),
            EslEventType::Roster => String::from_str("ROSTER"),
            EslEventType::Codec => String::from_str("CODEC"),
            EslEventType::BackgroundJob => String::from_str("BACKGROUND_JOB"),
            EslEventType::DetectedSpeech => String::from_str("DETECTED_SPEECH"),
            EslEventType::DetectedTone => String::from_str("DETECTED_TONE"),
            EslEventType::PrivateCommand => String::from_str("PRIVATE_COMMAND"),
            EslEventType::Heartbeat => String::from_str("HEARTBEAT"),
            EslEventType::Trap => String::from_str("TRAP"),
            EslEventType::AddSchedule => String::from_str("ADD_SCHEDULE"),
            EslEventType::DelSchedule => String::from_str("DEL_SCHEDULE"),
            EslEventType::ExeSchedule => String::from_str("EXE_SCHEDULE"),
            EslEventType::ReSchedule => String::from_str("RE_SCHEDULE"),
            EslEventType::ReloadXml => String::from_str("RELOADXML"),
            EslEventType::Notify => String::from_str("NOTIFY"),
            EslEventType::PhoneFeature => String::from_str("PHONE_FEATURE"),
            EslEventType::PhoneFeatureSubscribe => String::from_str("PHONE_FEATURE_SUBSCRIBE"),
            EslEventType::SendMessage => String::from_str("SEND_MESSAGE"),
            EslEventType::RecvMessage => String::from_str("RECV_MESSAGE"),
            EslEventType::RequestParams => String::from_str("REQUEST_PARAMS"),
            EslEventType::ChannelData => String::from_str("CHANNEL_DATA"),
            EslEventType::General => String::from_str("GENERAL"),
            EslEventType::Command => String::from_str("COMMAND"),
            EslEventType::SessionHeartbeat => String::from_str("SESSION_HEARTBEAT"),
            EslEventType::ClientDisconnected => String::from_str("CLIENT_DISCONNECTED"),
            EslEventType::ServerDisconnected => String::from_str("SERVER_DISCONNECTED"),
            EslEventType::SendInfo => String::from_str("SEND_INFO"),
            EslEventType::RecvInfo => String::from_str("RECV_INFO"),
            EslEventType::RecvRtcpMessage => String::from_str("RECV_RTCP_MESSAGE"),
            EslEventType::SendRtcpMessage => String::from_str("SEND_RTCP_MESSAGE"),
            EslEventType::CallSecure => String::from_str("CALL_SECURE"),
            EslEventType::Nat => String::from_str("NAT"),
            EslEventType::RecordStart => String::from_str("RECORD_START"),
            EslEventType::RecordStop => String::from_str("RECORD_STOP"),
            EslEventType::PlaybackStart => String::from_str("PLAYBACK_START"),
            EslEventType::PlaybackStop => String::from_str("PLAYBACK_STOP"),
            EslEventType::CallUpdate => String::from_str("CALL_UPDATE"),
            EslEventType::Failure => String::from_str("FAILURE"),
            EslEventType::SocketData => String::from_str("SOCKET_DATA"),
            EslEventType::MediaBugStart => String::from_str("MEDIA_BUG_START"),
            EslEventType::MediaBugStop => String::from_str("MEDIA_BUG_STOP"),
            EslEventType::ConferenceDataQuery => String::from_str("CONFERENCE_DATA_QUERY"),
            EslEventType::ConferenceData => String::from_str("CONFERENCE_DATA"),
            EslEventType::CallSetupReq => String::from_str("CALL_SETUP_REQ"),
            EslEventType::CallSetupResult => String::from_str("CALL_SETUP_RESULT"),
            EslEventType::CallDetail => String::from_str("CALL_DETAIL"),
            EslEventType::DeviceState => String::from_str("DEVICE_STATE"),
            EslEventType::Text => String::from_str("TEXT"),
            EslEventType::ShutdownRequested => String::from_str("SHUTDOWN_REQUESTED"),
            EslEventType::All => String::from_str("ALL"),
            EslEventType::StartRecording => String::from_str("START_RECORDING"),
        }
    }

    /// The kind whose wire name is exactly `name` (no case folding).
    #[verifier::rlimit(40)]
    pub fn from_wire_name(name: &str) -> (r: Option<Self>)
        ensures
            r == event_type_named(name@),
    {
        if str_eq(name, "CUSTOM") {
            Some(EslEventType::Custom)
        } else if str_eq(name, "CLONE") {
            Some(EslEventType::Clone)
        } else if str_eq(name, "CHANNEL_CREATE") {
            Some(EslEventType::ChannelCreate)
        } else if str_eq(name, "CHANNEL_DESTROY") {
            Some(EslEventType::ChannelDestroy)
        } else if str_eq(name, "CHANNEL_STATE") {
            Some(EslEventType::ChannelState)
        } else if str_eq(name, "CHANNEL_CALLSTATE") {
            Some(EslEventType::ChannelCallstate)
        } else if str_eq(name, "CHANNEL_ANSWER") {
            Some(EslEventType::ChannelAnswer)
        } else if str_eq(name, "CHANNEL_HANGUP") {
            Some(EslEventType::ChannelHangup)
        } else if str_eq(name, "CHANNEL_HANGUP_COMPLETE") {
            Some(EslEventType::ChannelHangupComplete)
        } else if str_eq(name, "CHANNEL_EXECUTE") {
            Some(EslEventType::ChannelExecute)
        } else if str_eq(name, "CHANNEL_EXECUTE_COMPLETE") {
            Some(EslEventType::ChannelExecuteComplete)
        } else if str_eq(name, "CHANNEL_HOLD") {
            Some(EslEventType::ChannelHold)
        } else if str_eq(name, "CHANNEL_UNHOLD") {
            Some(EslEventType::ChannelUnhold)
        } else if str_eq(name, "CHANNEL_BRIDGE") {
            Some(EslEventType::ChannelBridge)
        } else if str_eq(name, "CHANNEL_UNBRIDGE") {
            Some(EslEventType::ChannelUnbridge)
        } else if str_eq(name, "CHANNEL_PROGRESS") {
            Some(EslEventType::ChannelProgress)
        } else if str_eq(name, "CHANNEL_PROGRESS_MEDIA") {
            Some(EslEventType::ChannelProgressMedia)
        } else if str_eq(name, "CHANNEL_OUTGOING") {
            Some(EslEventType::ChannelOutgoing)
        } else if str_eq(name, "CHANNEL_PARK") {
            Some(EslEventType::ChannelPark)
        } else if str_eq(name, "CHANNEL_UNPARK") {
            Some(EslEventType::ChannelUnpark)
        } else if str_eq(name, "CHANNEL_APPLICATION") {
            Some(EslEventType::ChannelApplication)
        } else if str_eq(name, "CHANNEL_ORIGINATE") {
            Some(EslEventType::ChannelOriginate)
        } else if str_eq(name, "CHANNEL_UUID") {
            Some(EslEventType::ChannelUuid)
        } else if str_eq(name, "API") {
            Some(EslEventType::Api)
        } else if str_eq(name, "LOG") {
            Some(EslEventType::Log)
        } else if str_eq(name, "INBOUND_CHAN") {
            Some(EslEventType::InboundChan)
        } else if str_eq(name, "OUTBOUND_CHAN") {
            Some(EslEventType::OutboundChan)
        } else if str_eq(name, "STARTUP") {
            Some(EslEventType::Startup)
        } else if str_eq(name, "SHUTDOWN") {
            Some(EslEventType::Shutdown)
        } else if str_eq(name, "PUBLISH") {
            Some(EslEventType::Publish)
        } else if str_eq(name, "UNPUBLISH") {
            Some(EslEventType::Unpublish)
        } else if str_eq(name, "TALK") {
            Some(EslEventType::Talk)
        } else if str_eq(name, "NOTALK") {
            Some(EslEventType::Notalk)
        } else if str_eq(name, "SESSION_CRASH") {
            Some(EslEventType::SessionCrash)
        } else if str_eq(name, "MODULE_LOAD") {
            Some(EslEventType::ModuleLoad)
        } else if str_eq(name, "MODULE_UNLOAD") {
            Some(EslEventType::ModuleUnload)
        } else if str_eq(name, "DTMF") {
            Some(EslEventType::Dtmf)
        } else if str_eq(name, "MESSAGE") {
            Some(EslEventType::Message)
        } else if str_eq(name, "PRESENCE_IN") {
            Some(EslEventType::PresenceIn)
        } else if str_eq(name, "NOTIFY_IN") {
            Some(EslEventType::NotifyIn)
        } else if str_eq(name, "PRESENCE_OUT") {
            Some(EslEventType::PresenceOut)
        } else if str_eq(name, "PRESENCE_PROBE") {
            Some(EslEventType::PresenceProbe)
        } else if str_eq(name, "MESSAGE_WAITING") {
            Some(EslEventType::MessageWaiting)
        } else if str_eq(name, "MESSAGE_QUERY") {
            Some(EslEventType::MessageQuery)
        } else if str_eq(name, "ROSTER") {
            Some(EslEventType::Roster)
        } else if str_eq(name, "CODEC") {
            Some(EslEventType::Codec)
        } else if str_eq(name, "BACKGROUND_JOB") {
            Some(EslEventType::BackgroundJob)
        } else if str_eq(name, "DETECTED_SPEECH") {
            Some(EslEventType::DetectedSpeech)
        } else if str_eq(name, "DETECTED_TONE") {
            Some(EslEventType::DetectedTone)
        } else if str_eq(name, "PRIVATE_COMMAND") {
            Some(EslEventType::PrivateCommand)
        } else if str_eq(name, "HEARTBEAT") {
            Some(EslEventType::Heartbeat)
        } else if str_eq(name, "TRAP") {
            Some(EslEventType::Trap)
        } else if str_eq(name, "ADD_SCHEDULE") {
            Some(EslEventType::AddSchedule)
        } else if str_eq(name, "DEL_SCHEDULE") {
            Some(EslEventType::DelSchedule)
        } else if str_eq(name, "EXE_SCHEDULE") {
            Some(EslEventType::ExeSchedule)
        } else if str_eq(name, "RE_SCHEDULE") {
            Some(EslEventType::ReSchedule)
        } else if str_eq(name, "RELOADXML") {
            Some(EslEventType::ReloadXml)
        } else if str_eq(name, "NOTIFY") {
            Some(EslEventType::Notify)
        } else if str_eq(name, "PHONE_FEATURE") {
            Some(EslEventType::PhoneFeature)
        } else if str_eq(name, "PHONE_FEATURE_SUBSCRIBE") {
            Some(EslEventType::PhoneFeatureSubscribe)
        } else if str_eq(name, "SEND_MESSAGE") {
            Some(EslEventType::SendMessage)
        } else if str_eq(name, "RECV_MESSAGE") {
            Some(EslEventType::RecvMessage)
        } else if str_eq(name, "REQUEST_PARAMS") {
            Some(EslEventType::RequestParams)
        } else if str_eq(name, "CHANNEL_DATA") {
            Some(EslEventType::ChannelData)
        } else if str_eq(name, "GENERAL") {
            Some(EslEventType::General)
        } else if str_eq(name, "COMMAND") {
            Some(EslEventType::Command)
        } else if str_eq(name, "SESSION_HEARTBEAT") {
            Some(EslEventType::SessionHeartbeat)
        } else if str_eq(name, "CLIENT_DISCONNECTED") {
            Some(EslEventType::ClientDisconnected)
        } else if str_eq(name, "SERVER_DISCONNECTED") {
            Some(EslEventType::ServerDisconnected)
        } else if str_eq(name, "SEND_INFO") {
            Some(EslEventType::SendInfo)
        } else if str_eq(name, "RECV_INFO") {
            Some(EslEventType::RecvInfo)
        } else if str_eq(name, "RECV_RTCP_MESSAGE") {
            Some(EslEventType::RecvRtcpMessage)
        } else if str_eq(name, "SEND_RTCP_MESSAGE") {
            Some(EslEventType::SendRtcpMessage)
        } else if str_eq(name, "CALL_SECURE") {
            Some(EslEventType::CallSecure)
        } else if str_eq(name, "NAT") {
            Some(EslEventType::Nat)
        } else if str_eq(name, "RECORD_START") {
            Some(EslEventType::RecordStart)
        } else if str_eq(name, "RECORD_STOP") {
            Some(EslEventType::RecordStop)
        } else if str_eq(name, "PLAYBACK_START") {
            Some(EslEventType::PlaybackStart)
        } else if str_eq(name, "PLAYBACK_STOP") {
            Some(EslEventType::PlaybackStop)
        } else if str_eq(name, "CALL_UPDATE") {
            Some(EslEventType::CallUpdate)
        } else if str_eq(name, "FAILURE") {
            Some(EslEventType::Failure)
        } else if str_eq(name, "SOCKET_DATA") {
            Some(EslEventType::SocketData)
        } else if str_eq(name, "MEDIA_BUG_START") {
            Some(EslEventType::MediaBugStart)
        } else if str_eq(name, "MEDIA_BUG_STOP") {
            Some(EslEventType::MediaBugStop)
        } else if str_eq(name, "CONFERENCE_DATA_QUERY") {
            Some(EslEventType::ConferenceDataQuery)
        } else if str_eq(name, "CONFERENCE_DATA") {
            Some(EslEventType::ConferenceData)
        } else if str_eq(name, "CALL_SETUP_REQ") {
            Some(EslEventType::CallSetupReq)
        } else if str_eq(name, "CALL_SETUP_RESULT") {
            Some(EslEventType::CallSetupResult)
        } else if str_eq(name, "CALL_DETAIL") {
            Some(EslEventType::CallDetail)
        } else if str_eq(name, "DEVICE_STATE") {
            Some(EslEventType::DeviceState)
        } else if str_eq(name, "TEXT") {
            Some(EslEventType::Text)
        } else if str_eq(name, "SHUTDOWN_REQUESTED") {
            Some(EslEventType::ShutdownRequested)
        } else if str_eq(name, "ALL") {
            Some(EslEventType::All)
        } else if str_eq(name, "START_RECORDING") {
            Some(EslEventType::StartRecording)
        } else {
            None
        }
    }

    /// The kind named by `s`, compared case-insensitively.
    pub fn parse_event_type(s: &str) -> (r: Option<Self>)
        ensures
            r == event_type_named(upper_of(s@)),
    {
        let upper = uppercase(s);
        Self::from_wire_name(upper.as_str())
    }
}

/// Priority of an outbound event.
#[derive(Debug, Clone, Copy, PartialEq, Eq, Hash, Structural)]
pub enum EslEventPriority {
    Normal,
    Low,
    High,
}

/// The priority named exactly `s`.
pub open spec fn priority_named(s: Seq<char>) -> Option<EslEventPriority> {
    if s == "NORMAL"@ {
        Some(EslEventPriority::Normal)
    } else if s == "LOW"@ {
        Some(EslEventPriority::Low)
    } else if s == "HIGH"@ {
        Some(EslEventPriority::High)
    } else {
        None
    }
}

impl EslEventPriority {
    /// The priority's token.
    pub open spec fn token(self) -> Seq<char> {
        match self {
            EslEventPriority::Normal => "NORMAL"@,
            EslEventPriority::Low => "LOW"@,
            EslEventPriority::High => "HIGH"@,
        }
    }

    /// The priority's token.
    pub fn to_string(&self) -> (r: String)
        ensures
            r@ == self.token(),
    {
        match self {
            EslEventPriority::Normal => String::from_str("NORMAL"),
            EslEventPriority::Low => String::from_str("LOW"),
            EslEventPriority::High => String::from_str("HIGH"),
        }
    }

    /// The priority whose token is exactly `name`.
    pub fn from_token(name: &str) -> (r: Option<Self>)
        ensures
            r == priority_named(name@),
    {
        if str_eq(name, "NORMAL") {
            Some(EslEventPriority::Normal)
        } else if str_eq(name, "LOW") {
            Some(EslEventPriority::Low)
        } else if str_eq(name, "HIGH") {
            Some(EslEventPriority::High)
        } else {
            None
        }
    }

    /// The priority named by `s`, compared case-insensitively.
    pub fn parse_priority(s: &str) -> (r: Option<Self>)
        ensures
            r == priority_named(upper_of(s@)),
    {
        let upper = uppercase(s);
        Self::from_token(upper.as_str())
    }
}

impl std::str::FromStr for EslEventPriority {
    type Err = ();

    fn from_str(s: &str) -> Result<Self, ()> {
        match Self::parse_priority(s) {
            Some(p) => Ok(p),
            None => Err(()),
        }
    }
}

/// View of an optional string.
pub open spec fn opt_view(o: Option<String>) -> Option<Seq<char>> {
    match o {
        Some(s) => Some(s@),
        None => None,
    }
}

/// View of an optional borrowed string.
pub open spec fn opt_ref_view(o: Option<&String>) -> Option<Seq<char>> {
    match o {
        Some(s) => Some(s@),
        None => None,
    }
}

/// One header line of the plain wire form, with the value percent-encoded.
pub open spec fn header_line(k: Seq<char>, v: Seq<char>) -> Seq<char> {
    k + ": "@ + encoded(v) + "\n"@
}

/// Whether a header is left out of the sorted part of the plain form.
#[verifier::opaque]
pub open spec fn set_apart(k: Seq<char>) -> bool {
    k == "Event-Name"@ || k == "Content-Length"@
}

/// Lines of the headers that are not set apart, in the order given.
pub open spec fn other_lines(p: Seq<(Seq<char>, Seq<char>)>) -> Seq<char>
    decreases p.len(),
{
    if p.len() == 0 {
        Seq::empty()
    } else if set_apart(p.last().0) {
        other_lines(p.drop_last())
    } else {
        other_lines(p.drop_last()) + header_line(p.last().0, p.last().1)
    }
}

/// Plain wire form of an event: `Event-Name` first, the other headers in
/// the order given, then `Content-Length` and the body when there is one.
pub open spec fn plain_text(p: Seq<(Seq<char>, Seq<char>)>, body: Option<Seq<char>>) -> Seq<char> {
    let m = crate::headers::pairs_map(p);
    (match lookup(m, "Event-Name"@) {
        Some(n) => header_line("Event-Name"@, n),
        None => Seq::empty(),
    }) + other_lines(p) + match body {
        Some(b) => "Content-Length: "@ + decimal((encode_utf8(b).len() as usize) as nat) + "\n"@ + "\n"@ + b,
        None => "\n"@,
    }
}

/// Value after stacking `value` onto `existing`: the value alone when there
/// was none; otherwise an `ARRAY::` text with it added at the back or front.
pub open spec fn stacked(existing: Option<Seq<char>>, value: Seq<char>, front: bool) -> Seq<char> {
    match existing {
        None => value,
        Some(e) => {
            let items = match array_items(e) {
                Some(it) => it,
                None => seq![e],
            };
            array_text(if front { seq![value] + items } else { items.push(value) })
        },
    }
}

/// An event: kind, headers and optional body.
#[derive(Debug, PartialEq)]
pub struct EslEvent {
    /// Kind named by the `Event-Name` header, if known.
    pub event_type: Option<EslEventType>,
    /// Headers.
    pub headers: HeaderMap,
    /// Optional body.
    pub body: Option<String>,
}

impl Default for EslEvent {
    fn default() -> (r: Self)
        ensures
            r.event_type is None,
            r.headers@ == Map::<Seq<char>, Seq<char>>::empty(),
            r.body is None,
    {
        EslEvent::new()
    }
}

impl EslEvent {
    /// An event with no kind, header or body.
    pub fn new() -> (r: Self)
        ensures
            r.event_type is None,
            r.headers@ == Map::<Seq<char>, Seq<char>>::empty(),
            r.body is None,
    {
        EslEvent { event_type: None, headers: HeaderMap::new(), body: None }
    }

    /// An event of the given kind with no header or body.
    pub fn with_type(event_type: EslEventType) -> (r: Self)
        ensures
            r.event_type == Some(event_type),
            r.headers@ == Map::<Seq<char>, Seq<char>>::empty(),
            r.body is None,
    {
        EslEvent { event_type: Some(event_type), headers: HeaderMap::new(), body: None }
    }

    /// The event kind.
    pub fn event_type(&self) -> (r: Option<EslEventType>)
        ensures
            r == self.event_type,
    {
        self.event_type
    }

    /// Value of header `name`.
    pub fn header(&self, name: &str) -> (r: Option<&String>)
        ensures
            opt_ref_view(r) == lookup(self.headers@, name@),
    {
        self.headers.get(name)
    }

    /// Sets header `name` to `value`.
    pub fn set_header(&mut self, name: &str, value: &str)
        ensures
            final(self).headers@ == old(self).headers@.insert(name@, value@),
            final(self).event_type == old(self).event_type,
            final(self).body == old(self).body,
    {
        self.headers.insert(owned(name), owned(value));
    }

    /// Removes header `name`, returning its value.
    pub fn del_header(&mut self, name: &str) -> (r: Option<String>)
        ensures
            final(self).headers@ == old(self).headers@.remove(name@),
            opt_view(r) == lookup(old(self).headers@, name@),
            final(self).event_type == old(self).event_type,
            final(self).body == old(self).body,
    {
        self.headers.remove(name)
    }

    /// The body.
    pub fn body(&self) -> (r: Option<&String>)
        ensures
            opt_ref_view(r) == opt_view(self.body),
    {
        self.body.as_ref()
    }

    /// Sets the body.
    pub fn set_body(&mut self, body: String)
        ensures
            final(self).body == Some(body),
            final(self).headers@ == old(self).headers@,
            final(self).event_type == old(self).event_type,
    {
        self.body = Some(body);
    }

    /// Sets the `priority` header.
    pub fn set_priority(&mut self, priority: EslEventPriority)
        ensures
            final(self).headers@ == old(self).headers@.insert("priority"@, priority.token()),
            final(self).event_type == old(self).event_type,
            final(self).body == old(self).body,
    {
        let token = priority.to_string();
        self.headers.insert(String::from_str("priority"), token);
    }

    /// Priority named by the `priority` header, compared case-insensitively.
    pub fn priority(&self) -> (r: Option<EslEventPriority>)
        ensures
            r == match lookup(self.headers@, "priority"@) {
                Some(v) => priority_named(upper_of(v)),
                None => None,
            },
    {
        match self.header("priority") {
            Some(v) => EslEventPriority::parse_priority(v.as_str()),
            None => None,
        }
    }

    /// Appends `value` to header `name`, turning it into an `ARRAY::` value
    /// when it already holds one.
    pub fn push_header(&mut self, name: &str, value: &str)
        ensures
            final(self).headers@ == old(self).headers@.insert(
                name@,
                stacked(lookup(old(self).headers@, name@), value@, false),
            ),
            final(self).event_type == old(self).event_type,
            final(self).body == old(self).body,
    {
        self.stack_header(name, value, false)
    }

    /// Prepends `value` to header `name`, turning it into an `ARRAY::` value
    /// when it already holds one.
    pub fn unshift_header(&mut self, name: &str, value: &str)
        ensures
            final(self).headers@ == old(self).headers@.insert(
                name@,
                stacked(lookup(old(self).headers@, name@), value@, true),
            ),
            final(self).event_type == old(self).event_type,
            final(self).body == old(self).body,
    {
        self.stack_header(name, value, true)
    }

    fn stack_header(&mut self, name: &str, value: &str, front: bool)
        ensures
            final(self).headers@ == old(self).headers@.insert(
                name@,
                stacked(lookup(old(self).headers@, name@), value@, front),
            ),
            final(self).event_type == old(self).event_type,
            final(self).body == old(self).body,
    {
        let new_value = match self.headers.get(name) {
            None => owned(value),
            Some(existing) => {
                let mut arr = match EslArray::parse(existing.as_str()) {
                    Some(arr) => arr,
                    None => {
                        let mut items: Vec<String> = Vec::new();
                        items.push(existing.clone());
                        let a = EslArray::new(items);
                        assert(a@ =~= seq![existing@]);
                        a
                    },
                };
                if front {
                    arr.unshift(owned(value));
                } else {
                    arr.push(owned(value));
                }
                arr.to_string()
            },
        };
        self.headers.insert(owned(name), new_value);
    }

    /// The channel identifier: `Unique-ID`, else `Caller-Unique-ID`.
    pub fn unique_id(&self) -> (r: Option<&String>)
        ensures
            opt_ref_view(r) == match lookup(self.headers@, "Unique-ID"@) {
                Some(v) => Some(v),
                None => lookup(self.headers@, "Caller-Unique-ID"@),
            },
    {
        match self.header("Unique-ID") {
            Some(v) => Some(v),
            None => self.header("Caller-Unique-ID"),
        }
    }

    /// The background job identifier: `Job-UUID`.
    pub fn job_uuid(&self) -> (r: Option<&String>)
        ensures
            opt_ref_view(r) == lookup(self.headers@, "Job-UUID"@),
    {
        self.header("Job-UUID")
    }

    /// Whether the event is of the given kind.
    pub fn is_event_type(&self, event_type: EslEventType) -> (r: bool)
        ensures
            r == (self.event_type == Some(event_type)),
    {
        match self.event_type {
            Some(t) => t == event_type,
            None => false,
        }
    }

    /// Plain wire form: percent-encoded values, `Event-Name` first, the
    /// other headers in ascending name order, a stored `Content-Length`
    /// left out and recomputed from the body.
    pub fn to_plain_format(&self) -> (r: String)
        ensures
            crate::headers::keys_sorted(self.headers.pairs()),
            r@ == plain_text(self.headers.pairs(), opt_view(self.body)),
    {
        let mut r = String::new();
        match self.headers.get("Event-Name") {
            Some(name) => {
                r.append("Event-Name");
                r.append(": ");
                r.append(encode_value(name.as_str()).as_str());
                r.append("\n");
            },
            None => {},
        }
        let ghost first = r@;
        assert(first == match lookup(self.headers@, "Event-Name"@) {
            Some(n) => header_line("Event-Name"@, n),
            None => Seq::<char>::empty(),
        });
        let entries = self.headers.entries();
        let mut i: usize = 0;
        while i < entries.len()
            invariant
                i <= entries@.len(),
                entries@.len() == self.headers.pairs().len(),
                forall|j: int| 0 <= j < entries@.len() ==> (#[trigger] entries@[j]).0@ == self.headers.pairs()[j].0
                    && entries@[j].1@ == self.headers.pairs()[j].1,
                r@ == first + other_lines(self.headers.pairs().take(i as int)),
            decreases entries@.len() - i,
        {
            let ghost before = r@;
            let k = &entries[i].0;
            let v = &entries[i].1;
            proof {
                reveal(set_apart);
            }
            if !str_eq(k.as_str(), "Event-Name") && !str_eq(k.as_str(), "Content-Length") {
                r.append(k.as_str());
                r.append(": ");
                r.append(encode_value(v.as_str()).as_str());
                r.append("\n");
            }
            proof {
                let t = self.headers.pairs().take(i + 1);
                assert(t.drop_last() =~= self.headers.pairs().take(i as int));
                assert(t.last() == self.headers.pairs()[i as int]);
            }
            i = i + 1;
        }
        assert(self.headers.pairs().take(i as int) =~= self.headers.pairs());
        let ghost mid = r@;
        match &self.body {
            Some(body) => {
                let bs = body.as_str();
                let n = bs.len();
                assert(bs@ == body@);
                assert(n == encode_utf8(body@).len() as usize) by {
                    assert(bs.spec_bytes() == encode_utf8(bs@));
                }
                r.append("Content-Length: ");
                r.append(decimal_string(n as u64).as_str());
                r.append("\n");
                r.append("\n");
                r.append(body.as_str());
            },
            None => {
                r.append("\n");
            },
        }
        r
    }
}

} // verus!
