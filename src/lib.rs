//! Client library for the FreeSWITCH event socket protocol: byte framing,
//! message classification, the event and command model, command builders and
//! the decisions of the connection state machine.

pub mod buffer;
pub mod channel;
pub mod command;
pub mod conference;
pub mod dptools;
pub mod error;
pub mod event;
pub mod headers;
pub mod numbers;
pub mod originate;
pub mod pct;
pub mod protocol;
pub mod session;
pub mod text;
pub mod uuid_commands;
pub mod variables;

pub use buffer::EslBuffer;
pub use channel::ChannelTimetable;
pub use command::{CommandBuilder, EslCommand, EslResponse, ReplyStatus};
pub use conference::{ConferenceDtmf, ConferenceHold, ConferenceMute, HoldAction, MuteAction};
pub use dptools::AppCommand;
pub use error::{EslError, EslResult};
pub use event::{EslEvent, EslEventPriority, EslEventType, EventFormat};
pub use headers::HeaderMap;
pub use originate::{
    originate_quote, originate_split, originate_unquote, parse_application_list, Application, ApplicationList,
    DialplanType, Endpoint, Originate, OriginateError, Variables, VariablesType,
};
pub use protocol::{EslMessage, EslParser, MessageType};
pub use session::{ConnectionMode, ConnectionStatus, DisconnectReason, ReaderAction, SessionState};
pub use uuid_commands::{UuidAnswer, UuidBridge, UuidDeflect, UuidGetVar, UuidHold, UuidKill, UuidSendDtmf, UuidSetVar, UuidTransfer};
pub use variables::{EslArray, MultipartBody, MultipartItem};
pub mod plain_law;
