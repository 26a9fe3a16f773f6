//! Builders of `uuid_*` API commands that address one channel.

use vstd::prelude::*;

verus! {

/// Answers a channel: `uuid_answer <uuid>`.
#[derive(Debug, Clone, PartialEq, Eq)]
pub struct UuidAnswer {
    /// Channel identifier.
    pub uuid: String,
}

impl UuidAnswer {
    /// The command text.
    pub fn to_string(&self) -> (r: String)
        ensures
            r@ == "uuid_answer"@ + " "@ + self.uuid@,
    {
        let mut r = String::from_str("uuid_answer");
        r.append(" ");
        r.append(self.uuid.as_str());
        r
    }
}

/// Bridges two channels: `uuid_bridge <uuid> <other>`.
#[derive(Debug, Clone, PartialEq, Eq)]
pub struct UuidBridge {
    /// Channel identifier.
    pub uuid: String,
    /// Channel to bridge to.
    pub other: String,
}

impl UuidBridge {
    /// The command text.
    pub fn to_string(&self) -> (r: String)
        ensures
            r@ == "uuid_bridge"@ + " "@ + self.uuid@ + " "@ + self.other@,
    {
        let mut r = String::from_str("uuid_bridge");
        r.append(" ");
        r.append(self.uuid.as_str());
        r.append(" ");
        r.append(self.other.as_str());
        r
    }
}

/// Redirects a channel to a SIP URI: `uuid_deflect <uuid> <uri>`.
#[derive(Debug, Clone, PartialEq, Eq)]
pub struct UuidDeflect {
    /// Channel identifier.
    pub uuid: String,
    /// Target URI.
    pub uri: String,
}

impl UuidDeflect {
    /// The command text.
    pub fn to_string(&self) -> (r: String)
        ensures
            r@ == "uuid_deflect"@ + " "@ + self.uuid@ + " "@ + self.uri@,
    {
        let mut r = String::from_str("uuid_deflect");
        r.append(" ");
        r.append(self.uuid.as_str());
        r.append(" ");
        r.append(self.uri.as_str());
        r
    }
}

/// Reads a channel variable: `uuid_getvar <uuid> <key>`. The reply is the bare value, so its status reads as neither `+OK` nor `-ERR`.
#[derive(Debug, Clone, PartialEq, Eq)]
pub struct UuidGetVar {
    /// Channel identifier.
    pub uuid: String,
    /// Variable name.
    pub key: String,
}

impl UuidGetVar {
    /// The command text.
    pub fn to_string(&self) -> (r: String)
        ensures
            r@ == "uuid_getvar"@ + " "@ + self.uuid@ + " "@ + self.key@,
    {
        let mut r = String::from_str("uuid_getvar");
        r.append(" ");
        r.append(self.uuid.as_str());
        r.append(" ");
        r.append(self.key.as_str());
        r
    }
}

/// Sets a channel variable: `uuid_setvar <uuid> <key> <value>`.
#[derive(Debug, Clone, PartialEq, Eq)]
pub struct UuidSetVar {
    /// Channel identifier.
    pub uuid: String,
    /// Variable name.
    pub key: String,
    /// Variable value.
    pub value: String,
}

impl UuidSetVar {
    /// The command text.
    pub fn to_string(&self) -> (r: String)
        ensures
            r@ == "uuid_setvar"@ + " "@ + self.uuid@ + " "@ + self.key@ + " "@ + self.value@,
    {
        let mut r = String::from_str("uuid_setvar");
        r.append(" ");
        r.append(self.uuid.as_str());
        r.append(" ");
        r.append(self.key.as_str());
        r.append(" ");
        r.append(self.value.as_str());
        r
    }
}

/// Sends DTMF digits: `uuid_send_dtmf <uuid> <dtmf>`.
#[derive(Debug, Clone, PartialEq, Eq)]
pub struct UuidSendDtmf {
    /// Channel identifier.
    pub uuid: String,
    /// Digits.
    pub dtmf: String,
}

impl UuidSendDtmf {
    /// The command text.
    pub fn to_string(&self) -> (r: String)
        ensures
            r@ == "uuid_send_dtmf"@ + " "@ + self.uuid@ + " "@ + self.dtmf@,
    {
        let mut r = String::from_str("uuid_send_dtmf");
        r.append(" ");
        r.append(self.uuid.as_str());
        r.append(" ");
        r.append(self.dtmf.as_str());
        r
    }
}

/// Holds a channel or takes it off hold: `uuid_hold [off] <uuid>`.
#[derive(Debug, Clone, PartialEq, Eq)]
pub struct UuidHold {
    /// Channel identifier.
    pub uuid: String,
    /// `true` takes the channel off hold.
    pub off: bool,
}

impl UuidHold {
    /// The command text.
    pub fn to_string(&self) -> (r: String)
        ensures
            r@ == if self.off { "uuid_hold"@ + " "@ + "off"@ + " "@ + self.uuid@ } else { "uuid_hold"@ + " "@ + self.uuid@ },
    {
        let mut r = String::from_str("uuid_hold");
        if self.off {
            r.append(" ");
            r.append("off");
        }
        r.append(" ");
        r.append(self.uuid.as_str());
        r
    }
}

/// Kills a channel: `uuid_kill <uuid> [cause]`.
#[derive(Debug, Clone, PartialEq, Eq)]
pub struct UuidKill {
    /// Channel identifier.
    pub uuid: String,
    /// Hangup cause; the switch's default when absent.
    pub cause: Option<String>,
}

impl UuidKill {
    /// The command text.
    pub fn to_string(&self) -> (r: String)
        ensures
            r@ == "uuid_kill"@ + " "@ + self.uuid@ + match self.cause {
                Some(c) => " "@ + c@,
                None => Seq::<char>::empty(),
            },
    {
        let mut r = String::from_str("uuid_kill");
        r.append(" ");
        r.append(self.uuid.as_str());
        match &self.cause {
            Some(c) => {
                r.append(" ");
                r.append(c.as_str());
            },
            None => {},
        }
        r
    }
}

/// Transfers a channel: `uuid_transfer <uuid> <destination> [dialplan]`.
#[derive(Debug, Clone, PartialEq, Eq)]
pub struct UuidTransfer {
    /// Channel identifier.
    pub uuid: String,
    /// Destination extension or dial string.
    pub destination: String,
    /// Dialplan; the channel's current one when absent.
    pub dialplan: Option<String>,
}

impl UuidTransfer {
    /// The command text.
    pub fn to_string(&self) -> (r: String)
        ensures
            r@ == "uuid_transfer"@ + " "@ + self.uuid@ + " "@ + self.destination@ + match self.dialplan {
                Some(d) => " "@ + d@,
                None => Seq::<char>::empty(),
            },
    {
        let mut r = String::from_str("uuid_transfer");
        r.append(" ");
        r.append(self.uuid.as_str());
        r.append(" ");
        r.append(self.destination.as_str());
        match &self.dialplan {
            Some(d) => {
                r.append(" ");
                r.append(d.as_str());
            },
            None => {},
        }
        r
    }
}

} // verus!
