//! Builders of `conference` API commands.

use vstd::prelude::*;

verus! {

/// Mute or unmute.
#[derive(Debug, Clone, Copy, PartialEq, Eq, Structural)]
pub enum MuteAction {
    Mute,
    Unmute,
}

impl MuteAction {
    pub open spec fn token(self) -> Seq<char> {
        match self {
            MuteAction::Mute => "mute"@,
            MuteAction::Unmute => "unmute"@,
        }
    }

    /// The action's token.
    pub fn to_string(&self) -> (r: String)
        ensures
            r@ == self.token(),
    {
        match self {
            MuteAction::Mute => String::from_str("mute"),
            MuteAction::Unmute => String::from_str("unmute"),
        }
    }
}

/// Mutes or unmutes a member: `conference <name> mute|unmute <member>`.
#[derive(Debug, Clone, PartialEq, Eq)]
pub struct ConferenceMute {
    pub name: String,
    pub action: MuteAction,
    pub member_id: String,
}

impl ConferenceMute {
    /// The command text.
    pub fn to_string(&self) -> (r: String)
        ensures
            r@ == "conference"@ + " "@ + self.name@ + " "@ + self.action.token() + " "@ + self.member_id@,
    {
        let mut r = String::from_str("conference");
        r.append(" ");
        r.append(self.name.as_str());
        r.append(" ");
        r.append(self.action.to_string().as_str());
        r.append(" ");
        r.append(self.member_id.as_str());
        r
    }
}

/// Hold or unhold.
#[derive(Debug, Clone, Copy, PartialEq, Eq, Structural)]
pub enum HoldAction {
    Hold,
    Unhold,
}

impl HoldAction {
    pub open spec fn token(self) -> Seq<char> {
        match self {
            HoldAction::Hold => "hold"@,
            HoldAction::Unhold => "unhold"@,
        }
    }

    /// The action's token.
    pub fn to_string(&self) -> (r: String)
        ensures
            r@ == self.token(),
    {
        match self {
            HoldAction::Hold => String::from_str("hold"),
            HoldAction::Unhold => String::from_str("unhold"),
        }
    }
}

/// Holds or unholds a member: `conference <name> hold|unhold <member> [stream]`.
#[derive(Debug, Clone, PartialEq, Eq)]
pub struct ConferenceHold {
    pub name: String,
    pub action: HoldAction,
    pub member: String,
    pub stream: Option<String>,
}

impl ConferenceHold {
    /// The command text.
    pub fn to_string(&self) -> (r: String)
        ensures
            r@ == "conference"@ + " "@ + self.name@ + " "@ + self.action.token() + " "@ + self.member@
                + match self.stream {
                Some(s) => " "@ + s@,
                None => Seq::<char>::empty(),
            },
    {
        let mut r = String::from_str("conference");
        r.append(" ");
        r.append(self.name.as_str());
        r.append(" ");
        r.append(self.action.to_string().as_str());
        r.append(" ");
        r.append(self.member.as_str());
        match &self.stream {
            Some(s) => {
                r.append(" ");
                r.append(s.as_str());
            },
            None => {},
        }
        r
    }
}

/// Sends DTMF to members: `conference <name> dtmf <member> <digits>`.
#[derive(Debug, Clone, PartialEq, Eq)]
pub struct ConferenceDtmf {
    pub name: String,
    pub member: String,
    pub dtmf: String,
}

impl ConferenceDtmf {
    /// The command text.
    pub fn to_string(&self) -> (r: String)
        ensures
            r@ == "conference"@ + " "@ + self.name@ + " "@ + "dtmf"@ + " "@ + self.member@ + " "@ + self.dtmf@,
    {
        let mut r = String::from_str("conference");
        r.append(" ");
        r.append(self.name.as_str());
        r.append(" ");
        r.append("dtmf");
        r.append(" ");
        r.append(self.member.as_str());
        r.append(" ");
        r.append(self.dtmf.as_str());
        r
    }
}

} // verus!
