//! Dialplan-tool applications run on a channel through `sendmsg`.

use vstd::prelude::*;

use crate::command::EslCommand;
use crate::error::owned;
use crate::event::opt_view;

verus! {

/// Whether `c` runs application `app` with arguments `args` on the current channel.
pub open spec fn runs(c: EslCommand, app: Seq<char>, args: Option<Seq<char>>) -> bool {
    c matches EslCommand::Execute { app: a, args: g, uuid } && a@ == app && opt_view(g) == args && uuid is None
}

/// Constructors of common dialplan-tool commands.
pub struct AppCommand;

impl AppCommand {
    /// Answers the channel.
    pub fn answer() -> (r: EslCommand)
        ensures
            runs(r, "answer"@, None),
    {
        EslCommand::Execute { app: String::from_str("answer"), args: None, uuid: None }
    }

    /// Hangs up, with an optional cause such as `NORMAL_CLEARING`.
    pub fn hangup(cause: Option<&str>) -> (r: EslCommand)
        ensures
            runs(r, "hangup"@, match cause { Some(c) => Some(c@), None => None }),
    {
        let args = match cause {
            Some(c) => Some(owned(c)),
            None => None,
        };
        EslCommand::Execute { app: String::from_str("hangup"), args, uuid: None }
    }

    /// Plays a file or tone stream.
    pub fn playback(file: &str) -> (r: EslCommand)
        ensures
            runs(r, "playback"@, Some(file@)),
    {
        EslCommand::Execute { app: String::from_str("playback"), args: Some(owned(file)), uuid: None }
    }

    /// Bridges to the given dial string.
    pub fn bridge(destination: &str) -> (r: EslCommand)
        ensures
            runs(r, "bridge"@, Some(destination@)),
    {
        EslCommand::Execute { app: String::from_str("bridge"), args: Some(owned(destination)), uuid: None }
    }

    /// Sets a channel variable: `set name=value`.
    pub fn set_var(name: &str, value: &str) -> (r: EslCommand)
        ensures
            runs(r, "set"@, Some(name@ + "="@ + value@)),
    {
        let mut a = owned(name);
        a.append("=");
        a.append(value);
        EslCommand::Execute { app: String::from_str("set"), args: Some(a), uuid: None }
    }

    /// Parks the channel.
    pub fn park() -> (r: EslCommand)
        ensures
            runs(r, "park"@, None),
    {
        EslCommand::Execute { app: String::from_str("park"), args: None, uuid: None }
    }

    /// Transfers to an extension, with optional dialplan and context.
    pub fn transfer(extension: &str, dialplan: Option<&str>, context: Option<&str>) -> (r: EslCommand)
        ensures
            runs(
                r,
                "transfer"@,
                Some(extension@ + match dialplan {
                    Some(d) => " "@ + d@,
                    None => Seq::<char>::empty(),
                } + match context {
                    Some(c) => " "@ + c@,
                    None => Seq::<char>::empty(),
                }),
            ),
    {
        let mut args = owned(extension);
        match dialplan {
            Some(dp) => {
                args.append(" ");
                args.append(dp);
            },
            None => {},
        }
        match context {
            Some(ctx) => {
                args.append(" ");
                args.append(ctx);
            },
            None => {},
        }
        assert(args@ =~= extension@ + match dialplan {
            Some(d) => " "@ + d@,
            None => Seq::<char>::empty(),
        } + match context {
            Some(c) => " "@ + c@,
            None => Seq::<char>::empty(),
        });
        EslCommand::Execute { app: String::from_str("transfer"), args: Some(args), uuid: None }
    }
}

} // verus!
