//! Command replies, the command builder and the wire form of every command.

use vstd::prelude::*;
use vstd::string::StringSliceAdditionalSpecFns;
use vstd::utf8::*;

use crate::error::{owned, EslError};
use crate::event::{opt_ref_view, opt_view, plain_text, EslEvent, EslEventType};
use crate::headers::{lookup, HeaderMap};
use crate::numbers::{decimal, decimal_string};
use crate::text::{has_prefix, strip_prefix};

verus! {

/// Whether reply headers count as success: `Reply-Text` starts with `+OK`,
/// or there is none.
pub open spec fn reply_success(h: Map<Seq<char>, Seq<char>>) -> bool {
    match lookup(h, "Reply-Text"@) {
        Some(v) => has_prefix(v, "+OK"@),
        None => true,
    }
}

/// Reply classification: a `Reply-Text` starting with `+OK` is success and
/// reads as accepted; one starting with `-ERR` is failure and reads as
/// rejected; a reply without `Reply-Text` is success.
pub proof fn lemma_reply_classification(h: Map<Seq<char>, Seq<char>>, body: Option<Seq<char>>, v: Seq<char>)
    requires
        lookup(h, "Reply-Text"@) == Some(v) || lookup(h, "Reply-Text"@) is None,
    ensures
        lookup(h, "Reply-Text"@) == Some(v) && has_prefix(v, "+OK"@) ==> reply_success(h)
            && status_of(h, body) == ReplyStatus::Accepted,
        lookup(h, "Reply-Text"@) == Some(v) && has_prefix(v, "-ERR"@) ==> !reply_success(h)
            && status_of(h, body) == ReplyStatus::Rejected,
        lookup(h, "Reply-Text"@) is None ==> reply_success(h),
{
    reveal_strlit("+OK");
    reveal_strlit("-ERR");
    if lookup(h, "Reply-Text"@) == Some(v) && has_prefix(v, "-ERR"@) {
        assert(v.take(4)[0] == v[0]);
        assert(v[0] == '-');
        assert(!has_prefix(v, "+OK"@)) by {
            if has_prefix(v, "+OK"@) {
                assert(v.take(3)[0] == v[0]);
            }
        }
    }
}

/// How a reply reads: positive, negative, or neither.
#[derive(Debug, Clone, Copy, PartialEq, Eq, Structural)]
pub enum ReplyStatus {
    /// Starts with `+OK`.
    Accepted,
    /// Starts with `-ERR`.
    Rejected,
    /// Follows neither convention; the caller must inspect it.
    Other,
}

/// Status of a reply: read from `Reply-Text`, else from the body.
pub open spec fn status_of(h: Map<Seq<char>, Seq<char>>, body: Option<Seq<char>>) -> ReplyStatus {
    let text = match lookup(h, "Reply-Text"@) {
        Some(v) => Some(v),
        None => body,
    };
    match text {
        Some(t) => if has_prefix(t, "+OK"@) {
            ReplyStatus::Accepted
        } else if has_prefix(t, "-ERR"@) {
            ReplyStatus::Rejected
        } else {
            ReplyStatus::Other
        },
        None => ReplyStatus::Other,
    }
}

/// Reply to a command.
#[derive(Debug)]
pub struct EslResponse {
    headers: HeaderMap,
    body: Option<String>,
    success: bool,
}

fn starts_with_str(s: &str, p: &str) -> (r: bool)
    ensures
        r == has_prefix(s@, p@),
{
    strip_prefix(s, p).is_some()
}

impl EslResponse {
    pub closed spec fn headers_view(&self) -> Map<Seq<char>, Seq<char>> {
        self.headers@
    }

    pub closed spec fn body_view(&self) -> Option<Seq<char>> {
        opt_view(self.body)
    }

    pub closed spec fn success_view(&self) -> bool {
        self.success
    }

    /// A reply of the given headers and body; success is read from `Reply-Text`.
    pub fn new(headers: HeaderMap, body: Option<String>) -> (r: Self)
        ensures
            r.headers_view() == headers@,
            r.body_view() == opt_view(body),
            r.success_view() == reply_success(headers@),
    {
        let success = match headers.get("Reply-Text") {
            Some(v) => starts_with_str(v.as_str(), "+OK"),
            None => true,
        };
        EslResponse { headers, body, success }
    }

    /// Whether the reply counts as success.
    pub fn is_success(&self) -> (r: bool)
        ensures
            r == self.success_view(),
    {
        self.success
    }

    /// The body.
    pub fn body(&self) -> (r: Option<&String>)
        ensures
            opt_ref_view(r) == self.body_view(),
    {
        self.body.as_ref()
    }

    /// The body, empty when there is none.
    pub fn body_string(&self) -> (r: String)
        ensures
            r@ == match self.body_view() {
                Some(b) => b,
                None => Seq::<char>::empty(),
            },
    {
        match &self.body {
            Some(b) => b.clone(),
            None => String::new(),
        }
    }

    /// Value of header `name`.
    pub fn header(&self, name: &str) -> (r: Option<&String>)
        ensures
            opt_ref_view(r) == lookup(self.headers_view(), name@),
    {
        self.headers.get(name)
    }

    /// All headers.
    pub fn headers(&self) -> (r: &HeaderMap)
        ensures
            r@ == self.headers_view(),
    {
        &self.headers
    }

    /// The `Reply-Text` header.
    pub fn reply_text(&self) -> (r: Option<&String>)
        ensures
            opt_ref_view(r) == lookup(self.headers_view(), "Reply-Text"@),
    {
        self.headers.get("Reply-Text")
    }

    /// The `Job-UUID` header of a background command's reply.
    pub fn job_uuid(&self) -> (r: Option<&String>)
        ensures
            opt_ref_view(r) == lookup(self.headers_view(), "Job-UUID"@),
    {
        self.headers.get("Job-UUID")
    }

    /// How the reply reads.
    pub fn reply_status(&self) -> (r: ReplyStatus)
        ensures
            r == status_of(self.headers_view(), self.body_view()),
    {
        let text = match self.headers.get("Reply-Text") {
            Some(v) => Some(v),
            None => self.body.as_ref(),
        };
        match text {
            Some(t) => {
                if starts_with_str(t.as_str(), "+OK") {
                    ReplyStatus::Accepted
                } else if starts_with_str(t.as_str(), "-ERR") {
                    ReplyStatus::Rejected
                } else {
                    ReplyStatus::Other
                }
            },
            None => ReplyStatus::Other,
        }
    }

    /// The reply itself on success, else a command-failed error carrying
    /// the reply text (`Command failed` when there is none).
    pub fn into_result(self) -> (r: Result<Self, EslError>)
        ensures
            self.success_view() ==> (r matches Ok(s) && s.headers_view() == self.headers_view()
                && s.body_view() == self.body_view() && s.success_view()),
            !self.success_view() ==> (r matches Err(EslError::CommandFailed { reply_text })
                && reply_text@ == match lookup(self.headers_view(), "Reply-Text"@) {
                    Some(v) => v,
                    None => "Command failed"@,
                }),
    {
        if self.success {
            Ok(self)
        } else {
            let reply_text = match self.headers.get("Reply-Text") {
                Some(v) => v.clone(),
                None => String::from_str("Command failed"),
            };
            Err(EslError::CommandFailed { reply_text })
        }
    }

    /// The reply on `+OK`; a command-failed error on `-ERR`; an
    /// unexpected-reply error otherwise.
    pub fn into_checked(self) -> (r: Result<Self, EslError>)
        ensures
            status_of(self.headers_view(), self.body_view()) is Accepted ==> r is Ok,
            status_of(self.headers_view(), self.body_view()) is Rejected ==> r matches Err(EslError::CommandFailed { .. }),
            status_of(self.headers_view(), self.body_view()) is Other ==> r matches Err(EslError::UnexpectedReply { .. }),
    {
        match self.reply_status() {
            ReplyStatus::Accepted => Ok(self),
            ReplyStatus::Rejected => {
                let t = self.reply_text_or_body();
                Err(EslError::CommandFailed { reply_text: t })
            },
            ReplyStatus::Other => {
                let t = self.reply_text_or_body();
                Err(EslError::UnexpectedReply { reply_text: t })
            },
        }
    }

    fn reply_text_or_body(&self) -> String {
        match self.headers.get("Reply-Text") {
            Some(v) => v.clone(),
            None => self.body_string(),
        }
    }
}

/// Header lines `Name: Value`, in the order given, values as they are.
pub open spec fn raw_lines(p: Seq<(Seq<char>, Seq<char>)>) -> Seq<char>
    decreases p.len(),
{
    if p.len() == 0 {
        Seq::empty()
    } else {
        raw_lines(p.drop_last()) + p.last().0 + ": "@ + p.last().1 + "\n"@
    }
}

/// Text of a command line, header lines and optional body: the body comes
/// after a `Content-Length` line and a blank line.
pub open spec fn builder_text(command: Seq<char>, p: Seq<(Seq<char>, Seq<char>)>, body: Option<Seq<char>>) -> Seq<char> {
    command + "\n"@ + raw_lines(p) + match body {
        Some(b) => "Content-Length: "@ + decimal((encode_utf8(b).len() as usize) as nat) + "\n"@ + "\n"@ + b,
        None => "\n"@,
    }
}

/// Appends `Name: Value` lines for the pairs of `headers`.
fn append_raw_lines(r: &mut String, headers: &HeaderMap)
    ensures
        final(r)@ == old(r)@ + raw_lines(headers.pairs()),
{
    let entries = headers.entries();
    let mut i: usize = 0;
    while i < entries.len()
        invariant
            i <= entries@.len(),
            entries@.len() == headers.pairs().len(),
            forall|j: int| 0 <= j < entries@.len() ==> (#[trigger] entries@[j]).0@ == headers.pairs()[j].0
                && entries@[j].1@ == headers.pairs()[j].1,
            r@ == old(r)@ + raw_lines(headers.pairs().take(i as int)),
        decreases entries@.len() - i,
    {
        r.append(entries[i].0.as_str());
        r.append(": ");
        r.append(entries[i].1.as_str());
        r.append("\n");
        proof {
            let t = headers.pairs().take(i + 1);
            assert(t.drop_last() =~= headers.pairs().take(i as int));
        }
        i = i + 1;
    }
    assert(headers.pairs().take(i as int) =~= headers.pairs());
}

/// Appends the `Content-Length` line, blank line and body, or the blank line alone.
fn append_body(r: &mut String, body: &Option<String>)
    ensures
        final(r)@ == old(r)@ + match opt_view(*body) {
            Some(b) => "Content-Length: "@ + decimal((encode_utf8(b).len() as usize) as nat) + "\n"@ + "\n"@ + b,
            None => "\n"@,
        },
{
    match body {
        Some(b) => {
            let bs = b.as_str();
            let n = bs.len();
            assert(n == encode_utf8(b@).len() as usize) by {
                assert(bs.spec_bytes() == encode_utf8(bs@));
            }
            r.append("Content-Length: ");
            r.append(decimal_string(n as u64).as_str());
            r.append("\n");
            r.append("\n");
            r.append(bs);
        },
        None => {
            r.append("\n");
        },
    }
}

/// Builder of a command with headers and an optional body.
#[derive(Debug)]
pub struct CommandBuilder {
    command: String,
    headers: HeaderMap,
    body: Option<String>,
}

impl CommandBuilder {
    pub closed spec fn command_view(&self) -> Seq<char> {
        self.command@
    }

    pub closed spec fn headers_view(&self) -> HeaderMap {
        self.headers
    }

    pub closed spec fn body_view(&self) -> Option<Seq<char>> {
        opt_view(self.body)
    }

    /// A builder for the given command line.
    pub fn new(command: &str) -> (r: Self)
        ensures
            r.command_view() == command@,
            r.headers_view()@ == Map::<Seq<char>, Seq<char>>::empty(),
            r.headers_view().pairs().len() == 0,
            r.body_view() is None,
    {
        CommandBuilder { command: owned(command), headers: HeaderMap::new(), body: None }
    }

    /// Adds a header.
    pub fn header(self, name: &str, value: &str) -> (r: Self)
        ensures
            r.command_view() == self.command_view(),
            r.headers_view()@ == self.headers_view()@.insert(name@, value@),
            r.body_view() == self.body_view(),
    {
        let mut s = self;
        s.headers.insert(owned(name), owned(value));
        s
    }

    /// Sets the body.
    pub fn body(self, body: &str) -> (r: Self)
        ensures
            r.command_view() == self.command_view(),
            r.headers_view() == self.headers_view(),
            r.body_view() == Some(body@),
    {
        let mut s = self;
        s.body = Some(owned(body));
        s
    }

    /// The command text: the command line, header lines in ascending name
    /// order, then `Content-Length` and the body when there is one, else a
    /// blank line.
    pub fn build(self) -> (r: String)
        ensures
            crate::headers::keys_sorted(self.headers_view().pairs()),
            r@ == builder_text(self.command_view(), self.headers_view().pairs(), self.body_view()),
    {
        let _ = self.headers.entries();
        let mut r = self.command;
        r.append("\n");
        append_raw_lines(&mut r, &self.headers);
        append_body(&mut r, &self.body);
        r
    }
}

/// Outbound commands.
#[derive(Debug)]
pub enum EslCommand {
    /// `auth <password>`.
    Auth { password: String },
    /// `userauth <user>:<password>`.
    UserAuth { user: String, password: String },
    /// `api <command>`.
    Api { command: String },
    /// `bgapi <command>`.
    BgApi { command: String },
    /// `event <format> <events>`.
    Events { format: String, events: String },
    /// `filter <header> <value>`.
    Filter { header: String, value: String },
    /// `filter delete <header> <value>`.
    FilterDelete { header: String, value: String },
    /// `sendmsg [<uuid>]` with the event's headers and body. Header values are
    /// written as they are, not percent-encoded as in the plain event form
    /// of `sendevent`: application names and arguments such as
    /// `NORMAL_CLEARING` must reach the channel unchanged.
    SendMsg { uuid: Option<String>, event: EslEvent },
    /// `sendevent <name>` with the event in plain form.
    SendEvent { event: EslEvent },
    /// An application run through `sendmsg`.
    Execute { app: String, args: Option<String>, uuid: Option<String> },
    /// `myevents [<uuid>]`.
    MyEvents { uuid: Option<String> },
    /// `linger`.
    Linger,
    /// `nolinger`.
    NoLinger,
    /// `resume`.
    Resume,
    /// `nixevent <events>`.
    NixEvent { events: String },
    /// `noevents`.
    NoEvents,
    /// `divert_events on|off`.
    DivertEvents { on: bool },
    /// `getvar <name>`.
    GetVar { name: String },
    /// `exit`.
    Exit,
    /// `log <level>`.
    Log { level: String },
    /// `nolog`.
    NoLog,
    /// `noop`.
    NoOp,
}

/// `cmd arg1 arg2 ...` followed by a blank line.
pub open spec fn simple_text(cmd: Seq<char>, args: Seq<Seq<char>>) -> Seq<char> {
    args_text(cmd, args) + "\n\n"@
}

/// `cmd` followed by each argument after a space.
pub open spec fn args_text(cmd: Seq<char>, args: Seq<Seq<char>>) -> Seq<char>
    decreases args.len(),
{
    if args.len() == 0 {
        cmd
    } else {
        args_text(cmd, args.drop_last()) + " "@ + args.last()
    }
}

/// `sendmsg`, with ` <uuid>` when a target is given.
pub open spec fn sendmsg_line(uuid: Option<Seq<char>>) -> Seq<char> {
    match uuid {
        Some(u) => "sendmsg"@ + " "@ + u,
        None => "sendmsg"@,
    }
}

/// Name that `sendevent` announces: the event kind's wire name, else `CUSTOM`.
pub open spec fn sendevent_name(t: Option<EslEventType>) -> Seq<char> {
    match t {
        Some(k) => k.wire_name(),
        None => "CUSTOM"@,
    }
}

/// Headers of the event that runs an application.
pub open spec fn execute_map(app: Seq<char>, args: Option<Seq<char>>) -> Map<Seq<char>, Seq<char>> {
    let m = Map::empty().insert("call-command"@, "execute"@).insert("execute-app-name"@, app);
    match args {
        Some(a) => m.insert("execute-app-arg"@, a),
        None => m,
    }
}

/// Those headers in ascending name order.
pub open spec fn execute_pairs(app: Seq<char>, args: Option<Seq<char>>) -> Seq<(Seq<char>, Seq<char>)> {
    match args {
        Some(a) => seq![("call-command"@, "execute"@), ("execute-app-arg"@, a), ("execute-app-name"@, app)],
        None => seq![("call-command"@, "execute"@), ("execute-app-name"@, app)],
    }
}

/// The execute headers in ascending order make the execute map.
pub proof fn lemma_execute_pairs(app: Seq<char>, args: Option<Seq<char>>)
    ensures
        crate::headers::keys_sorted(execute_pairs(app, args)),
        crate::headers::pairs_map(execute_pairs(app, args)) == execute_map(app, args),
{
    reveal_strlit("call-command");
    reveal_strlit("execute-app-arg");
    reveal_strlit("execute-app-name");
    reveal_with_fuel(crate::headers::seq_lt, 14);
    let cc = "call-command"@;
    let ea = "execute-app-arg"@;
    let en = "execute-app-name"@;
    assert(crate::headers::seq_lt(cc, ea));
    assert(crate::headers::seq_lt(cc, en));
    assert(crate::headers::seq_lt(ea, en)) by {
        let mut i: int = 0;
        assert(ea.skip(12) =~= seq!['a', 'r', 'g']);
        assert(en.skip(12) =~= seq!['n', 'a', 'm', 'e']);
    }
    let p = execute_pairs(app, args);
    assert(cc != ea && cc != en && ea != en) by {
        assert(cc[0] != ea[0]);
        assert(cc[0] != en[0]);
        assert(ea[12] != en[12]);
    }
    assert forall|k: Seq<char>| #![auto] crate::headers::pairs_map(p).contains_key(k) == execute_map(app, args).contains_key(k) by {
        if execute_map(app, args).contains_key(k) {
            if k == cc {
                assert(p[0].0 == k);
            } else if k == en {
                assert(p[p.len() - 1].0 == k);
            } else {
                assert(p[1].0 == k);
            }
        }
    }
    assert forall|k: Seq<char>| crate::headers::pairs_map(p).contains_key(k) implies crate::headers::pairs_map(p)[k] == execute_map(app, args)[k] by {
        let j = choose|j: int| 0 <= j < p.len() && p[j].0 == k;
        crate::headers::lemma_pairs_map_at(p, j);
    }
    assert(crate::headers::pairs_map(p) =~= execute_map(app, args));
}

/// Wire text of a command.
pub open spec fn wire_text(c: EslCommand) -> Seq<char> {
    match c {
        EslCommand::Auth { password } => simple_text("auth"@, seq![password@]),
        EslCommand::UserAuth { user, password } => simple_text("userauth"@, seq![user@ + ":"@ + password@]),
        EslCommand::Api { command } => simple_text("api"@, seq![command@]),
        EslCommand::BgApi { command } => simple_text("bgapi"@, seq![command@]),
        EslCommand::Events { format, events } => simple_text("event"@, seq![format@, events@]),
        EslCommand::Filter { header, value } => simple_text("filter"@, seq![header@, value@]),
        EslCommand::FilterDelete { header, value } => simple_text("filter delete"@, seq![header@, value@]),
        EslCommand::SendMsg { uuid, event } => builder_text(
            sendmsg_line(opt_view(uuid)),
            event.headers.pairs(),
            opt_view(event.body),
        ),
        EslCommand::SendEvent { event } => "sendevent "@ + sendevent_name(event.event_type) + "\n"@
            + plain_text(event.headers.pairs(), opt_view(event.body)),
        EslCommand::Execute { app, args, uuid } => builder_text(
            sendmsg_line(opt_view(uuid)),
            execute_pairs(app@, opt_view(args)),
            None,
        ),
        EslCommand::MyEvents { uuid } => match uuid {
            Some(u) => simple_text("myevents"@, seq![u@]),
            None => simple_text("myevents"@, seq![]),
        },
        EslCommand::Linger => simple_text("linger"@, seq![]),
        EslCommand::NoLinger => simple_text("nolinger"@, seq![]),
        EslCommand::Resume => simple_text("resume"@, seq![]),
        EslCommand::NixEvent { events } => simple_text("nixevent"@, seq![events@]),
        EslCommand::NoEvents => simple_text("noevents"@, seq![]),
        EslCommand::DivertEvents { on } => simple_text("divert_events"@, seq![if on { "on"@ } else { "off"@ }]),
        EslCommand::GetVar { name } => simple_text("getvar"@, seq![name@]),
        EslCommand::Exit => simple_text("exit"@, seq![]),
        EslCommand::Log { level } => simple_text("log"@, seq![level@]),
        EslCommand::NoLog => simple_text("nolog"@, seq![]),
        EslCommand::NoOp => simple_text("noop"@, seq![]),
    }
}

/// Running an application is sending the message of its event: the wire
/// text of `Execute` is the `sendmsg` text of any event whose headers are
/// the execute headers and that has no body.
pub proof fn lemma_execute_is_sendmsg(app: String, args: Option<String>, uuid: Option<String>, event: EslEvent)
    requires
        event.headers@ == execute_map(app@, opt_view(args)),
        crate::headers::keys_sorted(event.headers.pairs()),
        event.body is None,
    ensures
        wire_text(EslCommand::Execute { app, args, uuid }) == wire_text(EslCommand::SendMsg { uuid, event }),
{
    lemma_execute_pairs(app@, opt_view(args));
    crate::headers::lemma_sorted_pairs_unique(execute_pairs(app@, opt_view(args)), event.headers.pairs());
}

impl EslCommand {
    /// `cmd` and the arguments, space-separated, then a blank line.
    fn format_simple_command(cmd: &str, args: &Vec<&str>) -> (r: String)
        ensures
            r@ == simple_text(cmd@, args@.map_values(|a: &str| a@)),
    {
        let mut result = owned(cmd);
        let ghost views = args@.map_values(|a: &str| a@);
        let mut i: usize = 0;
        while i < args.len()
            invariant
                i <= args@.len(),
                views == args@.map_values(|a: &str| a@),
                result@ == args_text(cmd@, views.take(i as int)),
            decreases args@.len() - i,
        {
            result.append(" ");
            result.append(args[i]);
            proof {
                assert(views.take(i + 1).drop_last() =~= views.take(i as int));
            }
            i = i + 1;
        }
        assert(views.take(i as int) =~= views);
        result.append("\n\n");
        result
    }

    /// The command's wire text.
    pub fn to_wire_format(&self) -> (r: String)
        ensures
            r@ == wire_text(*self),
    {
        match self {
            EslCommand::Auth { password } => {
                let args = vec![password.as_str()];
                assert(args@.map_values(|a: &str| a@) =~= seq![password@]);
                Self::format_simple_command("auth", &args)
            },
            EslCommand::UserAuth { user, password } => {
                let mut cred = user.clone();
                cred.append(":");
                cred.append(password.as_str());
                let args = vec![cred.as_str()];
                assert(args@.map_values(|a: &str| a@) =~= seq![user@ + ":"@ + password@]);
                Self::format_simple_command("userauth", &args)
            },
            EslCommand::Api { command } => {
                let args = vec![command.as_str()];
                assert(args@.map_values(|a: &str| a@) =~= seq![command@]);
                Self::format_simple_command("api", &args)
            },
            EslCommand::BgApi { command } => {
                let args = vec![command.as_str()];
                assert(args@.map_values(|a: &str| a@) =~= seq![command@]);
                Self::format_simple_command("bgapi", &args)
            },
            EslCommand::Events { format, events } => {
                let args = vec![format.as_str(), events.as_str()];
                assert(args@.map_values(|a: &str| a@) =~= seq![format@, events@]);
                Self::format_simple_command("event", &args)
            },
            EslCommand::Filter { header, value } => {
                let args = vec![header.as_str(), value.as_str()];
                assert(args@.map_values(|a: &str| a@) =~= seq![header@, value@]);
                Self::format_simple_command("filter", &args)
            },
            EslCommand::FilterDelete { header, value } => {
                let args = vec![header.as_str(), value.as_str()];
                assert(args@.map_values(|a: &str| a@) =~= seq![header@, value@]);
                Self::format_simple_command("filter delete", &args)
            },
            EslCommand::SendMsg { uuid, event } => {
                let mut r = String::from_str("sendmsg");
                match uuid {
                    Some(u) => {
                        r.append(" ");
                        r.append(u.as_str());
                    },
                    None => {},
                }
                r.append("\n");
                append_raw_lines(&mut r, &event.headers);
                append_body(&mut r, &event.body);
                r
            },
            EslCommand::SendEvent { event } => {
                let mut r = String::from_str("sendevent ");
                match event.event_type {
                    Some(k) => r.append(k.to_string().as_str()),
                    None => r.append("CUSTOM"),
                }
                r.append("\n");
                r.append(event.to_plain_format().as_str());
                r
            },
            EslCommand::Execute { app, args, uuid } => {
                let mut r = String::from_str("sendmsg");
                match uuid {
                    Some(u) => {
                        r.append(" ");
                        r.append(u.as_str());
                    },
                    None => {},
                }
                r.append("\n");
                let ghost head = r@;
                r.append("call-command");
                r.append(": ");
                r.append("execute");
                r.append("\n");
                let ghost first = r@;
                match args {
                    Some(a) => {
                        r.append("execute-app-arg");
                        r.append(": ");
                        r.append(a.as_str());
                        r.append("\n");
                    },
                    None => {},
                }
                let ghost second = r@;
                r.append("execute-app-name");
                r.append(": ");
                r.append(app.as_str());
                r.append("\n");
                let ghost third = r@;
                r.append("\n");
                proof {
                    let p = execute_pairs(app@, opt_view(*args));
                    let e = Seq::<(Seq<char>, Seq<char>)>::empty();
                    let l0 = "call-command"@ + ": "@ + "execute"@ + "\n"@;
                    let p1 = seq![p[0]];
                    assert(p1.drop_last() =~= e);
                    assert(raw_lines(e) == Seq::<char>::empty());
                    assert(raw_lines(p1) =~= l0);
                    assert(first =~= head + l0);
                    if p.len() == 3 {
                        let p2 = seq![p[0], p[1]];
                        assert(p2.drop_last() =~= p1);
                        assert(p.drop_last() =~= p2);
                        assert(raw_lines(p2) =~= l0 + p[1].0 + ": "@ + p[1].1 + "\n"@);
                        assert(raw_lines(p) =~= raw_lines(p2) + p[2].0 + ": "@ + p[2].1 + "\n"@);
                    } else {
                        assert(p.drop_last() =~= p1);
                        assert(raw_lines(p) =~= raw_lines(p1) + p[1].0 + ": "@ + p[1].1 + "\n"@);
                    }
                    assert(r@ =~= builder_text(sendmsg_line(opt_view(*uuid)), p, None));
                }
                r
            },
            EslCommand::MyEvents { uuid } => {
                match uuid {
                    Some(u) => {
                        let args = vec![u.as_str()];
                        assert(args@.map_values(|a: &str| a@) =~= seq![u@]);
                        Self::format_simple_command("myevents", &args)
                    },
                    None => Self::no_args("myevents"),
                }
            },
            EslCommand::Linger => Self::no_args("linger"),
            EslCommand::NoLinger => Self::no_args("nolinger"),
            EslCommand::Resume => Self::no_args("resume"),
            EslCommand::NixEvent { events } => {
                let args = vec![events.as_str()];
                assert(args@.map_values(|a: &str| a@) =~= seq![events@]);
                Self::format_simple_command("nixevent", &args)
            },
            EslCommand::NoEvents => Self::no_args("noevents"),
            EslCommand::DivertEvents { on } => {
                let args = if *on { vec!["on"] } else { vec!["off"] };
                assert(args@.map_values(|a: &str| a@) =~= seq![if *on { "on"@ } else { "off"@ }]);
                Self::format_simple_command("divert_events", &args)
            },
            EslCommand::GetVar { name } => {
                let args = vec![name.as_str()];
                assert(args@.map_values(|a: &str| a@) =~= seq![name@]);
                Self::format_simple_command("getvar", &args)
            },
            EslCommand::Exit => Self::no_args("exit"),
            EslCommand::Log { level } => {
                let args = vec![level.as_str()];
                assert(args@.map_values(|a: &str| a@) =~= seq![level@]);
                Self::format_simple_command("log", &args)
            },
            EslCommand::NoLog => Self::no_args("nolog"),
            EslCommand::NoOp => Self::no_args("noop"),
        }
    }

    fn no_args(cmd: &str) -> (r: String)
        ensures
            r@ == simple_text(cmd@, seq![]),
    {
        let args: Vec<&str> = Vec::new();
        assert(args@.map_values(|a: &str| a@) =~= Seq::<Seq<char>>::empty());
        Self::format_simple_command(cmd, &args)
    }
}

} // verus!
