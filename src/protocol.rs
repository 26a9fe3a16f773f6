//! Message framing: header blocks ended by a blank line, optional bodies
//! framed by `Content-Length`, and classification by content type.

use vstd::prelude::*;
use vstd::utf8::*;

use crate::buffer::{first_match, first_match_from, lemma_first_match_from, lemma_first_match_split, match_at, EslBuffer, MAX_BUFFER_SIZE};
use crate::error::{owned, EslError};
use crate::event::opt_view;
use crate::headers::{lookup, HeaderMap};
use crate::numbers::{parse_u64, unsigned_value};
use crate::pct::{decode_value, decoded};
use crate::event::{event_type_named, upper_of, EslEvent, EslEventType, EventFormat};
use crate::text::{char_pos, chars_of, find_char, last_char_pos, rfind_char, str_eq, string_from, trim, trim_range};

verus! {

/// Largest body length a message may declare.
pub const MAX_MESSAGE_SIZE: usize = 8388608;

/// Kinds of protocol messages.
#[derive(Debug, Clone, PartialEq)]
pub enum MessageType {
    /// Authentication challenge.
    AuthRequest,
    /// Reply to a command.
    CommandReply,
    /// Response to an API call.
    ApiResponse,
    /// Event, in any of the three formats.
    Event,
    /// Disconnect notice.
    Disconnect,
    /// Any other content type.
    Unknown(String),
}

/// Whether `t` is the kind that content type `ct` gives.
pub open spec fn kind_of(t: MessageType, ct: Seq<char>) -> bool {
    if ct == "auth/request"@ {
        t is AuthRequest
    } else if ct == "command/reply"@ {
        t is CommandReply
    } else if ct == "api/response"@ {
        t is ApiResponse
    } else if ct == "text/event-plain"@ || ct == "text/event-json"@ || ct == "text/event-xml"@ {
        t is Event
    } else if ct == "text/disconnect-notice"@ {
        t is Disconnect
    } else {
        t matches MessageType::Unknown(s) && s@ == ct
    }
}

impl MessageType {
    /// Kind of a message with content type `content_type`.
    pub fn from_content_type(content_type: &str) -> (r: Self)
        ensures
            kind_of(r, content_type@),
    {
        if str_eq(content_type, "auth/request") {
            MessageType::AuthRequest
        } else if str_eq(content_type, "command/reply") {
            MessageType::CommandReply
        } else if str_eq(content_type, "api/response") {
            MessageType::ApiResponse
        } else if str_eq(content_type, "text/event-plain") || str_eq(content_type, "text/event-json")
            || str_eq(content_type, "text/event-xml") {
            MessageType::Event
        } else if str_eq(content_type, "text/disconnect-notice") {
            MessageType::Disconnect
        } else {
            MessageType::Unknown(owned(content_type))
        }
    }
}

/// Content type that headers declare, `unknown` when absent.
pub open spec fn content_type_of(h: Map<Seq<char>, Seq<char>>) -> Seq<char> {
    match lookup(h, "Content-Type"@) {
        Some(ct) => ct,
        None => "unknown"@,
    }
}

/// Whether a reply's headers acknowledge success: `Reply-Text` starts with
/// `+OK`, or is absent.
pub open spec fn reply_ok(h: Map<Seq<char>, Seq<char>>) -> bool {
    match lookup(h, "Reply-Text"@) {
        Some(v) => crate::text::has_prefix(v, "+OK"@),
        None => true,
    }
}

/// A framed message.
#[derive(Debug)]
pub struct EslMessage {
    /// Kind, from the content type.
    pub message_type: MessageType,
    /// Headers.
    pub headers: HeaderMap,
    /// Body, when one was framed.
    pub body: Option<String>,
}

impl EslMessage {
    /// A message of the given parts.
    pub fn new(message_type: MessageType, headers: HeaderMap, body: Option<String>) -> (r: Self)
        ensures
            r.message_type == message_type,
            r.headers@ == headers@,
            r.body == body,
    {
        EslMessage { message_type, headers, body }
    }

    /// Value of header `name`.
    pub fn header(&self, name: &str) -> (r: Option<&String>)
        ensures
            crate::event::opt_ref_view(r) == lookup(self.headers@, name@),
    {
        self.headers.get(name)
    }

    /// The message as a command reply.
    pub fn into_response(self) -> (r: crate::command::EslResponse)
        ensures
            r.headers_view() == self.headers@,
            r.body_view() == opt_view(self.body),
            r.success_view() == crate::command::reply_success(self.headers@),
    {
        crate::command::EslResponse::new(self.headers, self.body)
    }

    /// The message as an event, its headers and body taken as they are.
    pub fn into_event(self) -> (r: Result<EslEvent, EslError>)
        ensures
            !(self.message_type is Event) ==> r matches Err(EslError::ProtocolError { .. }),
            self.message_type is Event ==> (r matches Ok(e) && e.headers@ == self.headers@
                && e.body == self.body && e.event_type == kind_from(self.headers@)),
    {
        let is_event = match self.message_type {
            MessageType::Event => true,
            _ => false,
        };
        if !is_event {
            return Err(EslError::protocol_error("Message is not an event"));
        }
        let event_type = event_kind(&self.headers);
        Ok(EslEvent { event_type, headers: self.headers, body: self.body })
    }

    /// Whether the message acknowledges success.
    pub fn is_success(&self) -> (r: bool)
        ensures
            r == reply_ok(self.headers@),
    {
        match self.headers.get("Reply-Text") {
            Some(v) => {
                match crate::text::strip_prefix(v.as_str(), "+OK") {
                    Some(_) => true,
                    None => false,
                }
            },
            None => true,
        }
    }
}

/// Headers of a header block: one `Name: Value` per line, both sides trimmed,
/// blank lines skipped; a later line wins over an earlier one of the same
/// name. `None` when a non-blank line has no colon.
pub open spec fn header_lines(s: Seq<char>, acc: Map<Seq<char>, Seq<char>>, dec: bool) -> Option<Map<Seq<char>, Seq<char>>>
    decreases s.len(),
{
    let nl = char_pos(s, '\n');
    let line = match nl {
        Some(k) => s.take(k),
        None => s,
    };
    let t = trim(line);
    let next = if t.len() == 0 {
        Some(acc)
    } else {
        match char_pos(t, ':') {
            Some(c) => Some(acc.insert(trim(t.take(c)), value_as_read(trim(t.skip(c + 1)), dec))),
            None => None,
        }
    };
    match next {
        None => None,
        Some(a) => match nl {
            Some(k) => if 0 <= k < s.len() {
                header_lines(s.skip(k + 1), a, dec)
            } else {
                None
            },
            None => Some(a),
        },
    }
}

/// A header value as stored: percent-decoded when `dec` is set.
pub open spec fn value_as_read(v: Seq<char>, dec: bool) -> Seq<char> {
    if dec {
        decoded(v)
    } else {
        v
    }
}

/// Headers of a header block, if it is well formed.
pub open spec fn header_block(s: Seq<char>) -> Option<Map<Seq<char>, Seq<char>>> {
    header_lines(s, Map::empty(), false)
}

/// Headers of a header block with percent-decoded values.
pub open spec fn decoded_header_block(s: Seq<char>) -> Option<Map<Seq<char>, Seq<char>>> {
    header_lines(s, Map::empty(), true)
}

/// Parses a header block.
pub fn parse_headers(s: &str) -> (r: Result<HeaderMap, EslError>)
    ensures
        match header_block(s@) {
            Some(h) => r matches Ok(m) && m@ == h,
            None => r matches Err(EslError::InvalidHeader { .. }),
        },
{
    parse_header_text(s, false)
}

/// Parses a header block, percent-decoding the values when `dec` is set.
pub fn parse_header_text(s: &str, dec: bool) -> (r: Result<HeaderMap, EslError>)
    ensures
        match header_lines(s@, Map::empty(), dec) {
            Some(h) => r matches Ok(m) && m@ == h,
            None => r matches Err(EslError::InvalidHeader { .. }),
        },
{
    let v = chars_of(s);
    let mut headers = HeaderMap::new();
    let mut pos: usize = 0;
    assert(v@.skip(0) =~= v@);
    loop
        invariant
            pos <= v@.len(),
            v@ == s@,
            header_lines(v@, Map::empty(), dec) == header_lines(v@.skip(pos as int), headers@, dec),
        decreases v@.len() - pos,
    {
        let ghost rest = v@.skip(pos as int);
        let ghost acc = headers@;
        let nl = find_char(&v, '\n', pos, v.len());
        assert(v@.subrange(pos as int, v@.len() as int) =~= rest);
        let ghost line = if nl < v.len() { rest.take(nl - pos) } else { rest };
        assert(v@.subrange(pos as int, nl as int) =~= line);
        assert(char_pos(rest, '\n') == (if nl < v.len() { Some(nl - pos) } else { None::<int> }));
        let (a, b) = trim_range(&v, pos, nl);
        let ghost t = trim(line);
        assert(v@.subrange(a as int, b as int) == t);
        if a < b {
            let c = find_char(&v, ':', a, b);
            if c == b {
                assert(char_pos(t, ':') is None);
                assert(header_lines(rest, acc, dec) is None);
                return Err(EslError::InvalidHeader { header: string_from(&v, a, b) });
            }
            proof {
                crate::text::lemma_char_pos(t, ':');
                assert(t.take(c - a) =~= v@.subrange(a as int, c as int));
                assert(t.skip(c - a + 1) =~= v@.subrange(c + 1, b as int));
            }
            let (ka, kb) = trim_range(&v, a, c);
            let (va, vb) = trim_range(&v, c + 1, b);
            let raw = string_from(&v, va, vb);
            let value = if dec { decode_value(raw.as_str()) } else { raw };
            headers.insert(string_from(&v, ka, kb), value);
            assert(headers@ == acc.insert(trim(t.take(c - a)), value_as_read(trim(t.skip(c - a + 1)), dec)));
        } else {
            assert(t.len() == 0);
        }
        if nl == v.len() {
            assert(header_lines(rest, acc, dec) == Some(headers@));
            return Ok(headers);
        }
        assert(rest.skip(nl - pos + 1) =~= v@.skip(nl + 1));
        assert(header_lines(rest, acc, dec) == header_lines(v@.skip(nl + 1), headers@, dec));
        pos = nl + 1;
    }
}

/// Index of the first blank line (two newlines in a row) in `s`.
pub open spec fn blank_line_pos(s: Seq<char>) -> Option<int>
    decreases s.len(),
{
    if s.len() < 2 {
        None
    } else if s[0] == '\n' && s[1] == '\n' {
        Some(0)
    } else {
        match blank_line_pos(s.drop_first()) {
            Some(k) => Some(k + 1),
            None => None,
        }
    }
}

proof fn lemma_blank_line_pos_unique(s: Seq<char>, k: int)
    requires
        0 <= k,
        k + 1 < s.len() ==> s[k] == '\n' && s[k + 1] == '\n',
        k + 1 >= s.len() ==> k == s.len(),
        forall|j: int| 0 <= j < k && j + 1 < s.len() ==> !(#[trigger] s[j] == '\n' && s[j + 1] == '\n'),
    ensures
        blank_line_pos(s) == (if k < s.len() { Some(k) } else { None::<int> }),
    decreases s.len(),
{
    if s.len() >= 2 && !(s[0] == '\n' && s[1] == '\n') {
        assert forall|j: int| 0 <= j < k - 1 && j + 1 < s.drop_first().len() implies
            !(#[trigger] s.drop_first()[j] == '\n' && s.drop_first()[j + 1] == '\n') by {
            assert(s.drop_first()[j] == s[j + 1] && s.drop_first()[j + 1] == s[j + 2]);
        }
        lemma_blank_line_pos_unique(s.drop_first(), k - 1);
    } else if s.len() < 2 && k == 0 && s.len() == 1 {
    }
}

/// Index of the first blank line in `v`, or `v.len()`.
fn find_blank_line(v: &Vec<char>) -> (r: usize)
    ensures
        r <= v@.len(),
        blank_line_pos(v@) == (if r < v@.len() { Some(r as int) } else { None::<int> }),
        r < v@.len() ==> r + 1 < v@.len(),
{
    let mut i: usize = 0;
    while i < v.len() && i + 1 < v.len() && !(v[i] == '\n' && v[i + 1] == '\n')
        invariant
            i <= v@.len(),
            forall|j: int| 0 <= j < i && j + 1 < v@.len() ==> !(#[trigger] v@[j] == '\n' && v@[j + 1] == '\n'),
        decreases v@.len() - i,
    {
        i = i + 1;
    }
    if i < v.len() && i + 1 < v.len() {
        proof {
            lemma_blank_line_pos_unique(v@, i as int);
        }
        i
    } else {
        proof {
            lemma_blank_line_pos_unique(v@, v@.len() as int);
        }
        v.len()
    }
}

/// Kind named by the `Event-Name` header, compared case-insensitively.
pub open spec fn kind_from(h: Map<Seq<char>, Seq<char>>) -> Option<EslEventType> {
    match lookup(h, "Event-Name"@) {
        Some(n) => event_type_named(upper_of(n)),
        None => None,
    }
}

/// Headers of a plain event text: its header block, values percent-decoded.
pub open spec fn plain_event_headers(b: Seq<char>) -> Option<Map<Seq<char>, Seq<char>>> {
    decoded_header_block(match blank_line_pos(b) {
        Some(k) => b.take(k),
        None => b,
    })
}

/// Body of a plain event text: what follows the blank line, when the
/// headers declare a `Content-Length`.
pub open spec fn plain_event_body(b: Seq<char>, h: Map<Seq<char>, Seq<char>>) -> Option<Seq<char>> {
    match blank_line_pos(b) {
        Some(k) => if h.contains_key("Content-Length"@) {
            Some(b.skip(k + 2))
        } else {
            None
        },
        None => None,
    }
}

/// Headers with every value percent-decoded, inserted in the order given.
pub open spec fn decode_pairs(p: Seq<(Seq<char>, Seq<char>)>) -> Map<Seq<char>, Seq<char>>
    decreases p.len(),
{
    if p.len() == 0 {
        Map::empty()
    } else {
        decode_pairs(p.drop_last()).insert(p.last().0, decoded(p.last().1))
    }
}

/// Headers from pairs inserted in the order given.
pub open spec fn insert_pairs(p: Seq<(Seq<char>, Seq<char>)>) -> Map<Seq<char>, Seq<char>>
    decreases p.len(),
{
    if p.len() == 0 {
        Map::empty()
    } else {
        insert_pairs(p.drop_last()).insert(p.last().0, p.last().1)
    }
}

/// Fields of the JSON object that `s` holds: `None` when `s` is not JSON,
/// `Some(None)` when it is JSON but not an object; string values as they
/// are, other values in their JSON text.
pub uninterp spec fn json_fields(s: Seq<char>) -> Option<Option<Seq<(Seq<char>, Seq<char>)>>>;

/// Views of string pairs.
pub open spec fn pair_views(v: Seq<(String, String)>) -> Seq<(Seq<char>, Seq<char>)> {
    v.map_values(|e: (String, String)| (e.0@, e.1@))
}

/// Relies on `serde_json::from_str` into a `Value`, `Value::as_object`, and
/// `Value`'s `to_string` for values that are not strings.
#[verifier::external_body]
fn json_object_fields(s: &str) -> (r: Result<Option<Vec<(String, String)>>, String>)
    ensures
        r is Ok <==> json_fields(s@) is Some,
        r matches Ok(o) ==> json_fields(s@) == Some(match o {
            Some(v) => Some(pair_views(v@)),
            None => None::<Seq<(Seq<char>, Seq<char>)>>,
        }),
{
    match serde_json::from_str::<serde_json::Value>(s) {
        Ok(v) => Ok(v.as_object().map(|o| {
            o.iter().map(|(k, x)| match x {
                serde_json::Value::String(t) => (k.clone(), t.clone()),
                other => (k.clone(), other.to_string()),
            }).collect()
        })),
        Err(e) => Err(e.to_string()),
    }
}

/// The `key="value"` pair of an XML line, if it has one: the key runs from
/// after `<` to the first `=`, the value between the first and last `"`.
pub open spec fn xml_attribute(t: Seq<char>) -> Option<(Seq<char>, Seq<char>)> {
    if t.len() > 0 && t[0] == '<' && t.last() == '>' && char_pos(t, '=') is Some {
        let eq = char_pos(t, '=')->0;
        match (char_pos(t, '"'), last_char_pos(t, '"')) {
            (Some(a), Some(b)) => if a != b {
                Some((trim(t.subrange(1, eq)), t.subrange(a + 1, b)))
            } else {
                None
            },
            _ => None,
        }
    } else {
        None
    }
}

/// Attributes found line by line in XML text; a later one wins.
pub open spec fn xml_lines(s: Seq<char>, acc: Map<Seq<char>, Seq<char>>) -> Map<Seq<char>, Seq<char>>
    decreases s.len(),
{
    let nl = char_pos(s, '\n');
    let line = match nl {
        Some(k) => s.take(k),
        None => s,
    };
    let next = match xml_attribute(trim(line)) {
        Some((k, v)) => acc.insert(k, v),
        None => acc,
    };
    match nl {
        Some(k) => if 0 <= k < s.len() {
            xml_lines(s.skip(k + 1), next)
        } else {
            next
        },
        None => next,
    }
}

/// Percent-decodes every value of `h`.
fn decode_headers(h: &HeaderMap) -> (r: HeaderMap)
    ensures
        r@ == decode_pairs(h.pairs()),
{
    let entries = h.entries();
    let mut out = HeaderMap::new();
    let mut i: usize = 0;
    while i < entries.len()
        invariant
            i <= entries@.len(),
            entries@.len() == h.pairs().len(),
            forall|j: int| 0 <= j < entries@.len() ==> (#[trigger] entries@[j]).0@ == h.pairs()[j].0
                && entries@[j].1@ == h.pairs()[j].1,
            out@ == decode_pairs(h.pairs().take(i as int)),
        decreases entries@.len() - i,
    {
        out.insert(entries[i].0.clone(), decode_value(entries[i].1.as_str()));
        assert(h.pairs().take(i + 1).drop_last() =~= h.pairs().take(i as int));
        i = i + 1;
    }
    assert(h.pairs().take(i as int) =~= h.pairs());
    out
}

/// Headers from JSON object fields: the pairs inserted in order.
pub fn insert_all(fields: Vec<(String, String)>) -> (r: HeaderMap)
    ensures
        r@ == insert_pairs(pair_views(fields@)),
{
    let mut out = HeaderMap::new();
    let ghost p = pair_views(fields@);
    let mut i: usize = 0;
    while i < fields.len()
        invariant
            i <= fields@.len(),
            p == pair_views(fields@),
            out@ == insert_pairs(p.take(i as int)),
        decreases fields@.len() - i,
    {
        out.insert(fields[i].0.clone(), fields[i].1.clone());
        assert(p.take(i + 1).drop_last() =~= p.take(i as int));
        i = i + 1;
    }
    assert(p.take(i as int) =~= p);
    out
}

/// Attributes found in XML text.
fn xml_headers(body: &str) -> (r: HeaderMap)
    ensures
        r@ == xml_lines(body@, Map::empty()),
{
    let v = chars_of(body);
    let mut headers = HeaderMap::new();
    let mut pos: usize = 0;
    assert(v@.skip(0) =~= v@);
    loop
        invariant
            pos <= v@.len(),
            v@ == body@,
            xml_lines(v@, Map::empty()) == xml_lines(v@.skip(pos as int), headers@),
        decreases v@.len() - pos,
    {
        let ghost rest = v@.skip(pos as int);
        let ghost acc = headers@;
        let nl = find_char(&v, '\n', pos, v.len());
        assert(v@.subrange(pos as int, v@.len() as int) =~= rest);
        let ghost line = if nl < v.len() { rest.take(nl - pos) } else { rest };
        assert(v@.subrange(pos as int, nl as int) =~= line);
        let (a, b) = trim_range(&v, pos, nl);
        let ghost t = trim(line);
        assert(v@.subrange(a as int, b as int) == t);
        if a < b && v[a] == '<' && v[b - 1] == '>' {
            assert(t[0] == v@[a as int] && t.last() == v@[b - 1]);
            let eq = find_char(&v, '=', a, b);
            let q1 = find_char(&v, '"', a, b);
            let q2 = rfind_char(&v, '"', a, b);
            proof {
                crate::text::lemma_char_pos(t, '=');
                crate::text::lemma_char_pos(t, '"');
                crate::text::lemma_last_char_pos(t, '"');
                assert(t[0] == v@[a as int] && t.last() == v@[b - 1]);
            }
            if eq < b && q1 < b && q1 != q2 {
                proof {
                    assert(q1 < q2);
                    assert(t.subrange(1, eq - a) =~= v@.subrange(a + 1, eq as int));
                    assert(t.subrange(q1 - a + 1, q2 - a) =~= v@.subrange(q1 + 1, q2 as int));
                }
                let (ka, kb) = trim_range(&v, a + 1, eq);
                headers.insert(string_from(&v, ka, kb), string_from(&v, q1 + 1, q2));
            }
        }
        assert(a < b && v@[a as int] == '<' && v@[b - 1] == '>' ==> t.len() > 0 && t[0] == '<' && t.last() == '>');
        assert(a < b ==> t[0] == v@[a as int] && t.last() == v@[b - 1]);
        assert(headers@ == match xml_attribute(t) {
            Some((k, x)) => acc.insert(k, x),
            None => acc,
        });
        if nl == v.len() {
            return headers;
        }
        assert(rest.skip(nl - pos + 1) =~= v@.skip(nl + 1));
        pos = nl + 1;
    }
}

/// Kind named by the `Event-Name` header.
fn event_kind(h: &HeaderMap) -> (r: Option<EslEventType>)
    ensures
        r == kind_from(h@),
{
    match h.get("Event-Name") {
        Some(n) => EslEventType::parse_event_type(n.as_str()),
        None => None,
    }
}

/// Whether `r` is what parsing a message of the given parts as an event in
/// `format` calls for.
pub open spec fn event_outcome(
    is_event: bool,
    headers: HeaderMap,
    body: Option<Seq<char>>,
    format: EventFormat,
    r: Result<EslEvent, EslError>,
) -> bool {
    match format {
        EventFormat::Plain => if !is_event {
            r matches Err(EslError::ProtocolError { .. })
        } else {
            match body {
                Some(b) => if content_type_of(headers@) == "text/event-plain"@ {
                    match plain_event_headers(b) {
                        None => r matches Err(EslError::InvalidHeader { .. }),
                        Some(h) => r matches Ok(e) && e.headers@ == h && opt_view(e.body) == plain_event_body(b, h)
                            && e.event_type == kind_from(h),
                    }
                } else {
                    r matches Ok(e) && e.headers@ == decode_pairs(headers.pairs()) && opt_view(e.body) == Some(b)
                        && e.event_type == kind_from(e.headers@)
                },
                None => r matches Ok(e) && e.headers@ == decode_pairs(headers.pairs()) && e.body is None
                    && e.event_type == kind_from(e.headers@),
            }
        },
        EventFormat::Json => match body {
            None => r matches Err(EslError::ProtocolError { .. }),
            Some(b) => match json_fields(b) {
                None => r matches Err(EslError::JsonError { .. }),
                Some(None) => r matches Ok(e) && e.headers@ == Map::<Seq<char>, Seq<char>>::empty()
                    && e.body is None && e.event_type is None,
                Some(Some(fs)) => r matches Ok(e) && e.headers@ == insert_pairs(fs) && e.body is None
                    && e.event_type == kind_from(e.headers@),
            },
        },
        EventFormat::Xml => match body {
            None => r matches Err(EslError::ProtocolError { .. }),
            Some(b) => r matches Ok(e) && e.headers@ == xml_lines(b, Map::empty()) && e.body is None
                && e.event_type == kind_from(e.headers@),
        },
    }
}

/// Parses a plain event text: header block with percent-decoded values, then
/// the body when the headers declare one.
fn parse_plain_text(b: &str) -> (r: Result<EslEvent, EslError>)
    ensures
        match plain_event_headers(b@) {
            None => r matches Err(EslError::InvalidHeader { .. }),
            Some(h) => r matches Ok(e) && e.headers@ == h && opt_view(e.body) == plain_event_body(b@, h)
                && e.event_type == kind_from(h),
        },
{
    let v = chars_of(b);
    let k = find_blank_line(&v);
    let head = string_from(&v, 0, k);
    assert(v@.subrange(0, k as int) =~= (if k < v@.len() { v@.take(k as int) } else { v@ }));
    let headers = match parse_header_text(head.as_str(), true) {
        Ok(h) => h,
        Err(e) => return Err(e),
    };
    let body = if k < v.len() && headers.contains_key("Content-Length") {
        assert(v@.subrange(k + 2, v@.len() as int) =~= v@.skip(k + 2));
        Some(string_from(&v, k + 2, v.len()))
    } else {
        None
    };
    let event_type = event_kind(&headers);
    Ok(EslEvent { event_type, headers, body })
}

/// Relies on `String::from_utf8`: succeeds exactly on UTF-8 bytes, giving
/// the characters they encode.
#[verifier::external_body]
pub(crate) fn string_from_utf8(b: Vec<u8>) -> (r: Option<String>)
    ensures
        r is Some <==> valid_utf8(b@),
        r matches Some(s) ==> s@ == decode_utf8(b@),
{
    String::from_utf8(b).ok()
}

/// The blank line that ends a header block.
pub open spec fn terminator() -> Seq<u8> {
    seq![10u8, 10u8]
}

/// What the bytes received since the last message hold.
pub enum Frame {
    /// More bytes are needed.
    Incomplete,
    /// A message with these headers and body, taking the first `used` bytes.
    Complete { headers: Map<Seq<char>, Seq<char>>, body: Option<Seq<char>>, used: nat },
    /// The header block is not UTF-8.
    HeadersNotUtf8,
    /// A header line has no colon.
    MalformedHeader,
    /// `Content-Length` is not a decimal number that fits in `usize`.
    BadLength,
    /// `Content-Length` is above the per-message cap.
    TooLarge,
    /// The body is not UTF-8.
    BodyNotUtf8,
}

/// The first message that the bytes `f` frame.
pub open spec fn first_frame(f: Seq<u8>) -> Frame {
    match first_match(f, terminator()) {
        None => Frame::Incomplete,
        Some(p) => {
            let hb = f.take(p);
            if !valid_utf8(hb) {
                Frame::HeadersNotUtf8
            } else {
                match header_block(decode_utf8(hb)) {
                    None => Frame::MalformedHeader,
                    Some(h) => match lookup(h, "Content-Length"@) {
                        None => Frame::Complete { headers: h, body: None, used: (p + 2) as nat },
                        Some(cl) => match unsigned_value(trim(cl)) {
                            None => Frame::BadLength,
                            Some(n) => if n > usize::MAX {
                                Frame::BadLength
                            } else if n > MAX_MESSAGE_SIZE {
                                Frame::TooLarge
                            } else if n == 0 {
                                Frame::Complete { headers: h, body: None, used: (p + 2) as nat }
                            } else if f.len() < p + 2 + n {
                                Frame::Incomplete
                            } else if valid_utf8(f.subrange(p + 2, p + 2 + n)) {
                                Frame::Complete {
                                    headers: h,
                                    body: Some(decode_utf8(f.subrange(p + 2, p + 2 + n))),
                                    used: (p + 2 + n) as nat,
                                }
                            } else {
                                Frame::BodyNotUtf8
                            },
                        },
                    },
                }
            }
        },
    }
}

/// Whether result `r` is what frame `fr` calls for.
pub open spec fn frame_outcome(fr: Frame, r: Result<Option<EslMessage>, EslError>) -> bool {
    match fr {
        Frame::Incomplete => r matches Ok(None),
        Frame::Complete { headers, body, used } => r matches Ok(Some(m)) && m.headers@ == headers
            && opt_view(m.body) == body && kind_of(m.message_type, content_type_of(headers)),
        Frame::HeadersNotUtf8 => r matches Err(EslError::ProtocolError { .. }),
        Frame::MalformedHeader => r matches Err(EslError::InvalidHeader { .. }),
        Frame::BadLength => r matches Err(EslError::InvalidHeader { .. }),
        Frame::TooLarge => r matches Err(EslError::ProtocolError { .. }),
        Frame::BodyNotUtf8 => r matches Err(EslError::ProtocolError { .. }),
    }
}

impl Default for EslParser {
    fn default() -> (r: Self)
        ensures
            r.wf(),
            r.fed() == Seq::<u8>::empty(),
    {
        EslParser::new()
    }
}

/// Partial-message reassembly: the bytes of a complete message frame
/// nothing while any of them is missing, however they are split, and bytes
/// that follow the message do not change what it frames.
pub proof fn lemma_reassembly(m: Seq<u8>, k: int, extra: Seq<u8>)
    requires
        first_frame(m) matches Frame::Complete { used, .. } && used == m.len(),
        0 <= k < m.len(),
    ensures
        first_frame(m.take(k)) is Incomplete,
        first_frame(m + extra) == first_frame(m),
{
    let t = terminator();
    assert(first_match(m, t) is Some);
    let p = first_match(m, t)->0;
    lemma_first_match_from(m, t, 0);
    let hb = m.take(p);
    assert(valid_utf8(hb));
    let h = header_block(decode_utf8(hb))->0;
    assert(header_block(decode_utf8(hb)) == Some(h));
    let a = m.take(k);
    let b = m.skip(k);
    assert(m =~= a + b);
    lemma_first_match_split(a, b, t, 0);
    if p + 2 <= k {
        assert(first_match(a, t) == Some(p));
        assert(a.take(p) =~= hb);
        match lookup(h, "Content-Length"@) {
            None => {
                assert(false);
            },
            Some(cl) => {
                assert(unsigned_value(trim(cl)) is Some);
                let n = unsigned_value(trim(cl))->0;
                crate::numbers::lemma_unsigned_value_nonneg(trim(cl));
                if n == 0 {
                    assert(first_frame(m) == Frame::Complete { headers: h, body: None, used: (p + 2) as nat });
                    assert(false);
                }
                assert(a.len() < p + 2 + n) by {
                    lemma_complete_length(m, p, h, n);
                }
            },
        }
        assert(first_frame(a) is Incomplete);
    } else {
        assert(first_match(a, t) is None);
    }
    lemma_first_match_split(m, extra, t, 0);
    let me = m + extra;
    assert(first_match(me, t) == Some(p));
    assert(me.take(p) =~= hb);
    match lookup(h, "Content-Length"@) {
        None => {},
        Some(cl) => {
            assert(unsigned_value(trim(cl)) is Some);
            let n = unsigned_value(trim(cl))->0;
            crate::numbers::lemma_unsigned_value_nonneg(trim(cl));
            if 0 < n {
                lemma_complete_length(m, p, h, n);
                assert(me.len() >= p + 2 + n);
                assert(me.subrange(p + 2, p + 2 + n) =~= m.subrange(p + 2, p + 2 + n));
            }
        },
    }
}

/// Shape of a complete frame whose header block declares a body.
proof fn lemma_complete_length(m: Seq<u8>, p: int, h: Map<Seq<char>, Seq<char>>, n: int)
    requires
        first_frame(m) is Complete,
        first_match(m, terminator()) == Some(p),
        header_block(decode_utf8(m.take(p))) == Some(h),
        lookup(h, "Content-Length"@) matches Some(cl) && unsigned_value(trim(cl)) == Some(n),
        0 < n,
    ensures
        m.len() >= p + 2 + n,
        valid_utf8(m.subrange(p + 2, p + 2 + n)),
        first_frame(m) == (Frame::Complete {
            headers: h,
            body: Some(decode_utf8(m.subrange(p + 2, p + 2 + n))),
            used: (p + 2 + n) as nat,
        }),
{
}

enum ParseState {
    WaitingForHeaders,
    WaitingForBody { message_type: MessageType, headers: HeaderMap, body_length: usize },
}

/// Incremental parser: bytes in, framed messages out.
pub struct EslParser {
    buffer: EslBuffer,
    state: ParseState,
    header_bytes: Ghost<Seq<u8>>,
}

impl EslParser {
    /// Bytes received since the last message was handed out.
    pub closed spec fn fed(&self) -> Seq<u8> {
        match self.state {
            ParseState::WaitingForHeaders => self.buffer@,
            ParseState::WaitingForBody { .. } => self.header_bytes@ + self.buffer@,
        }
    }

    pub closed spec fn wf(&self) -> bool {
        &&& self.buffer.wf()
        &&& self.buffer.consumed() == 0
        &&& self.buffer.held().len() <= MAX_BUFFER_SIZE
        &&& match self.state {
            ParseState::WaitingForHeaders => true,
            ParseState::WaitingForBody { message_type, headers, body_length } => {
                let hb = self.header_bytes@;
                let p = hb.len() - 2;
                &&& hb.len() >= 2
                &&& first_match(hb, terminator()) == Some(p)
                &&& valid_utf8(hb.take(p))
                &&& header_block(decode_utf8(hb.take(p))) == Some(headers@)
                &&& lookup(headers@, "Content-Length"@) matches Some(cl)
                &&& unsigned_value(trim(cl)) == Some(body_length as int)
                &&& 0 < body_length <= MAX_MESSAGE_SIZE
                &&& kind_of(message_type, content_type_of(headers@))
            },
        }
    }

    /// A parser with nothing received.
    pub fn new() -> (r: Self)
        ensures
            r.wf(),
            r.fed() == Seq::<u8>::empty(),
            r.pending_len() == 0,
    {
        EslParser { buffer: EslBuffer::new(), state: ParseState::WaitingForHeaders, header_bytes: Ghost(Seq::empty()) }
    }

    /// Appends received bytes; fails when the buffer would exceed its ceiling.
    pub fn add_data(&mut self, data: &[u8]) -> (r: Result<(), EslError>)
        requires
            old(self).wf(),
        ensures
            final(self).wf(),
            r is Ok <==> old(self).pending_len() + data@.len() <= MAX_BUFFER_SIZE,
            r is Ok ==> final(self).fed() == old(self).fed() + data@
                && final(self).pending_len() == old(self).pending_len() + data@.len(),
            r matches Err(e) ==> (e matches EslError::BufferOverflow { size, limit } && limit == MAX_BUFFER_SIZE
                && size > limit),
            r is Err ==> final(self).fed() == old(self).fed() && final(self).pending_len() == old(self).pending_len(),
    {
        let held = self.buffer.len();
        proof { self.buffer.lemma_nothing_consumed(); }
        if data.len() > MAX_BUFFER_SIZE - held {
            assert(held + data.len() > MAX_BUFFER_SIZE);
            let size = if data.len() > usize::MAX - held { usize::MAX } else { held + data.len() };
            return Err(EslError::BufferOverflow { size, limit: MAX_BUFFER_SIZE });
        }
        self.buffer.extend_from_slice(data);
        proof { self.buffer.lemma_nothing_consumed(); }
        assert(self.fed() =~= old(self).fed() + data@);
        Ok(())
    }

    /// Tries to frame one message from the bytes received. `None` means more
    /// bytes are needed; the outcome depends on the received bytes alone.
    pub fn parse_message(&mut self) -> (r: Result<Option<EslMessage>, EslError>)
        requires
            old(self).wf(),
        ensures
            final(self).wf(),
            frame_outcome(first_frame(old(self).fed()), r),
            r matches Ok(None) ==> final(self).fed() == old(self).fed(),
            first_frame(old(self).fed()) matches Frame::Complete { used, .. }
                ==> final(self).fed() == old(self).fed().skip(used as int),
            first_frame(old(self).fed()) is Complete ==> final(self).pending_len() == final(self).fed().len(),
            final(self).pending_len() <= old(self).pending_len(),
            final(self).pending_len() <= final(self).fed().len(),
    {
        let waiting = match self.state {
            ParseState::WaitingForHeaders => true,
            ParseState::WaitingForBody { .. } => false,
        };
        if waiting {
            self.parse_header_step()
        } else {
            self.parse_body_step()
        }
    }

    fn parse_header_step(&mut self) -> (r: Result<Option<EslMessage>, EslError>)
        requires
            old(self).wf(),
            old(self).state is WaitingForHeaders,
        ensures
            final(self).wf(),
            frame_outcome(first_frame(old(self).fed()), r),
            r matches Ok(None) ==> final(self).fed() == old(self).fed(),
            first_frame(old(self).fed()) matches Frame::Complete { used, .. }
                ==> final(self).fed() == old(self).fed().skip(used as int),
            first_frame(old(self).fed()) is Complete ==> final(self).pending_len() == final(self).fed().len(),
            final(self).pending_len() <= old(self).pending_len(),
            final(self).pending_len() <= final(self).fed().len(),
    {
        let ghost f = self.fed();
        proof {
            self.buffer.lemma_nothing_consumed();
        }
        let term: Vec<u8> = vec![10u8, 10u8];
        assert(term@ =~= terminator());
        let hb = match self.buffer.extract_until_pattern(term.as_slice()) {
            None => return Ok(None),
            Some(hb) => hb,
        };
        self.buffer.compact();
        let ghost p = first_match(f, terminator())->0;
        proof {
            lemma_first_match_from(f, terminator(), 0);
            self.buffer.lemma_nothing_consumed();
        }
        let ghost hbytes = f.take(p + 2);
        let hs = match string_from_utf8(hb) {
            None => return Err(EslError::protocol_error("Invalid UTF-8 in headers")),
            Some(hs) => hs,
        };
        let headers = match parse_headers(hs.as_str()) {
            Ok(h) => h,
            Err(e) => return Err(e),
        };
        let message_type = match headers.get("Content-Type") {
            Some(ct) => MessageType::from_content_type(ct.as_str()),
            None => MessageType::from_content_type("unknown"),
        };
        let length = match headers.get("Content-Length") {
            None => return Ok(Some(EslMessage::new(message_type, headers, None))),
            Some(cl) => {
                let c = chars_of(cl.as_str());
                let (a, b) = trim_range(&c, 0, c.len());
                assert(c@.subrange(0, c@.len() as int) =~= c@);
                match parse_u64(&c, a, b) {
                    None => {
                        let mut text = String::from_str("Content-Length: ");
                        text.append(cl.as_str());
                        return Err(EslError::InvalidHeader { header: text });
                    },
                    Some(n) => {
                        let limit = usize::MAX as u64;
                        assert(limit == usize::MAX);
                        if n > limit {
                            assert(c@.subrange(a as int, b as int) == trim(cl@));
                            assert(unsigned_value(trim(cl@)) == Some(n as int));
                            let mut text = String::from_str("Content-Length: ");
                            text.append(cl.as_str());
                            return Err(EslError::InvalidHeader { header: text });
                        }
                        n as usize
                    },
                }
            },
        };
        if length > MAX_MESSAGE_SIZE {
            return Err(EslError::protocol_error("Message too large: Content-Length exceeds the per-message limit"));
        }
        if length == 0 {
            return Ok(Some(EslMessage::new(message_type, headers, None)));
        }
        proof {
            assert(f =~= hbytes + self.buffer@);
            lemma_first_match_split(hbytes, self.buffer@, terminator(), 0);
            assert(hbytes.take(p) =~= f.take(p));
        }
        self.state = ParseState::WaitingForBody { message_type, headers, body_length: length };
        self.header_bytes = Ghost(hbytes);
        assert(self.fed() =~= f);
        self.parse_body_step()
    }

    fn parse_body_step(&mut self) -> (r: Result<Option<EslMessage>, EslError>)
        requires
            old(self).wf(),
            old(self).state is WaitingForBody,
        ensures
            final(self).wf(),
            frame_outcome(first_frame(old(self).fed()), r),
            r matches Ok(None) ==> final(self).fed() == old(self).fed(),
            first_frame(old(self).fed()) matches Frame::Complete { used, .. }
                ==> final(self).fed() == old(self).fed().skip(used as int),
            first_frame(old(self).fed()) is Complete ==> final(self).pending_len() == final(self).fed().len(),
            final(self).pending_len() <= old(self).pending_len(),
            final(self).pending_len() <= final(self).fed().len(),
    {
        let ghost f = self.fed();
        let ghost hb = self.header_bytes@;
        let ghost rest = self.buffer@;
        let ghost p = hb.len() - 2;
        proof {
            self.buffer.lemma_nothing_consumed();
            lemma_first_match_split(hb, rest, terminator(), 0);
            assert(f.take(p) =~= hb.take(p));
        }
        let n = match &self.state {
            ParseState::WaitingForBody { body_length, .. } => *body_length,
            ParseState::WaitingForHeaders => 0,
        };
        let bb = match self.buffer.extract_bytes(n) {
            None => return Ok(None),
            Some(bb) => bb,
        };
        self.buffer.compact();
        proof {
            self.buffer.lemma_nothing_consumed();
            assert(f.subrange(p + 2, p + 2 + n) =~= rest.take(n as int));
            assert(f.skip(p + 2 + n) =~= rest.skip(n as int));
        }
        let mut st = ParseState::WaitingForHeaders;
        std::mem::swap(&mut st, &mut self.state);
        self.header_bytes = Ghost(Seq::empty());
        match st {
            ParseState::WaitingForBody { message_type, headers, .. } => {
                match string_from_utf8(bb) {
                    None => Err(EslError::protocol_error("Invalid UTF-8 in body")),
                    Some(body) => Ok(Some(EslMessage::new(message_type, headers, Some(body)))),
                }
            },
            ParseState::WaitingForHeaders => Ok(None),
        }
    }

    /// Parses a header block.
    pub fn parse_headers(&self, headers_str: &str) -> (r: Result<HeaderMap, EslError>)
        ensures
            match header_block(headers_str@) {
                Some(h) => r matches Ok(m) && m@ == h,
                None => r matches Err(EslError::InvalidHeader { .. }),
            },
    {
        parse_headers(headers_str)
    }

    /// Parses a framed message as an event in the given format. Plain
    /// events (`text/event-plain`) carry their percent-encoded headers in
    /// the body; other plain messages, such as log data, keep their own
    /// headers, percent-decoded, and their body; JSON events hold an object whose
    /// fields become headers; XML events are read by a line-based scan for
    /// `key="value"` attributes, which is not a full XML parser.
    pub fn parse_event(&self, message: EslMessage, format: EventFormat) -> (r: Result<EslEvent, EslError>)
        ensures
            event_outcome(message.message_type is Event, message.headers, opt_view(message.body), format, r),
    {
        match format {
            EventFormat::Plain => {
                let is_event = match message.message_type {
                    MessageType::Event => true,
                    _ => false,
                };
                if !is_event {
                    return Err(EslError::protocol_error("Not an event message"));
                }
                let two_part = match message.headers.get("Content-Type") {
                    Some(ct) => str_eq(ct.as_str(), "text/event-plain"),
                    None => {
                        proof {
                            reveal_strlit("unknown");
                            reveal_strlit("text/event-plain");
                            assert("unknown"@[0] != "text/event-plain"@[0]);
                        }
                        false
                    },
                };
                match message.body {
                    Some(b) => {
                        if two_part {
                            parse_plain_text(b.as_str())
                        } else {
                            let headers = decode_headers(&message.headers);
                            let event_type = event_kind(&headers);
                            Ok(EslEvent { event_type, headers, body: Some(b) })
                        }
                    },
                    None => {
                        let headers = decode_headers(&message.headers);
                        let event_type = event_kind(&headers);
                        Ok(EslEvent { event_type, headers, body: None })
                    },
                }
            },
            EventFormat::Json => {
                let body = match &message.body {
                    Some(b) => b,
                    None => return Err(EslError::protocol_error("JSON event missing body")),
                };
                match json_object_fields(body.as_str()) {
                    Err(text) => Err(EslError::JsonError { message: text }),
                    Ok(None) => Ok(EslEvent::new()),
                    Ok(Some(fields)) => {
                        let headers = insert_all(fields);
                        let event_type = event_kind(&headers);
                        Ok(EslEvent { event_type, headers, body: None })
                    },
                }
            },
            EventFormat::Xml => {
                let body = match &message.body {
                    Some(b) => b,
                    None => return Err(EslError::protocol_error("XML event missing body")),
                };
                let headers = xml_headers(body.as_str());
                let event_type = event_kind(&headers);
                Ok(EslEvent { event_type, headers, body: None })
            },
        }
    }

    /// Number of buffered bytes not yet framed into headers.
    pub closed spec fn pending_len(&self) -> nat {
        self.buffer@.len()
    }

    /// The buffered bytes are the tail of what was received since the last
    /// message; between messages they are all of it.
    pub proof fn lemma_pending(&self)
        requires
            self.wf(),
        ensures
            self.pending_len() <= self.fed().len(),
            self.fed().len() == 0 ==> self.pending_len() == 0,
    {
    }

    /// Number of buffered bytes not yet framed into headers.
    pub fn buffer_len(&self) -> (r: usize)
        requires
            self.wf(),
        ensures
            r == self.pending_len(),
    {
        self.buffer.len()
    }

    /// Drops consumed bytes from the buffer; nothing received is lost.
    pub fn compact_buffer(&mut self)
        requires
            old(self).wf(),
        ensures
            final(self).wf(),
            final(self).fed() == old(self).fed(),
    {
        proof {
            self.buffer.lemma_nothing_consumed();
        }
        self.buffer.compact();
    }

    /// Drops every buffered byte.
    pub fn clear_buffer(&mut self)
        requires
            old(self).wf(),
        ensures
            final(self).wf(),
            final(self).pending_len() == 0,
    {
        self.buffer.clear();
    }
}

} // verus!
