//! The `originate` command: quote-aware tokenizing, channel variable blocks,
//! endpoints, application lists, and the whole descriptor in both directions.

use indexmap::IndexMap;
use vstd::prelude::*;

use crate::error::owned;
use crate::numbers::{decimal, decimal_string, parse_u64, unsigned_value};
use crate::text::{
    char_pos, chars_of, find_char, has_prefix, is_ws, push_char, str_eq, string_from, strip_prefix, trim,
    trim_range,
};

verus! {

/// Errors of the originate builder and parser.
#[derive(Debug, Clone, PartialEq, Eq)]
pub enum OriginateError {
    /// A single quote is never closed; holds the text from the open quote on.
    UnclosedQuote(String),
    /// More than one application for a dialplan that takes one.
    TooManyApplications,
    /// Any other malformed input.
    ParseError(String),
}

fn parse_error(message: &str) -> (r: OriginateError)
    ensures
        r is ParseError,
{
    OriginateError::ParseError(owned(message))
}

/// `s` with each single quote preceded by a backslash.
pub open spec fn escape_quotes(s: Seq<char>) -> Seq<char>
    decreases s.len(),
{
    if s.len() == 0 {
        Seq::empty()
    } else {
        escape_quotes(s.drop_last()) + if s.last() == '\'' { seq!['\\', '\''] } else { seq![s.last()] }
    }
}

/// Wraps a token that holds a space in single quotes, escaping the quotes
/// inside; other tokens stay as they are.
pub open spec fn quoted(s: Seq<char>) -> Seq<char> {
    if s.contains(' ') {
        seq!['\''] + escape_quotes(s) + seq!['\'']
    } else {
        s
    }
}

/// `s` with each `\'` turned into `'`, scanning left to right.
pub open spec fn unescape_quotes(s: Seq<char>) -> Seq<char>
    decreases s.len(),
{
    if s.len() == 0 {
        Seq::empty()
    } else if s.len() >= 2 && s[0] == '\\' && s[1] == '\'' {
        seq!['\''] + unescape_quotes(s.skip(2))
    } else {
        seq![s[0]] + unescape_quotes(s.drop_first())
    }
}

/// Whether `s` is wrapped in single quotes.
pub open spec fn wrapped(s: Seq<char>) -> bool {
    s.len() >= 2 && s[0] == '\'' && s.last() == '\''
}

/// Inverse of `quoted`: strips wrapping quotes and unescapes the inner ones.
pub open spec fn unquoted(s: Seq<char>) -> Seq<char> {
    if wrapped(s) {
        unescape_quotes(s.subrange(1, s.len() - 1))
    } else {
        s
    }
}

/// Wraps `token` in single quotes when it holds a space.
pub fn originate_quote(token: &str) -> (r: String)
    ensures
        r@ == quoted(token@),
{
    let v = chars_of(token);
    let sp = find_char(&v, ' ', 0, v.len());
    proof {
        assert(v@.subrange(0, v@.len() as int) =~= v@);
        crate::text::lemma_char_pos(v@, ' ');
    }
    if sp == v.len() {
        return owned(token);
    }
    let mut r = String::new();
    push_char(&mut r, '\'');
    let mut i: usize = 0;
    while i < v.len()
        invariant
            i <= v@.len(),
            r@ == seq!['\''] + escape_quotes(v@.take(i as int)),
        decreases v@.len() - i,
    {
        if v[i] == '\'' {
            push_char(&mut r, '\\');
        }
        push_char(&mut r, v[i]);
        assert(v@.take(i + 1).drop_last() =~= v@.take(i as int));
        i = i + 1;
        assert(r@ =~= seq!['\''] + escape_quotes(v@.take(i as int)));
    }
    assert(v@.take(i as int) =~= v@);
    push_char(&mut r, '\'');
    r
}

/// `v[lo..hi]` with each `\'` turned into `'`.
fn unescape_range(v: &Vec<char>, lo: usize, hi: usize) -> (r: String)
    requires
        lo <= hi <= v@.len(),
    ensures
        r@ == unescape_quotes(v@.subrange(lo as int, hi as int)),
{
    let mut r = String::new();
    let mut i = lo;
    while i < hi
        invariant
            lo <= i <= hi <= v@.len(),
            unescape_quotes(v@.subrange(lo as int, hi as int)) == r@ + unescape_quotes(v@.subrange(i as int, hi as int)),
        decreases hi - i,
    {
        let ghost s = v@.subrange(i as int, hi as int);
        if i + 1 < hi && v[i] == '\\' && v[i + 1] == '\'' {
            assert(s.skip(2) =~= v@.subrange(i + 2, hi as int));
            push_char(&mut r, '\'');
            i = i + 2;
        } else {
            assert(s.drop_first() =~= v@.subrange(i + 1, hi as int));
            push_char(&mut r, v[i]);
            i = i + 1;
        }
    }
    assert(v@.subrange(i as int, hi as int) =~= Seq::<char>::empty());
    r
}

/// Strips the single quotes that `originate_quote` adds.
pub fn originate_unquote(token: &str) -> (r: String)
    ensures
        r@ == unquoted(token@),
{
    let v = chars_of(token);
    if v.len() >= 2 && v[0] == '\'' && v[v.len() - 1] == '\'' {
        unescape_range(&v, 1, v.len() - 1)
    } else {
        owned(token)
    }
}

/// State of the quote-aware tokenizer after the characters before `i`:
/// tokens so far, the token being read, and whether a quote is open.
pub open spec fn split_from(
    s: Seq<char>,
    sep: char,
    i: int,
    tokens: Seq<Seq<char>>,
    token: Seq<char>,
    q: bool,
) -> (Seq<Seq<char>>, Seq<char>, bool)
    decreases s.len() - i,
{
    if i < 0 || i >= s.len() {
        (tokens, token, q)
    } else {
        let ch = s[i];
        if ch == sep && !q && trim(token).len() > 0 {
            split_from(s, sep, i + 1, tokens.push(trim(token)), Seq::empty(), q)
        } else {
            let q2 = if ch == '\'' && !(i > 0 && s[i - 1] == '\\') { !q } else { q };
            split_from(s, sep, i + 1, tokens, token.push(ch), q2)
        }
    }
}

/// Tokens of `s` split at `sep` outside single quotes (a quote preceded by a
/// backslash does not count), trimmed; `Err` with the rest of the text when
/// a quote stays open.
pub open spec fn split_tokens(s: Seq<char>, sep: char) -> Result<Seq<Seq<char>>, Seq<char>> {
    let (tokens, token, q) = split_from(s, sep, 0, Seq::empty(), Seq::empty(), false);
    if q {
        Err(token)
    } else if trim(token).len() > 0 {
        Ok(tokens.push(trim(token)))
    } else {
        Ok(tokens)
    }
}

/// Views of a list of strings.
pub open spec fn string_views(v: Seq<String>) -> Seq<Seq<char>> {
    v.map_values(|s: String| s@)
}

/// Whether the trimmed `v` is non-empty.
fn trimmed_nonempty(v: &Vec<char>) -> (r: bool)
    ensures
        r == (trim(v@).len() > 0),
{
    let (a, b) = trim_range(v, 0, v.len());
    assert(v@.subrange(0, v@.len() as int) =~= v@);
    a < b
}

/// `trim(v)` as a string.
fn trimmed(v: &Vec<char>) -> (r: String)
    ensures
        r@ == trim(v@),
{
    let (a, b) = trim_range(v, 0, v.len());
    assert(v@.subrange(0, v@.len() as int) =~= v@);
    string_from(v, a, b)
}

/// Quote-aware tokenizer of originate strings.
pub fn originate_split(line: &str, split_at: char) -> (r: Result<Vec<String>, OriginateError>)
    ensures
        match split_tokens(line@, split_at) {
            Ok(t) => r matches Ok(v) && string_views(v@) == t,
            Err(rest) => r matches Err(OriginateError::UnclosedQuote(x)) && x@ == rest,
        },
{
    let chars = chars_of(line);
    let mut tokens: Vec<String> = Vec::new();
    let mut token: Vec<char> = Vec::new();
    let mut in_quote = false;
    let mut i: usize = 0;
    assert(string_views(tokens@) =~= Seq::<Seq<char>>::empty());
    while i < chars.len()
        invariant
            i <= chars@.len(),
            chars@ == line@,
            split_from(line@, split_at, 0, Seq::empty(), Seq::empty(), false)
                == split_from(line@, split_at, i as int, string_views(tokens@), token@, in_quote),
        decreases chars@.len() - i,
    {
        let ch = chars[i];
        let ghost tv = string_views(tokens@);
        let ghost tk = token@;
        assert(line@[i as int] == ch);
        if ch == split_at && !in_quote && trimmed_nonempty(&token) {
            assert(split_from(line@, split_at, i as int, tv, tk, in_quote)
                == split_from(line@, split_at, i + 1, tv.push(trim(tk)), Seq::empty(), in_quote));
            let t = trimmed(&token);
            let ghost before = tokens@;
            tokens.push(t);
            assert(tokens@.drop_last() =~= before);
            assert(string_views(tokens@) =~= tv.push(t@));
            token = Vec::new();
            assert(token@ =~= Seq::<char>::empty());
            i = i + 1;
            continue;
        }
        if i > 0 {
            assert(line@[i - 1] == chars@[i - 1]);
        }
        if ch == '\'' && !(i > 0 && chars[i - 1] == '\\') {
            in_quote = !in_quote;
        }
        token.push(ch);
        i = i + 1;
    }
    if in_quote {
        return Err(OriginateError::UnclosedQuote(string_from(&token, 0, token.len())));
    }
    if trimmed_nonempty(&token) {
        let t = trimmed(&token);
        let ghost before = tokens@;
        tokens.push(t);
        assert(tokens@.drop_last() =~= before);
        assert(string_views(tokens@) =~= string_views(before).push(t@));
    }
    proof {
        assert(token@.subrange(0, token@.len() as int) =~= token@);
    }
    Ok(tokens)
}

/// Dialplan selector of an originate command.
#[derive(Debug, Clone, Copy, PartialEq, Eq, Structural)]
pub enum DialplanType {
    Inline,
    Xml,
}

impl DialplanType {
    /// The selector's token.
    pub open spec fn token(self) -> Seq<char> {
        match self {
            DialplanType::Inline => "inline"@,
            DialplanType::Xml => "XML"@,
        }
    }

    /// The selector's token.
    pub fn to_string(&self) -> (r: String)
        ensures
            r@ == self.token(),
    {
        match self {
            DialplanType::Inline => String::from_str("inline"),
            DialplanType::Xml => String::from_str("XML"),
        }
    }

    /// The selector whose token is exactly `s`.
    pub fn parse(s: &str) -> (r: Result<Self, OriginateError>)
        ensures
            r matches Ok(d) ==> d.token() == s@,
            r is Err ==> s@ != "inline"@ && s@ != "XML"@,
            r matches Err(e) ==> e is ParseError,
    {
        if str_eq(s, "inline") {
            Ok(DialplanType::Inline)
        } else if str_eq(s, "XML") {
            Ok(DialplanType::Xml)
        } else {
            Err(parse_error("unknown dialplan type"))
        }
    }
}

impl std::str::FromStr for DialplanType {
    type Err = OriginateError;

    fn from_str(s: &str) -> Result<Self, OriginateError> {
        Self::parse(s)
    }
}

/// Scope of a variable block, by its brackets: `<>` enterprise-wide, `{}`
/// every channel of the originate, `[]` one channel.
#[derive(Debug, Clone, Copy, PartialEq, Eq, Structural)]
pub enum VariablesType {
    Enterprise,
    Default,
    Channel,
}

impl VariablesType {
    pub open spec fn open_char(self) -> char {
        match self {
            VariablesType::Enterprise => '<',
            VariablesType::Default => '{',
            VariablesType::Channel => '[',
        }
    }

    pub open spec fn close_char(self) -> char {
        match self {
            VariablesType::Enterprise => '>',
            VariablesType::Default => '}',
            VariablesType::Channel => ']',
        }
    }

    /// Opening and closing bracket.
    pub fn delimiters(self) -> (r: (char, char))
        ensures
            r == (self.open_char(), self.close_char()),
    {
        match self {
            VariablesType::Enterprise => ('<', '>'),
            VariablesType::Default => ('{', '}'),
            VariablesType::Channel => ('[', ']'),
        }
    }
}

/// The scope whose brackets are `open` and `close`.
pub open spec fn scope_of(open: char, close: char) -> Option<VariablesType> {
    if open == '{' && close == '}' {
        Some(VariablesType::Default)
    } else if open == '<' && close == '>' {
        Some(VariablesType::Enterprise)
    } else if open == '[' && close == ']' {
        Some(VariablesType::Channel)
    } else {
        None
    }
}

/// A variable value as written: `'` and `,` escaped with a backslash.
pub open spec fn escape_chars(v: Seq<char>) -> Seq<char>
    decreases v.len(),
{
    if v.len() == 0 {
        Seq::empty()
    } else {
        escape_chars(v.drop_last()) + if v.last() == '\'' || v.last() == ',' {
            seq!['\\', v.last()]
        } else {
            seq![v.last()]
        }
    }
}

/// A variable value as written, wrapped in single quotes when it holds a space.
pub open spec fn escaped_value(v: Seq<char>) -> Seq<char> {
    if v.contains(' ') {
        seq!['\''] + escape_chars(v) + seq!['\'']
    } else {
        escape_chars(v)
    }
}

/// `s` with each `\,` and `\'` turned into `,` and `'`, scanning left to right.
pub open spec fn unescape_chars(s: Seq<char>) -> Seq<char>
    decreases s.len(),
{
    if s.len() == 0 {
        Seq::empty()
    } else if s.len() >= 2 && s[0] == '\\' && (s[1] == ',' || s[1] == '\'') {
        seq![s[1]] + unescape_chars(s.skip(2))
    } else {
        seq![s[0]] + unescape_chars(s.drop_first())
    }
}

/// A written variable value read back: outer quotes stripped, escapes undone.
pub open spec fn unescaped_value(v: Seq<char>) -> Seq<char> {
    unescape_chars(if wrapped(v) { v.subrange(1, v.len() - 1) } else { v })
}

/// Escapes a variable value for a variable block.
pub fn escape_value(value: &str) -> (r: String)
    ensures
        r@ == escaped_value(value@),
{
    let v = chars_of(value);
    let sp = find_char(&v, ' ', 0, v.len());
    proof {
        assert(v@.subrange(0, v@.len() as int) =~= v@);
        crate::text::lemma_char_pos(v@, ' ');
    }
    let mut r = String::new();
    if sp < v.len() {
        push_char(&mut r, '\'');
    }
    let ghost head = r@;
    let mut i: usize = 0;
    while i < v.len()
        invariant
            i <= v@.len(),
            r@ == head + escape_chars(v@.take(i as int)),
        decreases v@.len() - i,
    {
        if v[i] == '\'' || v[i] == ',' {
            push_char(&mut r, '\\');
        }
        push_char(&mut r, v[i]);
        assert(v@.take(i + 1).drop_last() =~= v@.take(i as int));
        i = i + 1;
        assert(r@ =~= head + escape_chars(v@.take(i as int)));
    }
    assert(v@.take(i as int) =~= v@);
    if sp < v.len() {
        push_char(&mut r, '\'');
    }
    assert(head == (if v@.contains(' ') { seq!['\''] } else { Seq::<char>::empty() }));
    assert(r@ =~= escaped_value(value@));
    r
}

/// Reads back an escaped variable value.
pub fn unescape_value(value: &str) -> (r: String)
    ensures
        r@ == unescaped_value(value@),
{
    let v = chars_of(value);
    let (lo, hi) = if v.len() >= 2 && v[0] == '\'' && v[v.len() - 1] == '\'' { (1, v.len() - 1) } else { (0, v.len()) };
    assert(v@.subrange(0, v@.len() as int) =~= v@);
    let mut r = String::new();
    let mut i = lo;
    while i < hi
        invariant
            lo <= i <= hi <= v@.len(),
            unescape_chars(v@.subrange(lo as int, hi as int)) == r@ + unescape_chars(v@.subrange(i as int, hi as int)),
        decreases hi - i,
    {
        let ghost s = v@.subrange(i as int, hi as int);
        if i + 1 < hi && v[i] == '\\' && (v[i + 1] == ',' || v[i + 1] == '\'') {
            assert(s.skip(2) =~= v@.subrange(i + 2, hi as int));
            push_char(&mut r, v[i + 1]);
            i = i + 2;
        } else {
            assert(s.drop_first() =~= v@.subrange(i + 1, hi as int));
            push_char(&mut r, v[i]);
            i = i + 1;
        }
    }
    assert(v@.subrange(i as int, hi as int) =~= Seq::<char>::empty());
    r
}

/// Pieces of `s` between commas not preceded by a backslash; `start` is where
/// the current piece began.
pub open spec fn comma_split_from(s: Seq<char>, i: int, start: int, parts: Seq<Seq<char>>) -> Seq<Seq<char>>
    decreases s.len() - i,
{
    if i < 0 || i >= s.len() {
        parts.push(s.subrange(start, s.len() as int))
    } else if s[i] == ',' && !(i > 0 && s[i - 1] == '\\') {
        comma_split_from(s, i + 1, i + 1, parts.push(s.subrange(start, i)))
    } else {
        comma_split_from(s, i + 1, start, parts)
    }
}

/// Pieces of `s` between commas not preceded by a backslash.
pub open spec fn comma_pieces(s: Seq<char>) -> Seq<Seq<char>> {
    comma_split_from(s, 0, 0, Seq::empty())
}

/// Splits `v[lo..hi]` on commas not preceded by a backslash.
fn split_unescaped_commas(v: &Vec<char>, lo: usize, hi: usize) -> (r: Vec<String>)
    requires
        lo <= hi <= v@.len(),
    ensures
        string_views(r@) == comma_pieces(v@.subrange(lo as int, hi as int)),
{
    let ghost s = v@.subrange(lo as int, hi as int);
    let mut parts: Vec<String> = Vec::new();
    let mut start = lo;
    let mut i = lo;
    assert(string_views(parts@) =~= Seq::<Seq<char>>::empty());
    while i < hi
        invariant
            lo <= start <= i <= hi <= v@.len(),
            s == v@.subrange(lo as int, hi as int),
            comma_pieces(s) == comma_split_from(s, i - lo, start - lo, string_views(parts@)),
        decreases hi - i,
    {
        assert(s[i - lo] == v@[i as int]);
        if i > lo {
            assert(s[i - lo - 1] == v@[i - 1]);
        }
        if v[i] == ',' && !(i > lo && v[i - 1] == '\\') {
            let piece = string_from(v, start, i);
            assert(s.subrange(start - lo, i - lo) =~= v@.subrange(start as int, i as int));
            let ghost before = parts@;
            parts.push(piece);
            assert(parts@.drop_last() =~= before);
            assert(string_views(parts@) =~= string_views(before).push(piece@));
            start = i + 1;
        }
        i = i + 1;
    }
    let piece = string_from(v, start, hi);
    assert(s.subrange(start - lo, s.len() as int) =~= v@.subrange(start as int, hi as int));
    let ghost before = parts@;
    parts.push(piece);
    assert(parts@.drop_last() =~= before);
    assert(string_views(parts@) =~= string_views(before).push(piece@));
    parts
}

/// `indexmap::IndexMap`, declared to the verifier as an opaque type.
#[verifier::external_type_specification]
#[verifier::external_body]
#[verifier::reject_recursive_types(K)]
#[verifier::reject_recursive_types(V)]
#[verifier::reject_recursive_types(S)]
pub struct ExIndexMap<K, V, S>(IndexMap<K, V, S>);

/// Entries of a variable map, in insertion order.
pub uninterp spec fn index_map_entries(m: IndexMap<String, String>) -> Seq<(Seq<char>, Seq<char>)>;

/// First position of key `k`.
pub open spec fn key_index(e: Seq<(Seq<char>, Seq<char>)>, k: Seq<char>) -> Option<int>
    decreases e.len(),
{
    if e.len() == 0 {
        None
    } else {
        match key_index(e.drop_last(), k) {
            Some(i) => Some(i),
            None => if e.last().0 == k { Some(e.len() - 1) } else { None },
        }
    }
}

/// Entries after inserting `k` with `v`: an existing key keeps its place and
/// takes the new value; a new key goes last.
pub open spec fn entries_insert(e: Seq<(Seq<char>, Seq<char>)>, k: Seq<char>, v: Seq<char>) -> Seq<(Seq<char>, Seq<char>)> {
    match key_index(e, k) {
        Some(i) => e.update(i, (k, v)),
        None => e.push((k, v)),
    }
}

/// Value of key `k`.
pub open spec fn entries_get(e: Seq<(Seq<char>, Seq<char>)>, k: Seq<char>) -> Option<Seq<char>> {
    match key_index(e, k) {
        Some(i) => Some(e[i].1),
        None => None,
    }
}

/// Relies on `IndexMap::new`: an empty map.
#[verifier::external_body]
fn index_map_new() -> (r: IndexMap<String, String>)
    ensures
        index_map_entries(r) == Seq::<(Seq<char>, Seq<char>)>::empty(),
{
    IndexMap::new()
}

/// Relies on `IndexMap::insert`: an existing key keeps its place and takes
/// the new value; a new key goes last.
#[verifier::external_body]
fn index_map_insert(m: &mut IndexMap<String, String>, k: String, v: String)
    ensures
        index_map_entries(*final(m)) == entries_insert(index_map_entries(*old(m)), k@, v@),
{
    m.insert(k, v);
}

/// Relies on `IndexMap::get`: the value of the key.
#[verifier::external_body]
fn index_map_get<'a>(m: &'a IndexMap<String, String>, k: &str) -> (r: Option<&'a String>)
    ensures
        crate::event::opt_ref_view(r) == entries_get(index_map_entries(*m), k@),
{
    m.get(k)
}

/// Relies on `IndexMap::len`: the number of entries.
#[verifier::external_body]
fn index_map_len(m: &IndexMap<String, String>) -> (r: usize)
    ensures
        r == index_map_entries(*m).len(),
{
    m.len()
}

/// Relies on `IndexMap::iter`: the entries in order, copied.
#[verifier::external_body]
fn index_map_pairs(m: &IndexMap<String, String>) -> (r: Vec<(String, String)>)
    ensures
        crate::protocol::pair_views(r@) == index_map_entries(*m),
{
    m.iter().map(|(k, v)| (k.clone(), v.clone())).collect()
}

/// Channel variables of a given scope, in insertion order.
#[derive(Debug)]
pub struct Variables {
    pub vars_type: VariablesType,
    inner: IndexMap<String, String>,
}

/// `k=v` items of a variable block, values escaped, joined by commas.
pub open spec fn vars_items(e: Seq<(Seq<char>, Seq<char>)>) -> Seq<char>
    decreases e.len(),
{
    if e.len() == 0 {
        Seq::empty()
    } else if e.len() == 1 {
        e[0].0 + "="@ + escaped_value(e[0].1)
    } else {
        vars_items(e.drop_last()) + ","@ + e.last().0 + "="@ + escaped_value(e.last().1)
    }
}

/// Text of a variable block.
pub open spec fn vars_text(t: VariablesType, e: Seq<(Seq<char>, Seq<char>)>) -> Seq<char> {
    seq![t.open_char()] + vars_items(e) + seq![t.close_char()]
}

/// Entries after inserting each `key=value` piece in order; `None` when a
/// piece has no `=`.
pub open spec fn pieces_entries(parts: Seq<Seq<char>>) -> Option<Seq<(Seq<char>, Seq<char>)>>
    decreases parts.len(),
{
    if parts.len() == 0 {
        Some(Seq::empty())
    } else {
        match pieces_entries(parts.drop_last()) {
            None => None,
            Some(e) => match char_pos(parts.last(), '=') {
                Some(c) => Some(entries_insert(e, parts.last().take(c), unescaped_value(parts.last().skip(c + 1)))),
                None => None,
            },
        }
    }
}

/// Once a prefix of the pieces fails, all of them fail.
proof fn lemma_pieces_entries_fail(parts: Seq<Seq<char>>, k: int)
    requires
        0 <= k <= parts.len(),
        pieces_entries(parts.take(k)) is None,
    ensures
        pieces_entries(parts) is None,
    decreases parts.len(),
{
    if k < parts.len() {
        assert(parts.drop_last().take(k) =~= parts.take(k));
        lemma_pieces_entries_fail(parts.drop_last(), k);
    } else {
        assert(parts.take(k) =~= parts);
    }
}

/// Scope and entries of a variable block's text, if it is one.
pub open spec fn vars_of(s: Seq<char>) -> Option<(VariablesType, Seq<(Seq<char>, Seq<char>)>)> {
    let t = trim(s);
    if t.len() < 2 {
        None
    } else {
        match scope_of(t[0], t.last()) {
            None => None,
            Some(k) => match pieces_entries(comma_pieces(t.subrange(1, t.len() - 1))) {
                Some(e) => Some((k, e)),
                None => None,
            },
        }
    }
}

impl Variables {
    pub closed spec fn entries(&self) -> Seq<(Seq<char>, Seq<char>)> {
        index_map_entries(self.inner)
    }

    pub closed spec fn scope(&self) -> VariablesType {
        self.vars_type
    }

    /// An empty block of the given scope.
    pub fn new(vars_type: VariablesType) -> (r: Self)
        ensures
            r.scope() == vars_type,
            r.entries() == Seq::<(Seq<char>, Seq<char>)>::empty(),
    {
        Variables { vars_type, inner: index_map_new() }
    }

    /// A block of the given scope and variables.
    pub fn with_vars(vars_type: VariablesType, vars: IndexMap<String, String>) -> (r: Self)
        ensures
            r.scope() == vars_type,
            r.entries() == index_map_entries(vars),
    {
        Variables { vars_type, inner: vars }
    }

    /// Sets a variable; an existing one keeps its place.
    pub fn insert(&mut self, key: &str, value: &str)
        ensures
            final(self).scope() == old(self).scope(),
            final(self).entries() == entries_insert(old(self).entries(), key@, value@),
    {
        index_map_insert(&mut self.inner, owned(key), owned(value));
    }

    /// Value of a variable.
    pub fn get(&self, key: &str) -> (r: Option<&str>)
        ensures
            match r {
                Some(v) => entries_get(self.entries(), key@) == Some(v@),
                None => entries_get(self.entries(), key@) is None,
            },
    {
        match index_map_get(&self.inner, key) {
            Some(v) => Some(v.as_str()),
            None => None,
        }
    }

    /// Whether the block holds no variable.
    pub fn is_empty(&self) -> (r: bool)
        ensures
            r == (self.entries().len() == 0),
    {
        index_map_len(&self.inner) == 0
    }

    /// Number of variables.
    pub fn len(&self) -> (r: usize)
        ensures
            r == self.entries().len(),
    {
        index_map_len(&self.inner)
    }

    /// The variables, in insertion order.
    pub fn iter(&self) -> (r: Vec<(String, String)>)
        ensures
            crate::protocol::pair_views(r@) == self.entries(),
    {
        index_map_pairs(&self.inner)
    }

    /// The block's text: brackets of its scope around `key=value` items,
    /// values escaped.
    pub fn to_string(&self) -> (r: String)
        ensures
            r@ == vars_text(self.scope(), self.entries()),
    {
        let pairs = index_map_pairs(&self.inner);
        let ghost e = self.entries();
        let (open, close) = self.vars_type.delimiters();
        let mut r = String::new();
        push_char(&mut r, open);
        let mut i: usize = 0;
        assert(e.take(0) =~= Seq::<(Seq<char>, Seq<char>)>::empty());
        while i < pairs.len()
            invariant
                i <= pairs@.len(),
                crate::protocol::pair_views(pairs@) == e,
                r@ == seq![open] + vars_items(e.take(i as int)),
            decreases pairs@.len() - i,
        {
            let ghost before = r@;
            if i > 0 {
                r.append(",");
            }
            r.append(pairs[i].0.as_str());
            r.append("=");
            r.append(escape_value(pairs[i].1.as_str()).as_str());
            proof {
                let t = e.take(i + 1);
                assert(t.drop_last() =~= e.take(i as int));
                assert(t.last() == e[i as int]);
                assert(e[i as int] == (pairs@[i as int].0@, pairs@[i as int].1@));
                if i == 0 {
                    assert(r@ =~= seq![open] + vars_items(t));
                } else {
                    assert(r@ =~= seq![open] + vars_items(t));
                }
            }
            i = i + 1;
        }
        assert(e.take(i as int) =~= e);
        push_char(&mut r, close);
        r
    }

    /// Reads a variable block.
    pub fn parse(s: &str) -> (r: Result<Self, OriginateError>)
        ensures
            match vars_of(s@) {
                Some((k, e)) => r matches Ok(v) && v.scope() == k && v.entries() == e,
                None => r matches Err(OriginateError::ParseError(_)),
            },
    {
        let all = chars_of(s);
        let (a, b) = trim_range(&all, 0, all.len());
        assert(all@.subrange(0, all@.len() as int) =~= all@);
        let ghost t = trim(s@);
        if b - a < 2 {
            return Err(parse_error("variable block too short"));
        }
        assert(t[0] == all@[a as int] && t.last() == all@[b - 1]);
        let open = all[a];
        let close = all[b - 1];
        let vars_type = if open == '{' && close == '}' {
            VariablesType::Default
        } else if open == '<' && close == '>' {
            VariablesType::Enterprise
        } else if open == '[' && close == ']' {
            VariablesType::Channel
        } else {
            return Err(parse_error("unknown variable delimiters"));
        };
        assert(t.subrange(1, t.len() - 1) =~= all@.subrange(a + 1, b - 1));
        let parts = split_unescaped_commas(&all, a + 1, b - 1);
        let ghost ps = string_views(parts@);
        assert(scope_of(t[0], t.last()) == Some(vars_type));
        let mut inner = index_map_new();
        let mut i: usize = 0;
        assert(ps.take(0) =~= Seq::<Seq<char>>::empty());
        while i < parts.len()
            invariant
                i <= parts@.len(),
                ps == string_views(parts@),
                t == trim(s@),
                t.len() >= 2,
                ps == comma_pieces(t.subrange(1, t.len() - 1)),
                scope_of(t[0], t.last()) == Some(vars_type),
                pieces_entries(ps.take(i as int)) == Some(index_map_entries(inner)),
            decreases parts@.len() - i,
        {
            let pv = chars_of(parts[i].as_str());
            let c = find_char(&pv, '=', 0, pv.len());
            proof {
                assert(pv@.subrange(0, pv@.len() as int) =~= pv@);
                assert(ps.take(i + 1).drop_last() =~= ps.take(i as int));
                assert(ps.take(i + 1).last() == pv@);
            }
            if c == pv.len() {
                proof {
                    assert(char_pos(pv@, '=') is None);
                    assert(pieces_entries(ps.take(i + 1)) is None);
                    lemma_pieces_entries_fail(ps, i + 1);
                    assert(ps == comma_pieces(t.subrange(1, t.len() - 1)));
                    assert(pieces_entries(comma_pieces(t.subrange(1, t.len() - 1))) is None);
                }
                return Err(parse_error("missing = in variable"));
            }
            let key = string_from(&pv, 0, c);
            let raw = string_from(&pv, c + 1, pv.len());
            assert(pv@.subrange(0, c as int) =~= pv@.take(c as int));
            assert(pv@.subrange(c + 1, pv@.len() as int) =~= pv@.skip(c + 1));
            let value = unescape_value(raw.as_str());
            index_map_insert(&mut inner, key, value);
            i = i + 1;
        }
        assert(ps.take(i as int) =~= ps);
        Ok(Variables { vars_type, inner })
    }
}

impl std::str::FromStr for Variables {
    type Err = OriginateError;

    fn from_str(s: &str) -> Result<Self, OriginateError> {
        Self::parse(s)
    }
}


/// A variable block as written before an endpoint: nothing when absent or empty.
pub open spec fn vars_prefix(v: Option<Variables>) -> Seq<char> {
    match v {
        Some(x) => if x.entries().len() > 0 { vars_text(x.scope(), x.entries()) } else { Seq::empty() },
        None => Seq::empty(),
    }
}

/// Where an originate command sends the call.
#[derive(Debug)]
pub enum Endpoint {
    /// A dial string as it is.
    Generic { uri: String, variables: Option<Variables> },
    /// `loopback/<uri>/<context>`.
    Loopback { uri: String, context: String, variables: Option<Variables> },
    /// `sofia/gateway/<gateway>/<uri>`.
    SofiaGateway { uri: String, gateway: String, variables: Option<Variables> },
}

/// Text of an endpoint.
pub open spec fn endpoint_text(e: Endpoint) -> Seq<char> {
    match e {
        Endpoint::Generic { uri, variables } => vars_prefix(variables) + uri@,
        Endpoint::Loopback { uri, context, variables } => vars_prefix(variables) + "loopback/"@ + uri@ + "/"@ + context@,
        Endpoint::SofiaGateway { uri, gateway, variables } => vars_prefix(variables) + "sofia/gateway/"@ + gateway@ + "/"@ + uri@,
    }
}

/// Whether `e` is what reading endpoint text `s` gives: a leading variable
/// block up to the first `}` when `s` holds a `{` (none when it is empty),
/// then the dial string, trimmed.
pub open spec fn endpoint_read(e: Endpoint, s: Seq<char>) -> bool {
    if s.contains('{') {
        match char_pos(s, '}') {
            Some(c) => match vars_of(s.take(c + 1)) {
                Some((k, es)) => e matches Endpoint::Generic { uri, variables } && uri@ == trim(s.skip(c + 1))
                    && if es.len() == 0 { variables is None } else {
                        variables matches Some(v) && v.scope() == k && v.entries() == es
                    },
                None => false,
            },
            None => false,
        }
    } else {
        e matches Endpoint::Generic { uri, variables } && uri@ == s && variables is None
    }
}

/// Whether endpoint text `s` reads as an endpoint.
pub open spec fn endpoint_readable(s: Seq<char>) -> bool {
    if s.contains('{') {
        match char_pos(s, '}') {
            Some(c) => vars_of(s.take(c + 1)) is Some,
            None => false,
        }
    } else {
        true
    }
}

fn vars_prefix_text(v: &Option<Variables>) -> (r: String)
    ensures
        r@ == vars_prefix(*v),
{
    match v {
        Some(x) => if !x.is_empty() { x.to_string() } else { String::new() },
        None => String::new(),
    }
}

impl Endpoint {
    /// The endpoint's text.
    pub fn to_string(&self) -> (r: String)
        ensures
            r@ == endpoint_text(*self),
    {
        match self {
            Endpoint::Generic { uri, variables } => {
                let mut r = vars_prefix_text(variables);
                r.append(uri.as_str());
                r
            },
            Endpoint::Loopback { uri, context, variables } => {
                let mut r = vars_prefix_text(variables);
                r.append("loopback/");
                r.append(uri.as_str());
                r.append("/");
                r.append(context.as_str());
                r
            },
            Endpoint::SofiaGateway { uri, gateway, variables } => {
                let mut r = vars_prefix_text(variables);
                r.append("sofia/gateway/");
                r.append(gateway.as_str());
                r.append("/");
                r.append(uri.as_str());
                r
            },
        }
    }

    /// Reads endpoint text.
    pub fn parse(s: &str) -> (r: Result<Self, OriginateError>)
        ensures
            r is Ok <==> endpoint_readable(s@),
            r matches Ok(e) ==> endpoint_read(e, s@),
            r matches Err(e) ==> e is ParseError,
    {
        let v = chars_of(s);
        let open = find_char(&v, '{', 0, v.len());
        let close = find_char(&v, '}', 0, v.len());
        proof {
            assert(v@.subrange(0, v@.len() as int) =~= v@);
            crate::text::lemma_char_pos(v@, '{');
            crate::text::lemma_char_pos(v@, '}');
        }
        if open == v.len() {
            return Ok(Endpoint::Generic { uri: owned(s), variables: None });
        }
        if close == v.len() {
            return Err(parse_error("unclosed { in endpoint"));
        }
        let block = string_from(&v, 0, close + 1);
        assert(v@.subrange(0, close + 1) =~= v@.take(close + 1));
        let vars = Variables::parse(block.as_str())?;
        let (a, b) = trim_range(&v, close + 1, v.len());
        assert(v@.subrange(close + 1, v@.len() as int) =~= v@.skip(close + 1));
        let uri = string_from(&v, a, b);
        let variables = if vars.is_empty() { None } else { Some(vars) };
        Ok(Endpoint::Generic { uri, variables })
    }
}

impl std::str::FromStr for Endpoint {
    type Err = OriginateError;

    fn from_str(s: &str) -> Result<Self, OriginateError> {
        Self::parse(s)
    }
}

/// An application with optional arguments.
#[derive(Debug, Clone, PartialEq, Eq)]
pub struct Application {
    pub name: String,
    pub args: Option<String>,
}

/// Text of an application for a dialplan: `name:args` inline, `&name(args)` in XML.
pub open spec fn app_text(name: Seq<char>, args: Option<Seq<char>>, dialplan: DialplanType) -> Seq<char> {
    let a = match args {
        Some(x) => x,
        None => Seq::empty(),
    };
    match dialplan {
        DialplanType::Inline => name + ":"@ + a,
        DialplanType::Xml => "&"@ + name + "("@ + a + ")"@,
    }
}

/// Views of applications.
pub open spec fn apps_view(v: Seq<Application>) -> Seq<(Seq<char>, Option<Seq<char>>)> {
    v.map_values(|a: Application| (a.name@, crate::event::opt_view(a.args)))
}

impl Application {
    /// An application of the given name and arguments.
    pub fn new(name: &str, args: Option<&str>) -> (r: Self)
        ensures
            r.name@ == name@,
            crate::event::opt_view(r.args) == match args {
                Some(a) => Some(a@),
                None => None,
            },
    {
        let args = match args {
            Some(a) => Some(owned(a)),
            None => None,
        };
        Application { name: owned(name), args }
    }

    /// Text of the application for the dialplan.
    pub fn to_string_with_dialplan(&self, dialplan: &DialplanType) -> (r: String)
        ensures
            r@ == app_text(self.name@, crate::event::opt_view(self.args), *dialplan),
    {
        let args = match &self.args {
            Some(a) => a.as_str(),
            None => "",
        };
        proof {
            reveal_strlit("");
        }
        match dialplan {
            DialplanType::Inline => {
                let mut r = self.name.clone();
                r.append(":");
                r.append(args);
                r
            },
            DialplanType::Xml => {
                let mut r = String::from_str("&");
                r.append(self.name.as_str());
                r.append("(");
                r.append(args);
                r.append(")");
                r
            },
        }
    }
}

/// Inline texts of applications joined by commas.
pub open spec fn inline_apps_text(apps: Seq<(Seq<char>, Option<Seq<char>>)>) -> Seq<char>
    decreases apps.len(),
{
    if apps.len() == 0 {
        Seq::empty()
    } else if apps.len() == 1 {
        app_text(apps[0].0, apps[0].1, DialplanType::Inline)
    } else {
        inline_apps_text(apps.drop_last()) + ","@ + app_text(apps.last().0, apps.last().1, DialplanType::Inline)
    }
}

/// Applications of an originate command.
#[derive(Debug, Clone, PartialEq, Eq)]
pub struct ApplicationList(pub Vec<Application>);

impl ApplicationList {
    /// Text of the list for the dialplan: inline, all of them joined by
    /// commas; XML takes exactly one application.
    pub fn to_string_with_dialplan(&self, dialplan: &DialplanType) -> (r: Result<String, OriginateError>)
        ensures
            match *dialplan {
                DialplanType::Inline => r matches Ok(t) && t@ == inline_apps_text(apps_view(self.0@)),
                DialplanType::Xml => if self.0@.len() == 1 {
                    r matches Ok(t) && t@ == app_text(apps_view(self.0@)[0].0, apps_view(self.0@)[0].1, DialplanType::Xml)
                } else if self.0@.len() > 1 {
                    r matches Err(OriginateError::TooManyApplications)
                } else {
                    r matches Err(OriginateError::ParseError(_))
                },
            },
    {
        match dialplan {
            DialplanType::Inline => {
                let ghost av = apps_view(self.0@);
                let mut r = String::new();
                let mut i: usize = 0;
                assert(av.take(0) =~= Seq::<(Seq<char>, Option<Seq<char>>)>::empty());
                while i < self.0.len()
                    invariant
                        i <= self.0@.len(),
                        *dialplan == DialplanType::Inline,
                        av == apps_view(self.0@),
                        r@ == inline_apps_text(av.take(i as int)),
                    decreases self.0@.len() - i,
                {
                    let ghost before = r@;
                    if i > 0 {
                        r.append(",");
                    }
                    r.append(self.0[i].to_string_with_dialplan(dialplan).as_str());
                    proof {
                        let t = av.take(i + 1);
                        assert(t.drop_last() =~= av.take(i as int));
                        assert(t.last() == av[i as int]);
                        assert(av[i as int] == (self.0@[i as int].name@, crate::event::opt_view(self.0@[i as int].args)));
                        assert(*dialplan == DialplanType::Inline);
                        if i == 0 {
                            assert(r@ =~= inline_apps_text(t));
                        } else {
                            assert(r@ =~= before + ","@ + app_text(t.last().0, t.last().1, DialplanType::Inline));
                            assert(r@ =~= inline_apps_text(t));
                        }
                    }
                    i = i + 1;
                }
                assert(av.take(i as int) =~= av);
                Ok(r)
            },
            DialplanType::Xml => {
                if self.0.len() > 1 {
                    return Err(OriginateError::TooManyApplications);
                }
                if self.0.len() == 0 {
                    return Err(parse_error("no application to originate"));
                }
                Ok(self.0[0].to_string_with_dialplan(dialplan))
            },
        }
    }
}

/// Applications of inline tokens: each `name:args`; `None` when one lacks a colon.
pub open spec fn inline_apps(toks: Seq<Seq<char>>) -> Option<Seq<(Seq<char>, Option<Seq<char>>)>>
    decreases toks.len(),
{
    if toks.len() == 0 {
        Some(Seq::empty())
    } else {
        match inline_apps(toks.drop_last()) {
            None => None,
            Some(a) => match char_pos(toks.last(), ':') {
                Some(c) => Some(a.push((toks.last().take(c), Some(toks.last().skip(c + 1))))),
                None => None,
            },
        }
    }
}

/// Applications that application text `s` gives for a dialplan: inline, a
/// comma-separated list of `name:args`; otherwise `&name(args)` (no
/// arguments when empty) or a bare extension. `Err` carries an open quote's rest.
pub open spec fn apps_of(s: Seq<char>, dialplan: Option<DialplanType>) -> Option<Result<Seq<(Seq<char>, Option<Seq<char>>)>, Seq<char>>> {
    if dialplan == Some(DialplanType::Inline) {
        match split_tokens(s, ',') {
            Err(rest) => Some(Err(rest)),
            Ok(toks) => match inline_apps(toks) {
                Some(a) => Some(Ok(a)),
                None => None,
            },
        }
    } else if has_prefix(s, "&"@) {
        let rest = s.skip(1);
        if rest.len() > 0 && rest.last() == ')' {
            let inner = rest.drop_last();
            match char_pos(inner, '(') {
                Some(c) => Some(Ok(seq![(inner.take(c), if inner.skip(c + 1).len() == 0 { None } else { Some(inner.skip(c + 1)) })])),
                None => None,
            }
        } else {
            None
        }
    } else {
        Some(Ok(seq![(s, None::<Seq<char>>)]))
    }
}

/// Reads application text for the given dialplan.
pub fn parse_application_list(s: &str, dialplan: Option<&DialplanType>) -> (r: Result<ApplicationList, OriginateError>)
    ensures
        match apps_of(s@, match dialplan { Some(d) => Some(*d), None => None }) {
            Some(Ok(a)) => r matches Ok(l) && apps_view(l.0@) == a,
            Some(Err(rest)) => r matches Err(OriginateError::UnclosedQuote(x)) && x@ == rest,
            None => r matches Err(OriginateError::ParseError(_)),
        },
{
    let inline = match dialplan {
        Some(DialplanType::Inline) => true,
        _ => false,
    };
    if inline {
        let toks = originate_split(s, ',')?;
        let ghost tv = string_views(toks@);
        let mut apps: Vec<Application> = Vec::new();
        let mut i: usize = 0;
        assert(tv.take(0) =~= Seq::<Seq<char>>::empty());
        assert(apps_view(apps@) =~= Seq::<(Seq<char>, Option<Seq<char>>)>::empty());
        while i < toks.len()
            invariant
                i <= toks@.len(),
                tv == string_views(toks@),
                split_tokens(s@, ',') == Ok::<Seq<Seq<char>>, Seq<char>>(tv),
                (match dialplan { Some(d) => Some(*d), None => None }) == Some(DialplanType::Inline),
                inline_apps(tv.take(i as int)) == Some(apps_view(apps@)),
            decreases toks@.len() - i,
        {
            let pv = chars_of(toks[i].as_str());
            let c = find_char(&pv, ':', 0, pv.len());
            proof {
                assert(pv@.subrange(0, pv@.len() as int) =~= pv@);
                assert(tv.take(i + 1).drop_last() =~= tv.take(i as int));
                assert(tv.take(i + 1).last() == pv@);
            }
            if c == pv.len() {
                proof {
                    assert(char_pos(pv@, ':') is None);
                    assert(inline_apps(tv.take(i + 1)) is None);
                    lemma_inline_apps_fail(tv, i + 1);
                }
                return Err(parse_error("invalid inline application"));
            }
            let name = string_from(&pv, 0, c);
            let args = string_from(&pv, c + 1, pv.len());
            assert(pv@.subrange(0, c as int) =~= pv@.take(c as int));
            assert(pv@.subrange(c + 1, pv@.len() as int) =~= pv@.skip(c + 1));
            let app = Application { name, args: Some(args) };
            let ghost before = apps@;
            apps.push(app);
            assert(apps@.drop_last() =~= before);
            assert(apps_view(apps@) =~= apps_view(before).push((app.name@, Some(app.args->0@))));
            i = i + 1;
        }
        assert(tv.take(i as int) =~= tv);
        return Ok(ApplicationList(apps));
    }
    let v = chars_of(s);
    let amp = chars_of("&");
    proof {
        reveal_strlit("&");
        assert(amp@ =~= "&"@);
    }
    if crate::text::starts_with(&v, &amp) {
        let n = v.len();
        assert(amp@.len() == 1);
        if n < 2 || v[n - 1] != ')' {
            assert(v@.skip(1).len() > 0 ==> v@.skip(1).last() == v@[n - 1]);
            return Err(parse_error("missing closing paren"));
        }
        let ghost inner = v@.skip(1).drop_last();
        assert(inner =~= v@.subrange(1, n - 1));
        let c = find_char(&v, '(', 1, n - 1);
        if c == n - 1 {
            return Err(parse_error("missing opening paren"));
        }
        let name = string_from(&v, 1, c);
        assert(v@.subrange(1, c as int) =~= inner.take(c - 1));
        assert(v@.subrange(c + 1, n - 1) =~= inner.skip(c - 1 + 1));
        let args = if c + 1 == n - 1 { None } else { Some(string_from(&v, c + 1, n - 1)) };
        let app = Application { name, args };
        let apps = vec![app];
        assert(apps_view(apps@) =~= seq![(app.name@, crate::event::opt_view(app.args))]);
        return Ok(ApplicationList(apps));
    }
    let app = Application { name: owned(s), args: None };
    let apps = vec![app];
    assert(apps_view(apps@) =~= seq![(s@, None::<Seq<char>>)]);
    Ok(ApplicationList(apps))
}

/// Once a prefix of the tokens fails, all of them fail.
proof fn lemma_inline_apps_fail(toks: Seq<Seq<char>>, k: int)
    requires
        0 <= k <= toks.len(),
        inline_apps(toks.take(k)) is None,
    ensures
        inline_apps(toks) is None,
    decreases toks.len(),
{
    if k < toks.len() {
        assert(toks.drop_last().take(k) =~= toks.take(k));
        lemma_inline_apps_fail(toks.drop_last(), k);
    } else {
        assert(toks.take(k) =~= toks);
    }
}


/// An originate command.
#[derive(Debug)]
pub struct Originate {
    pub endpoint: Endpoint,
    pub applications: ApplicationList,
    pub dialplan: Option<DialplanType>,
    pub context: Option<String>,
    pub cid_name: Option<String>,
    pub cid_num: Option<String>,
    pub timeout: Option<u32>,
}

/// Whether the applications suit the dialplan: XML, the default, takes
/// exactly one.
pub open spec fn apps_fit(o: Originate) -> bool {
    match o.dialplan {
        Some(DialplanType::Inline) => true,
        _ => o.applications.0@.len() == 1,
    }
}

/// ` x` when present.
pub open spec fn opt_part(o: Option<Seq<char>>) -> Seq<char> {
    match o {
        Some(x) => " "@ + x,
        None => Seq::empty(),
    }
}

/// Text of an originate command.
pub open spec fn originate_text(o: Originate) -> Seq<char> {
    let av = apps_view(o.applications.0@);
    let apps = match o.dialplan {
        Some(DialplanType::Inline) => inline_apps_text(av),
        _ => app_text(av[0].0, av[0].1, DialplanType::Xml),
    };
    "originate "@ + endpoint_text(o.endpoint) + " "@ + apps
        + opt_part(match o.dialplan { Some(d) => Some(d.token()), None => None })
        + opt_part(crate::event::opt_view(o.context))
        + opt_part(crate::event::opt_view(o.cid_name))
        + opt_part(crate::event::opt_view(o.cid_num))
        + opt_part(match o.timeout { Some(t) => Some(decimal(t as nat)), None => None })
}

fn append_opt(r: &mut String, o: &Option<String>)
    ensures
        final(r)@ == old(r)@ + opt_part(crate::event::opt_view(*o)),
{
    match o {
        Some(x) => {
            r.append(" ");
            r.append(x.as_str());
        },
        None => {},
    }
}

/// The command text without its `originate` prefix, trimmed.
pub open spec fn originate_body(s: Seq<char>) -> Seq<char> {
    trim(if has_prefix(s, "originate"@) { s.skip("originate"@.len() as int) } else { s })
}

/// The dialplan named by the third token, if it names one.
pub open spec fn dialplan_token(toks: Seq<Seq<char>>) -> Option<DialplanType> {
    if toks.len() > 2 && toks[2] == "inline"@ {
        Some(DialplanType::Inline)
    } else if toks.len() > 2 && toks[2] == "XML"@ {
        Some(DialplanType::Xml)
    } else {
        None
    }
}

/// Index of the first tail token (context, caller id name and number, timeout).
pub open spec fn tail_start(toks: Seq<Seq<char>>) -> int {
    if dialplan_token(toks) is Some { 3 } else { 2 }
}

/// The tail token at `k`, if present.
pub open spec fn tail_at(toks: Seq<Seq<char>>, k: int) -> Option<Seq<char>> {
    if tail_start(toks) + k < toks.len() { Some(toks[tail_start(toks) + k]) } else { None }
}

/// Whether the timeout token, if any, is a `u32`.
pub open spec fn timeout_fits(toks: Seq<Seq<char>>) -> bool {
    match tail_at(toks, 3) {
        Some(t) => match unsigned_value(t) {
            Some(n) => n <= u32::MAX,
            None => false,
        },
        None => true,
    }
}

/// Whether originate text reads: its tokens split, there are at least two,
/// the endpoint and the applications read, and the timeout fits.
pub open spec fn originate_readable(s: Seq<char>) -> bool {
    match split_tokens(originate_body(s), ' ') {
        Ok(toks) => toks.len() >= 2 && endpoint_readable(toks[0])
            && (apps_of(toks[1], dialplan_token(toks)) matches Some(Ok(_))) && timeout_fits(toks),
        Err(_) => false,
    }
}

/// The open quote's rest that makes reading originate text fail, if one does:
/// in the token split, or in an inline application list.
pub open spec fn quote_failure(s: Seq<char>) -> Option<Seq<char>> {
    match split_tokens(originate_body(s), ' ') {
        Err(rest) => Some(rest),
        Ok(toks) => if toks.len() >= 2 && endpoint_readable(toks[0]) {
            match apps_of(toks[1], dialplan_token(toks)) {
                Some(Err(rest)) => Some(rest),
                _ => None,
            }
        } else {
            None
        },
    }
}

/// Whether `o` is what reading originate text `s` gives.
pub open spec fn originate_read(o: Originate, s: Seq<char>) -> bool {
    match split_tokens(originate_body(s), ' ') {
        Ok(toks) => {
            &&& endpoint_read(o.endpoint, toks[0])
            &&& apps_of(toks[1], dialplan_token(toks)) == Some(Ok::<Seq<(Seq<char>, Option<Seq<char>>)>, Seq<char>>(apps_view(o.applications.0@)))
            &&& o.dialplan == dialplan_token(toks)
            &&& crate::event::opt_view(o.context) == tail_at(toks, 0)
            &&& crate::event::opt_view(o.cid_name) == tail_at(toks, 1)
            &&& crate::event::opt_view(o.cid_num) == tail_at(toks, 2)
            &&& match tail_at(toks, 3) {
                Some(t) => o.timeout matches Some(n) && unsigned_value(t) == Some(n as int),
                None => o.timeout is None,
            }
        },
        Err(_) => false,
    }
}

fn tail_token(toks: &Vec<String>, i: usize) -> (r: Option<String>)
    ensures
        crate::event::opt_view(r) == if i < toks@.len() { Some(toks@[i as int]@) } else { None },
{
    if i < toks.len() {
        Some(toks[i].clone())
    } else {
        None
    }
}

impl Originate {
    /// The command text; the applications must suit the dialplan.
    pub fn to_string(&self) -> (r: String)
        requires
            apps_fit(*self),
        ensures
            r@ == originate_text(*self),
    {
        let dp = match self.dialplan {
            Some(d) => d,
            None => DialplanType::Xml,
        };
        let apps = match self.applications.to_string_with_dialplan(&dp) {
            Ok(t) => t,
            Err(_) => String::new(),
        };
        let mut r = String::from_str("originate ");
        r.append(self.endpoint.to_string().as_str());
        r.append(" ");
        r.append(apps.as_str());
        match self.dialplan {
            Some(d) => {
                r.append(" ");
                r.append(d.to_string().as_str());
            },
            None => {},
        }
        append_opt(&mut r, &self.context);
        append_opt(&mut r, &self.cid_name);
        append_opt(&mut r, &self.cid_num);
        match self.timeout {
            Some(t) => {
                r.append(" ");
                r.append(decimal_string(t as u64).as_str());
            },
            None => {},
        }
        r
    }

    /// The command text, or why the applications do not suit the dialplan.
    pub fn try_to_string(&self) -> (r: Result<String, OriginateError>)
        ensures
            apps_fit(*self) ==> (r matches Ok(t) && t@ == originate_text(*self)),
            !apps_fit(*self) ==> r is Err,
    {
        let fits = match self.dialplan {
            Some(DialplanType::Inline) => true,
            _ => self.applications.0.len() == 1,
        };
        if fits {
            Ok(self.to_string())
        } else if self.applications.0.len() > 1 {
            Err(OriginateError::TooManyApplications)
        } else {
            Err(parse_error("no application to originate"))
        }
    }

    /// Reads originate text: endpoint, applications, optional dialplan, then
    /// context, caller id name, caller id number and timeout, each optional.
    pub fn parse(s: &str) -> (r: Result<Self, OriginateError>)
        ensures
            r is Ok <==> originate_readable(s@),
            r matches Ok(o) ==> originate_read(o, s@),
            split_tokens(originate_body(s@), ' ') matches Err(rest) ==> (r matches Err(OriginateError::UnclosedQuote(x)) && x@ == rest),
            r is Err ==> (r matches Err(OriginateError::UnclosedQuote(_))
                || r matches Err(OriginateError::ParseError(_))),
            r is Err && quote_failure(s@) is None ==> (r matches Err(OriginateError::ParseError(_))),
            r matches Err(OriginateError::UnclosedQuote(x)) ==> quote_failure(s@) == Some(x@),
    {
        let body = match strip_prefix(s, "originate") {
            Some(rest) => rest,
            None => owned(s),
        };
        let bv = chars_of(body.as_str());
        let trimmed_body = {
            let (a, b) = trim_range(&bv, 0, bv.len());
            assert(bv@.subrange(0, bv@.len() as int) =~= bv@);
            string_from(&bv, a, b)
        };
        let toks = originate_split(trimmed_body.as_str(), ' ')?;
        let ghost tv = string_views(toks@);
        if toks.len() == 0 {
            return Err(parse_error("empty originate"));
        }
        let endpoint = Endpoint::parse(toks[0].as_str())?;
        if toks.len() < 2 {
            return Err(parse_error("missing application in originate"));
        }
        let dialplan = if toks.len() > 2 {
            match DialplanType::parse(toks[2].as_str()) {
                Ok(d) => {
                    proof {
                        reveal_strlit("inline");
                        reveal_strlit("XML");
                    }
                    assert(d == DialplanType::Inline ==> tv[2] == "inline"@);
                    assert(d == DialplanType::Xml ==> tv[2] == "XML"@);
                    assert(tv[2] == "inline"@ ==> d == DialplanType::Inline) by {
                        if tv[2] == "inline"@ && d == DialplanType::Xml {
                            assert("inline"@[0] != "XML"@[0]);
                        }
                    }
                    Some(d)
                },
                Err(_) => None,
            }
        } else {
            None
        };
        assert(dialplan == dialplan_token(tv));
        let applications = parse_application_list(toks[1].as_str(), dialplan.as_ref())?;
        let start: usize = if dialplan.is_some() { 3 } else { 2 };
        assert(start == tail_start(tv));
        let context = tail_token(&toks, start);
        let cid_name = tail_token(&toks, start + 1);
        let cid_num = tail_token(&toks, start + 2);
        let timeout = if start + 3 < toks.len() {
            let tc = chars_of(toks[start + 3].as_str());
            assert(tc@.subrange(0, tc@.len() as int) =~= tc@);
            match parse_u64(&tc, 0, tc.len()) {
                Some(n) => {
                    if n > 4294967295 {
                        return Err(parse_error("invalid timeout"));
                    }
                    Some(n as u32)
                },
                None => {
                    proof {
                        crate::numbers::lemma_unsigned_value_nonneg(tc@);
                    }
                    return Err(parse_error("invalid timeout"));
                },
            }
        } else {
            None
        };
        Ok(Originate { endpoint, applications, dialplan, context, cid_name, cid_num, timeout })
    }
}

impl std::str::FromStr for Originate {
    type Err = OriginateError;

    fn from_str(s: &str) -> Result<Self, OriginateError> {
        Self::parse(s)
    }
}

} // verus!
