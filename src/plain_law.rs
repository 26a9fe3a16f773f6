//! The plain event form read back: what `to_plain_format` writes, the plain
//! event parser reads as the same headers and body.

use vstd::prelude::*;
use vstd::utf8::*;

use crate::event::{header_line, other_lines, plain_text, set_apart};
use crate::headers::{keys_sorted, lookup, pairs_map, seq_lt, lemma_seq_lt_irrefl};
use crate::numbers::{decimal, digit_char};
use crate::pct::{decoded, encode_byte, encode_bytes, encoded, is_alnum, lemma_value_round_trip};
use crate::protocol::{blank_line_pos, decoded_header_block, header_lines, plain_event_body, plain_event_headers};
use crate::text::{char_pos, is_ws, lemma_char_pos_unique, trim, trim_end, trim_start};

verus! {

/// Header names that the plain form carries as they are: not empty, no
/// white space at either end, no colon and no newline.
pub open spec fn plain_name(k: Seq<char>) -> bool {
    &&& k.len() > 0
    &&& !is_ws(k[0])
    &&& !is_ws(k.last())
    &&& forall|i: int| 0 <= i < k.len() ==> #[trigger] k[i] != ':' && k[i] != '\n'
}

/// Whether every character is printable without white space, colon or newline.
pub open spec fn plain_chars(s: Seq<char>) -> bool {
    forall|i: int| 0 <= i < s.len() ==> !is_ws(#[trigger] s[i]) && s[i] != ':' && s[i] != '\n'
}

proof fn lemma_encode_byte_plain(b: u8)
    ensures
        plain_chars(encode_byte(b)),
{
    let e = encode_byte(b);
    if is_alnum(b) {
        assert(e[0] == b as char);
    } else {
        assert(0 <= b as int / 16 < 16 && 0 <= b as int % 16 < 16);
    }
}

/// Percent-encoded text holds no white space, colon or newline.
proof fn lemma_encode_bytes_plain(b: Seq<u8>)
    ensures
        plain_chars(encode_bytes(b)),
    decreases b.len(),
{
    if b.len() > 0 {
        lemma_encode_byte_plain(b[0]);
        lemma_encode_bytes_plain(b.drop_first());
        let e = encode_byte(b[0]);
        let r = encode_bytes(b.drop_first());
        assert forall|i: int| 0 <= i < (e + r).len() implies !is_ws(#[trigger] (e + r)[i]) && (e + r)[i] != ':'
            && (e + r)[i] != '\n' by {
            if i < e.len() {
                assert((e + r)[i] == e[i]);
            } else {
                assert((e + r)[i] == r[i - e.len()]);
            }
        }
    }
}

proof fn lemma_trim_plain(s: Seq<char>)
    requires
        s.len() == 0 || (!is_ws(s[0]) && !is_ws(s.last())),
    ensures
        trim(s) == s,
{
}

proof fn lemma_trim_space_prefix(e: Seq<char>)
    requires
        plain_chars(e),
    ensures
        trim(seq![' '] + e) == e,
{
    let s = seq![' '] + e;
    assert(s.drop_first() =~= e);
    assert(trim_start(s) == trim_start(e));
    if e.len() > 0 {
        assert(!is_ws(e[0]) && !is_ws(e.last()));
    }
}

/// One header line read back.
proof fn lemma_line_read(k: Seq<char>, v: Seq<char>)
    requires
        plain_name(k),
    ensures
        ({
            let t = trim(k + ": "@ + encoded(v));
            &&& t.len() > 0
            &&& char_pos(t, ':') == Some(k.len() as int)
            &&& trim(t.take(k.len() as int)) == k
            &&& decoded(trim(t.skip(k.len() as int + 1))) == v
        }),
{
    reveal_strlit(": ");
    let e = encoded(v);
    lemma_encode_bytes_plain(encode_utf8(v));
    lemma_value_round_trip(v);
    let line = k + ": "@ + e;
    let t = trim(line);
    if e.len() == 0 {
        assert(line =~= k + seq![':', ' ']);
        assert(line.drop_last() =~= k + seq![':']);
        assert(trim_start(line) == line);
        assert(trim_end(line) == trim_end(k + seq![':']));
        lemma_trim_plain(k + seq![':']);
        assert(t =~= k + seq![':']);
    } else {
        assert(line.last() == e.last());
        assert(line[0] == k[0]);
        lemma_trim_plain(line);
    }
    assert(t[k.len() as int] == ':');
    assert forall|j: int| 0 <= j < k.len() implies t[j] != ':' by {
        assert(t[j] == k[j]);
    }
    lemma_char_pos_unique(t, ':', k.len() as int);
    assert(t.take(k.len() as int) =~= k);
    lemma_trim_plain(k);
    if e.len() == 0 {
        assert(t.skip(k.len() as int + 1) =~= Seq::<char>::empty());
        assert(v =~= Seq::<char>::empty()) by {
            assert(decoded(e) == v);
            assert(e =~= Seq::<char>::empty());
        }
    } else {
        assert(t.skip(k.len() as int + 1) =~= seq![' '] + e);
        lemma_trim_space_prefix(e);
    }
}

/// The two names set apart, and that they are plain names.
proof fn lemma_fixed_names()
    ensures
        plain_name("Event-Name"@),
        plain_name("Content-Length"@),
        "Event-Name"@ != "Content-Length"@,
        set_apart("Event-Name"@),
        set_apart("Content-Length"@),
        forall|k: Seq<char>| #[trigger] set_apart(k) ==> k == "Event-Name"@ || k == "Content-Length"@,
{
    reveal(set_apart);
    reveal_strlit("Event-Name");
    reveal_strlit("Content-Length");
    assert("Event-Name"@[0] != "Content-Length"@[0]);
}

/// Lines of header records, in order.
pub open spec fn lines_of(r: Seq<(Seq<char>, Seq<char>)>) -> Seq<char>
    decreases r.len(),
{
    if r.len() == 0 {
        Seq::empty()
    } else {
        header_line(r[0].0, r[0].1) + lines_of(r.drop_first())
    }
}

/// `acc` with the records inserted in order.
pub open spec fn insert_from(acc: Map<Seq<char>, Seq<char>>, r: Seq<(Seq<char>, Seq<char>)>) -> Map<Seq<char>, Seq<char>>
    decreases r.len(),
{
    if r.len() == 0 {
        acc
    } else {
        insert_from(acc.insert(r[0].0, r[0].1), r.drop_first())
    }
}

/// Whether every record's name is a plain name.
pub open spec fn plain_names(r: Seq<(Seq<char>, Seq<char>)>) -> bool {
    forall|i: int| 0 <= i < r.len() ==> plain_name(#[trigger] r[i].0)
}

proof fn lemma_lines_concat(a: Seq<(Seq<char>, Seq<char>)>, b: Seq<(Seq<char>, Seq<char>)>)
    ensures
        lines_of(a + b) == lines_of(a) + lines_of(b),
    decreases a.len(),
{
    if a.len() == 0 {
        assert(a + b =~= b);
    } else {
        assert((a + b).drop_first() =~= a.drop_first() + b);
        lemma_lines_concat(a.drop_first(), b);
    }
}

proof fn lemma_line_shape(k: Seq<char>, v: Seq<char>)
    requires
        plain_name(k),
    ensures
        header_line(k, v).len() >= 3,
        header_line(k, v).last() == '\n',
        header_line(k, v)[0] == k[0],
        header_line(k, v)[header_line(k, v).len() - 2] != '\n',
        forall|j: int| 0 <= j < header_line(k, v).len() - 1 ==> #[trigger] header_line(k, v)[j] != '\n',
        header_line(k, v).drop_last() == k + ": "@ + encoded(v),
{
    reveal_strlit(": ");
    reveal_strlit("\n");
    let e = encoded(v);
    lemma_encode_bytes_plain(encode_utf8(v));
    let l = header_line(k, v);
    assert(l =~= k + seq![':', ' '] + e + seq!['\n']);
    assert forall|j: int| 0 <= j < l.len() - 1 implies #[trigger] l[j] != '\n' by {
        if j < k.len() {
            assert(l[j] == k[j]);
        } else if j < k.len() + 2 {
        } else {
            assert(l[j] == e[j - k.len() - 2]);
        }
    }
    assert(l.drop_last() =~= k + ": "@ + e);
}

/// Reading a run of header lines inserts their records in order.
proof fn lemma_read_lines(r: Seq<(Seq<char>, Seq<char>)>, tail: Seq<char>, acc: Map<Seq<char>, Seq<char>>)
    requires
        plain_names(r),
    ensures
        header_lines(lines_of(r) + tail, acc, true) == header_lines(tail, insert_from(acc, r), true),
    decreases r.len(),
{
    if r.len() == 0 {
        assert(lines_of(r) + tail =~= tail);
    } else {
        let (k, v) = r[0];
        assert(plain_name(r[0].0));
        let l = header_line(k, v);
        lemma_line_shape(k, v);
        lemma_line_read(k, v);
        let rest = lines_of(r.drop_first()) + tail;
        let s = lines_of(r) + tail;
        assert(s =~= l + rest);
        assert(s[l.len() - 1] == '\n');
        assert forall|j: int| 0 <= j < l.len() - 1 implies s[j] != '\n' by {
            assert(s[j] == l[j]);
        }
        lemma_char_pos_unique(s, '\n', l.len() - 1);
        assert(s.take(l.len() - 1) =~= l.drop_last());
        assert(s.skip(l.len() as int) =~= rest);
        assert(forall|i: int| 0 <= i < r.drop_first().len() ==> r.drop_first()[i] == r[i + 1]);
        lemma_read_lines(r.drop_first(), tail, acc.insert(k, v));
    }
}

/// Reading the lines without the last newline gives the same records.
proof fn lemma_read_lines_open_end(r: Seq<(Seq<char>, Seq<char>)>, acc: Map<Seq<char>, Seq<char>>)
    requires
        plain_names(r),
        r.len() > 0,
    ensures
        header_lines(lines_of(r).drop_last(), acc, true) == Some(insert_from(acc, r)),
{
    let front = r.drop_last();
    let (k, v) = r.last();
    assert(plain_name(r[r.len() - 1].0));
    assert(r =~= front + seq![(k, v)]);
    lemma_lines_concat(front, seq![(k, v)]);
    assert(lines_of(seq![(k, v)]) =~= header_line(k, v)) by {
        assert(seq![(k, v)].drop_first() =~= Seq::<(Seq<char>, Seq<char>)>::empty());
        assert(lines_of(seq![(k, v)].drop_first()) =~= Seq::<char>::empty());
        assert(seq![(k, v)][0] == (k, v));
    }
    lemma_line_shape(k, v);
    lemma_line_read(k, v);
    let last = k + ": "@ + encoded(v);
    assert(lines_of(r).drop_last() =~= lines_of(front) + last);
    assert(forall|i: int| 0 <= i < front.len() ==> front[i] == r[i]);
    lemma_read_lines(front, last, acc);
    crate::text::lemma_char_pos(last, '\n');
    assert forall|j: int| 0 <= j < last.len() implies last[j] != '\n' by {
        assert(last[j] == header_line(k, v)[j]);
    }
    lemma_char_pos_unique(last, '\n', last.len() as int);
    lemma_insert_from_last(acc, front, k, v);
}

proof fn lemma_insert_from_last(acc: Map<Seq<char>, Seq<char>>, front: Seq<(Seq<char>, Seq<char>)>, k: Seq<char>, v: Seq<char>)
    ensures
        insert_from(acc, front + seq![(k, v)]) == insert_from(acc, front).insert(k, v),
    decreases front.len(),
{
    let f = front + seq![(k, v)];
    if front.len() == 0 {
        assert(f =~= seq![(k, v)]);
        assert(f.drop_first() =~= Seq::<(Seq<char>, Seq<char>)>::empty());
        assert(f[0] == (k, v));
        assert(insert_from(acc, f) == insert_from(acc.insert(k, v), f.drop_first()));
    } else {
        assert(f.drop_first() =~= front.drop_first() + seq![(k, v)]);
        assert(f[0] == front[0]);
        lemma_insert_from_last(acc.insert(front[0].0, front[0].1), front.drop_first(), k, v);
    }
}

/// The first blank line of header lines followed by a newline is the one
/// they end with.
proof fn lemma_blank_after_lines(r: Seq<(Seq<char>, Seq<char>)>, rest: Seq<char>)
    requires
        plain_names(r),
        r.len() > 0,
    ensures
        blank_line_pos(lines_of(r) + "\n"@ + rest) == Some(lines_of(r).len() - 1),
    decreases r.len(),
{
    reveal_strlit("\n");
    let (k, v) = r[0];
    assert(plain_name(r[0].0));
    let l = header_line(k, v);
    lemma_line_shape(k, v);
    let tail = lines_of(r.drop_first()) + "\n"@ + rest;
    let s = lines_of(r) + "\n"@ + rest;
    assert(s =~= l + tail);
    lemma_blank_skip(s, l.len() - 1);
    if r.len() == 1 {
        assert(r.drop_first().len() == 0);
        assert(tail[0] == '\n');
        assert(s[l.len() - 1] == '\n' && s[l.len() as int] == '\n');
        lemma_blank_at(s, l.len() - 1);
    } else {
        assert(forall|i: int| 0 <= i < r.drop_first().len() ==> r.drop_first()[i] == r[i + 1]);
        let (k1, v1) = r[1];
        assert(plain_name(r[1].0));
        lemma_line_shape(k1, v1);
        assert(lines_of(r.drop_first()) =~= header_line(k1, v1) + lines_of(r.drop_first().drop_first()));
        assert(s[l.len() as int] == k1[0]);
        assert(k1[0] != '\n');
        lemma_blank_after_lines(r.drop_first(), rest);
        lemma_blank_skip(s, l.len() as int);
        assert(s.skip(l.len() as int) =~= tail);
    }
}

/// No blank line starts before `m`: the first one is that of `s.skip(m)`, shifted.
proof fn lemma_blank_skip(s: Seq<char>, m: int)
    requires
        0 <= m <= s.len(),
        forall|j: int| 0 <= j < m && j + 1 < s.len() ==> !(#[trigger] s[j] == '\n' && s[j + 1] == '\n'),
    ensures
        blank_line_pos(s) == match blank_line_pos(s.skip(m)) {
            Some(k) => Some(k + m),
            None => None::<int>,
        },
    decreases m,
{
    if m == 0 {
        assert(s.skip(0) =~= s);
    } else {
        assert(s.drop_first().skip(m - 1) =~= s.skip(m));
        assert forall|j: int| 0 <= j < m - 1 && j + 1 < s.drop_first().len() implies
            !(#[trigger] s.drop_first()[j] == '\n' && s.drop_first()[j + 1] == '\n') by {
            assert(s.drop_first()[j] == s[j + 1] && s.drop_first()[j + 1] == s[j + 2]);
        }
        lemma_blank_skip(s.drop_first(), m - 1);
        if s.len() >= 2 {
            assert(!(s[0] == '\n' && s[1] == '\n'));
        }
    }
}

/// A blank line at `m` with none before it is the first.
proof fn lemma_blank_at(s: Seq<char>, m: int)
    requires
        0 <= m,
        m + 1 < s.len(),
        s[m] == '\n' && s[m + 1] == '\n',
        forall|j: int| 0 <= j < m && j + 1 < s.len() ==> !(#[trigger] s[j] == '\n' && s[j + 1] == '\n'),
    ensures
        blank_line_pos(s) == Some(m),
{
    lemma_blank_skip(s, m);
    let t = s.skip(m);
    assert(t[0] == '\n' && t[1] == '\n');
}

/// Headers of `p` that the plain form writes in its sorted part.
pub open spec fn kept(p: Seq<(Seq<char>, Seq<char>)>) -> Seq<(Seq<char>, Seq<char>)>
    decreases p.len(),
{
    if p.len() == 0 {
        Seq::empty()
    } else if set_apart(p.last().0) {
        kept(p.drop_last())
    } else {
        kept(p.drop_last()).push(p.last())
    }
}

proof fn lemma_kept_lines(p: Seq<(Seq<char>, Seq<char>)>)
    ensures
        other_lines(p) == lines_of(kept(p)),
    decreases p.len(),
{
    if p.len() > 0 {
        let q = p.drop_last();
        lemma_kept_lines(q);
        let x = p.last();
        if !set_apart(x.0) {
            lemma_lines_concat(kept(q), seq![x]);
            assert(seq![x].drop_first() =~= Seq::<(Seq<char>, Seq<char>)>::empty());
            assert(lines_of(seq![x].drop_first()) =~= Seq::<char>::empty());
            assert(lines_of(seq![x]) =~= header_line(x.0, x.1));
            assert(kept(q).push(x) =~= kept(q) + seq![x]);
        }
    }
}

proof fn lemma_kept_members(p: Seq<(Seq<char>, Seq<char>)>)
    ensures
        forall|i: int| 0 <= i < kept(p).len() ==> !set_apart(#[trigger] kept(p)[i].0)
            && exists|j: int| 0 <= j < p.len() && p[j] == kept(p)[i],
        forall|j: int| 0 <= j < p.len() && !set_apart(#[trigger] p[j].0) ==> exists|i: int|
            0 <= i < kept(p).len() && kept(p)[i] == p[j],
    decreases p.len(),
{
    if p.len() > 0 {
        let q = p.drop_last();
        lemma_kept_members(q);
        let k = kept(p);
        assert forall|i: int| 0 <= i < k.len() implies !set_apart(#[trigger] k[i].0)
            && exists|j: int| 0 <= j < p.len() && p[j] == k[i] by {
            if i < kept(q).len() {
                assert(k[i] == kept(q)[i]);
                assert(!set_apart(kept(q)[i].0));
                let j = choose|j: int| 0 <= j < q.len() && q[j] == kept(q)[i];
                assert(p[j] == q[j]);
            } else {
                assert(p[p.len() - 1] == k[i]);
            }
        }
        assert forall|j: int| 0 <= j < p.len() && !set_apart(#[trigger] p[j].0) implies exists|i: int|
            0 <= i < k.len() && k[i] == p[j] by {
            if j < p.len() - 1 {
                assert(q[j] == p[j]);
                let i = choose|i: int| 0 <= i < kept(q).len() && kept(q)[i] == q[j];
                assert(k[i] == kept(q)[i]);
            } else {
                assert(k[k.len() - 1] == p[j]);
            }
        }
    }
}

/// Every name kept is below `key` when every name is.
proof fn lemma_kept_bound(q: Seq<(Seq<char>, Seq<char>)>, key: Seq<char>)
    requires
        forall|j: int| 0 <= j < q.len() ==> seq_lt(#[trigger] q[j].0, key),
    ensures
        forall|i: int| 0 <= i < kept(q).len() ==> seq_lt(#[trigger] kept(q)[i].0, key),
    decreases q.len(),
{
    if q.len() > 0 {
        let r = q.drop_last();
        assert forall|j: int| 0 <= j < r.len() implies seq_lt(#[trigger] r[j].0, key) by {
            assert(r[j] == q[j]);
        }
        lemma_kept_bound(r, key);
        assert(seq_lt(q[q.len() - 1].0, key));
        let kq = kept(q);
        assert forall|i: int| 0 <= i < kq.len() implies seq_lt(#[trigger] kq[i].0, key) by {
            if set_apart(q.last().0) {
                assert(kq[i] == kept(r)[i]);
            } else if i < kept(r).len() {
                assert(kq[i] == kept(r)[i]);
            } else {
                assert(kq[i] == q.last());
            }
        }
    }
}

#[verifier::spinoff_prover]
proof fn lemma_kept_sorted(p: Seq<(Seq<char>, Seq<char>)>)
    requires
        keys_sorted(p),
    ensures
        keys_sorted(kept(p)),
    decreases p.len(),
{
    if p.len() > 0 {
        let q = p.drop_last();
        let x = p.last();
        assert(keys_sorted(q)) by {
            assert forall|a: int, b: int| 0 <= a < b < q.len() implies seq_lt(#[trigger] q[a].0, #[trigger] q[b].0) by {
                assert(q[a] == p[a] && q[b] == p[b]);
            }
        }
        lemma_kept_sorted(q);
        if !set_apart(x.0) {
            assert forall|j: int| 0 <= j < q.len() implies seq_lt(#[trigger] q[j].0, x.0) by {
                assert(q[j] == p[j]);
                assert(seq_lt(p[j].0, p[p.len() - 1].0));
            }
            lemma_kept_bound(q, x.0);
            let k = kept(p);
            let kq = kept(q);
            assert(k == kq.push(x));
            assert forall|a: int, b: int| 0 <= a < b < k.len() implies seq_lt(#[trigger] k[a].0, #[trigger] k[b].0) by {
                assert(k[a] == kq[a]);
                if b < kq.len() {
                    assert(k[b] == kq[b]);
                    assert(seq_lt(kq[a].0, kq[b].0));
                } else {
                    assert(k[b] == x);
                    assert(seq_lt(kq[a].0, x.0));
                }
            }
        }
    }
}

/// Lookups after inserting records with distinct names in order.
proof fn lemma_insert_from_lookup(acc: Map<Seq<char>, Seq<char>>, r: Seq<(Seq<char>, Seq<char>)>, k: Seq<char>)
    requires
        forall|a: int, b: int| 0 <= a < b < r.len() ==> #[trigger] r[a].0 != #[trigger] r[b].0,
    ensures
        (exists|i: int| 0 <= i < r.len() && r[i].0 == k) ==> ({
            let i = choose|i: int| 0 <= i < r.len() && r[i].0 == k;
            lookup(insert_from(acc, r), k) == Some(r[i].1)
        }),
        !(exists|i: int| 0 <= i < r.len() && r[i].0 == k) ==> lookup(insert_from(acc, r), k) == lookup(acc, k),
    decreases r.len(),
{
    if r.len() > 0 {
        let t = r.drop_first();
        assert forall|a: int, b: int| 0 <= a < b < t.len() implies #[trigger] t[a].0 != #[trigger] t[b].0 by {
            assert(t[a] == r[a + 1] && t[b] == r[b + 1]);
        }
        lemma_insert_from_lookup(acc.insert(r[0].0, r[0].1), t, k);
        if exists|i: int| 0 <= i < r.len() && r[i].0 == k {
            let i = choose|i: int| 0 <= i < r.len() && r[i].0 == k;
            if i == 0 {
                assert(!(exists|j: int| 0 <= j < t.len() && t[j].0 == k)) by {
                    if exists|j: int| 0 <= j < t.len() && t[j].0 == k {
                        let j = choose|j: int| 0 <= j < t.len() && t[j].0 == k;
                        assert(r[j + 1].0 == r[0].0);
                    }
                }
            } else {
                assert(t[i - 1].0 == k);
                let i2 = choose|j: int| 0 <= j < t.len() && t[j].0 == k;
                if i2 != i - 1 {
                    assert(r[i2 + 1].0 == r[i].0);
                }
            }
        } else {
            assert(!(exists|j: int| 0 <= j < t.len() && t[j].0 == k)) by {
                if exists|j: int| 0 <= j < t.len() && t[j].0 == k {
                    let j = choose|j: int| 0 <= j < t.len() && t[j].0 == k;
                    assert(r[j + 1].0 == k);
                }
            }
            assert(r[0].0 != k);
        }
    }
}

proof fn lemma_decimal_digits(n: nat)
    ensures
        forall|i: int| 0 <= i < decimal(n).len() ==> '0' <= #[trigger] decimal(n)[i] <= '9',
        decimal(n).len() > 0,
    decreases n,
{
    if n >= 10 {
        lemma_decimal_digits(n / 10);
    }
}

/// Decimal digits need no percent-encoding.
proof fn lemma_encoded_digits(d: Seq<char>)
    requires
        forall|i: int| 0 <= i < d.len() ==> '0' <= #[trigger] d[i] <= '9',
    ensures
        encoded(d) == d,
    decreases d.len(),
{
    is_ascii_chars_encode_utf8(d);
    let b = encode_utf8(d);
    assert(b =~= d.map_values(|c: char| c as u8));
    if d.len() > 0 {
        lemma_encoded_digits(d.drop_first());
        is_ascii_chars_encode_utf8(d.drop_first());
        assert(b.drop_first() =~= encode_utf8(d.drop_first()));
        assert(encode_byte(b[0]) =~= seq![d[0]]);
        assert(d =~= seq![d[0]] + d.drop_first());
    }
}

/// The `Event-Name` record that the plain form writes first.
pub open spec fn en_record(m: Map<Seq<char>, Seq<char>>) -> Seq<(Seq<char>, Seq<char>)> {
    match lookup(m, "Event-Name"@) {
        Some(n) => seq![("Event-Name"@, n)],
        None => Seq::empty(),
    }
}

/// The `Content-Length` record that the plain form writes last.
pub open spec fn cl_record(body: Option<Seq<char>>) -> Seq<(Seq<char>, Seq<char>)> {
    match body {
        Some(b) => seq![("Content-Length"@, decimal((encode_utf8(b).len() as usize) as nat))],
        None => Seq::empty(),
    }
}

/// Header records of the plain form, in the order written.
pub open spec fn records(p: Seq<(Seq<char>, Seq<char>)>, body: Option<Seq<char>>) -> Seq<(Seq<char>, Seq<char>)> {
    en_record(pairs_map(p)) + kept(p) + cl_record(body)
}

/// What follows the blank line of the plain form.
pub open spec fn after_blank(body: Option<Seq<char>>) -> Seq<char> {
    match body {
        Some(b) => b,
        None => Seq::empty(),
    }
}

proof fn lemma_single_line(k: Seq<char>, v: Seq<char>)
    ensures
        lines_of(seq![(k, v)]) == header_line(k, v),
{
    assert(seq![(k, v)].drop_first() =~= Seq::<(Seq<char>, Seq<char>)>::empty());
    assert(lines_of(seq![(k, v)].drop_first()) =~= Seq::<char>::empty());
    assert(lines_of(seq![(k, v)]) =~= header_line(k, v));
}

proof fn lemma_text_shape(p: Seq<(Seq<char>, Seq<char>)>, body: Option<Seq<char>>)
    ensures
        plain_text(p, body) == lines_of(records(p, body)) + "\n"@ + after_blank(body),
{
    reveal_strlit("Content-Length");
    reveal_strlit("Content-Length: ");
    reveal_strlit(": ");
    let m = pairs_map(p);
    let en_rec = en_record(m);
    let cl_rec = cl_record(body);
    let k = kept(p);
    lemma_kept_lines(p);
    lemma_lines_concat(en_rec, k);
    lemma_lines_concat(en_rec + k, cl_rec);
    if let Some(n) = lookup(m, "Event-Name"@) {
        lemma_single_line("Event-Name"@, n);
    } else {
        assert(lines_of(en_rec) =~= Seq::<char>::empty());
    }
    if let Some(b) = body {
        let d = decimal((encode_utf8(b).len() as usize) as nat);
        lemma_decimal_digits((encode_utf8(b).len() as usize) as nat);
        lemma_encoded_digits(d);
        lemma_single_line("Content-Length"@, d);
        assert("Content-Length: "@ =~= "Content-Length"@ + ": "@);
    } else {
        assert(lines_of(cl_rec) =~= Seq::<char>::empty());
    }
    assert(plain_text(p, body) =~= lines_of(records(p, body)) + "\n"@ + after_blank(body));
}

/// Records with the fixed names at the ends and sorted plain names between
/// have plain, distinct names.
#[verifier::spinoff_prover]
proof fn lemma_names_general(
    en_rec: Seq<(Seq<char>, Seq<char>)>,
    k: Seq<(Seq<char>, Seq<char>)>,
    cl_rec: Seq<(Seq<char>, Seq<char>)>,
)
    requires
        en_rec.len() <= 1,
        en_rec.len() == 1 ==> en_rec[0].0 == "Event-Name"@,
        cl_rec.len() <= 1,
        cl_rec.len() == 1 ==> cl_rec[0].0 == "Content-Length"@,
        keys_sorted(k),
        forall|i: int| 0 <= i < k.len() ==> !set_apart(#[trigger] k[i].0) && plain_name(k[i].0),
    ensures
        plain_names(en_rec + k + cl_rec),
        forall|a: int, b: int| 0 <= a < b < (en_rec + k + cl_rec).len() ==> #[trigger] (en_rec + k + cl_rec)[a].0
            != #[trigger] (en_rec + k + cl_rec)[b].0,
{
    lemma_fixed_names();
    let r = en_rec + k + cl_rec;
    let ea = en_rec.len();
    let kb = ea + k.len();
    assert forall|i: int| 0 <= i < r.len() implies plain_name(#[trigger] r[i].0) by {
        if i < ea {
            assert(r[i] == en_rec[i]);
        } else if i < kb {
            assert(r[i] == k[i - ea]);
        } else {
            assert(r[i] == cl_rec[i - kb]);
        }
    }
    assert forall|a: int, b2: int| 0 <= a < b2 < r.len() implies #[trigger] r[a].0 != #[trigger] r[b2].0 by {
        if a < ea {
            assert(r[a] == en_rec[a]);
            if b2 < kb {
                assert(r[b2] == k[b2 - ea]);
                assert(!set_apart(k[b2 - ea].0));
            } else {
                assert(r[b2] == cl_rec[b2 - kb]);
            }
        } else if a < kb {
            assert(r[a] == k[a - ea]);
            assert(!set_apart(k[a - ea].0));
            if b2 < kb {
                assert(r[b2] == k[b2 - ea]);
                assert(seq_lt(k[a - ea].0, k[b2 - ea].0));
                lemma_seq_lt_irrefl(k[a - ea].0);
            } else {
                assert(r[b2] == cl_rec[b2 - kb]);
            }
        }
    }
}

/// Inserting such records builds the map they were taken from.
#[verifier::spinoff_prover]
proof fn lemma_map_general(
    m: Map<Seq<char>, Seq<char>>,
    en_rec: Seq<(Seq<char>, Seq<char>)>,
    k: Seq<(Seq<char>, Seq<char>)>,
    cl_rec: Seq<(Seq<char>, Seq<char>)>,
)
    requires
        forall|a: int, b: int| 0 <= a < b < (en_rec + k + cl_rec).len() ==> #[trigger] (en_rec + k + cl_rec)[a].0
            != #[trigger] (en_rec + k + cl_rec)[b].0,
        en_rec == (if m.contains_key("Event-Name"@) { seq![("Event-Name"@, m["Event-Name"@])] } else { Seq::empty() }),
        cl_rec == (if m.contains_key("Content-Length"@) { seq![("Content-Length"@, m["Content-Length"@])] } else { Seq::empty() }),
        forall|i: int| 0 <= i < k.len() ==> !set_apart(#[trigger] k[i].0) && m.contains_key(k[i].0) && m[k[i].0] == k[i].1,
        forall|key: Seq<char>| m.contains_key(key) && !set_apart(key) ==> exists|i: int| 0 <= i < k.len() && #[trigger] k[i].0 == key,
    ensures
        insert_from(Map::empty(), en_rec + k + cl_rec) == m,
{
    lemma_fixed_names();
    let r = en_rec + k + cl_rec;
    let im = insert_from(Map::empty(), r);
    let ea = en_rec.len();
    let kb = ea + k.len();
    assert forall|key: Seq<char>| #![auto] lookup(im, key) == lookup(m, key) by {
        lemma_insert_from_lookup(Map::empty(), r, key);
        if exists|i: int| 0 <= i < r.len() && r[i].0 == key {
            let i = choose|i: int| 0 <= i < r.len() && r[i].0 == key;
            if i < ea {
                assert(r[i] == en_rec[i]);
            } else if i < kb {
                assert(r[i] == k[i - ea]);
            } else {
                assert(r[i] == cl_rec[i - kb]);
            }
        } else if m.contains_key(key) {
            if !set_apart(key) {
                let i = choose|i: int| 0 <= i < k.len() && #[trigger] k[i].0 == key;
                assert(r[ea + i] == k[i]);
            } else if key == "Event-Name"@ {
                assert(r[0] == en_rec[0]);
            } else {
                assert(r[kb as int] == cl_rec[0]);
            }
        }
    }
    assert forall|key: Seq<char>| #![auto] im.contains_key(key) == m.contains_key(key) by {
        assert(lookup(im, key) == lookup(m, key));
    }
    assert forall|key: Seq<char>| #![auto] im.contains_key(key) implies im[key] == m[key] by {
        assert(lookup(im, key) == lookup(m, key));
    }
    assert(im =~= m);
}

/// Headers that reading the plain form gives back: those of the event, with
/// `Content-Length` holding the body's length when there is a body, and
/// absent when there is none.
pub open spec fn plain_headers_of(m: Map<Seq<char>, Seq<char>>, body: Option<Seq<char>>) -> Map<Seq<char>, Seq<char>> {
    match body {
        Some(b) => m.insert("Content-Length"@, decimal((encode_utf8(b).len() as usize) as nat)),
        None => m.remove("Content-Length"@),
    }
}

proof fn lemma_en_shape(m: Map<Seq<char>, Seq<char>>, body: Option<Seq<char>>)
    ensures
        en_record(m) == (if plain_headers_of(m, body).contains_key("Event-Name"@) {
            seq![("Event-Name"@, plain_headers_of(m, body)["Event-Name"@])]
        } else {
            Seq::empty()
        }),
{
    lemma_fixed_names();
}

proof fn lemma_cl_shape(m: Map<Seq<char>, Seq<char>>, body: Option<Seq<char>>)
    ensures
        cl_record(body) == (if plain_headers_of(m, body).contains_key("Content-Length"@) {
            seq![("Content-Length"@, plain_headers_of(m, body)["Content-Length"@])]
        } else {
            Seq::empty()
        }),
{
}

#[verifier::spinoff_prover]
#[verifier::rlimit(100)]
proof fn lemma_kept_values(p: Seq<(Seq<char>, Seq<char>)>)
    requires
        keys_sorted(p),
        forall|i: int| 0 <= i < p.len() ==> plain_name(#[trigger] p[i].0),
    ensures
        forall|i: int| 0 <= i < kept(p).len() ==> !set_apart(#[trigger] kept(p)[i].0) && plain_name(kept(p)[i].0)
            && pairs_map(p).contains_key(kept(p)[i].0) && pairs_map(p)[kept(p)[i].0] == kept(p)[i].1,
{
    let k = kept(p);
    lemma_kept_members(p);
    assert forall|i: int| 0 <= i < k.len() implies !set_apart(#[trigger] k[i].0) && plain_name(k[i].0)
        && pairs_map(p).contains_key(k[i].0) && pairs_map(p)[k[i].0] == k[i].1 by {
        assert(!set_apart(k[i].0));
        let j = choose|j: int| 0 <= j < p.len() && p[j] == k[i];
        assert(plain_name(p[j].0));
        crate::headers::lemma_pairs_map_at(p, j);
    }
}

#[verifier::spinoff_prover]
#[verifier::rlimit(100)]
proof fn lemma_kept_cover(p: Seq<(Seq<char>, Seq<char>)>)
    ensures
        forall|key: Seq<char>| pairs_map(p).contains_key(key) && !set_apart(key) ==> exists|i: int|
            0 <= i < kept(p).len() && #[trigger] kept(p)[i].0 == key,
{
    let k = kept(p);
    lemma_kept_members(p);
    assert forall|key: Seq<char>| pairs_map(p).contains_key(key) && !set_apart(key) implies exists|i: int|
        0 <= i < k.len() && #[trigger] k[i].0 == key by {
        let j = choose|j: int| 0 <= j < p.len() && p[j].0 == key;
        assert(!set_apart(p[j].0));
        let i = choose|i: int| 0 <= i < k.len() && k[i] == p[j];
        assert(k[i].0 == key);
    }
}

/// What the kept headers say of the headers read back.
#[verifier::spinoff_prover]
#[verifier::rlimit(100)]
proof fn lemma_kept_target(p: Seq<(Seq<char>, Seq<char>)>, body: Option<Seq<char>>)
    requires
        keys_sorted(p),
        forall|i: int| 0 <= i < p.len() ==> plain_name(#[trigger] p[i].0),
    ensures
        forall|i: int| 0 <= i < kept(p).len() ==> !set_apart(#[trigger] kept(p)[i].0)
            && plain_headers_of(pairs_map(p), body).contains_key(kept(p)[i].0)
            && plain_headers_of(pairs_map(p), body)[kept(p)[i].0] == kept(p)[i].1,
        forall|key: Seq<char>| plain_headers_of(pairs_map(p), body).contains_key(key) && !set_apart(key) ==> exists|i: int|
            0 <= i < kept(p).len() && #[trigger] kept(p)[i].0 == key,
{
    lemma_fixed_names();
    lemma_kept_values(p);
    lemma_kept_cover(p);
    let m = pairs_map(p);
    let t = plain_headers_of(m, body);
    assert forall|i: int| 0 <= i < kept(p).len() implies !set_apart(#[trigger] kept(p)[i].0)
        && t.contains_key(kept(p)[i].0) && t[kept(p)[i].0] == kept(p)[i].1 by {
        assert(!set_apart(kept(p)[i].0));
        assert(kept(p)[i].0 != "Content-Length"@);
    }
    assert forall|key: Seq<char>| t.contains_key(key) && !set_apart(key) implies exists|i: int|
        0 <= i < kept(p).len() && #[trigger] kept(p)[i].0 == key by {
        assert(key != "Content-Length"@);
        assert(m.contains_key(key));
    }
}

#[verifier::spinoff_prover]
proof fn lemma_records_facts(p: Seq<(Seq<char>, Seq<char>)>, body: Option<Seq<char>>)
    requires
        keys_sorted(p),
        forall|i: int| 0 <= i < p.len() ==> plain_name(#[trigger] p[i].0),
    ensures
        plain_names(records(p, body)),
        forall|a: int, b: int| 0 <= a < b < records(p, body).len() ==> #[trigger] records(p, body)[a].0
            != #[trigger] records(p, body)[b].0,
        insert_from(Map::empty(), records(p, body)) == plain_headers_of(pairs_map(p), body),
{
    let m = pairs_map(p);
    lemma_en_shape(m, body);
    lemma_cl_shape(m, body);
    lemma_kept_sorted(p);
    lemma_kept_values(p);
    lemma_kept_target(p, body);
    lemma_names_general(en_record(m), kept(p), cl_record(body));
    lemma_map_general(plain_headers_of(m, body), en_record(m), kept(p), cl_record(body));
}

/// Round trip of the plain event form: for any event whose header names can
/// be written as they are (not empty, no colon or newline, no white space at
/// either end), reading the plain form back gives the same body and the same
/// headers, except `Content-Length`, which holds the body's length when
/// there is a body and is absent when there is none.
pub proof fn lemma_plain_round_trip(p: Seq<(Seq<char>, Seq<char>)>, body: Option<Seq<char>>)
    requires
        keys_sorted(p),
        forall|i: int| 0 <= i < p.len() ==> plain_name(#[trigger] p[i].0),
    ensures
        plain_event_headers(plain_text(p, body)) == Some(plain_headers_of(pairs_map(p), body)),
        plain_event_body(plain_text(p, body), plain_headers_of(pairs_map(p), body)) == body,
{
    reveal_strlit("\n");
    let m = pairs_map(p);
    let r = records(p, body);
    let rest = after_blank(body);
    let t = plain_text(p, body);
    lemma_text_shape(p, body);
    lemma_records_facts(p, body);
    lemma_fixed_names();
    if r.len() > 0 {
        lemma_blank_after_lines(r, rest);
        let h = lines_of(r);
        assert(t.take(h.len() - 1) =~= h.drop_last());
        lemma_read_lines_open_end(r, Map::empty());
        assert(t.skip(h.len() - 1 + 2) =~= rest);
    } else {
        assert(body is None);
        assert(lines_of(r) =~= Seq::<char>::empty());
        assert(t =~= seq!['\n']);
        lemma_kept_cover(p);
        let target = plain_headers_of(m, body);
        assert(target =~= Map::<Seq<char>, Seq<char>>::empty()) by {
            assert forall|key: Seq<char>| !target.contains_key(key) by {
                if target.contains_key(key) {
                    if !set_apart(key) {
                        let i = choose|i: int| 0 <= i < kept(p).len() && #[trigger] kept(p)[i].0 == key;
                    } else {
                        assert(key == "Event-Name"@);
                    }
                }
            }
        }
        assert(blank_line_pos(t) is None);
        let s1 = t.skip(1);
        assert(s1 =~= Seq::<char>::empty());
        assert(char_pos(t, '\n') == Some(0int));
        assert(t.take(0) =~= Seq::<char>::empty());
        assert(header_lines(t, Map::empty(), true) == header_lines(s1, Map::empty(), true));
    }
}

} // verus!
