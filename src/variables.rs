//! Multi-value header conventions: `ARRAY::a|:b|:c` and typed multipart parts.

use vstd::prelude::*;

use crate::text::{chars_of, char_pos, find_char, has_prefix, push_char, str_eq, string_from, strip_prefix};

verus! {

/// The `ARRAY::` marker.
pub open spec fn array_marker() -> Seq<char> {
    seq!['A', 'R', 'R', 'A', 'Y', ':', ':']
}

/// The `|:` separator.
pub open spec fn array_sep() -> Seq<char> {
    seq!['|', ':']
}

/// Pieces of `s` between `|:` separators, left to right; `cur` is the piece
/// read so far.
pub open spec fn split_acc(s: Seq<char>, cur: Seq<char>) -> Seq<Seq<char>>
    decreases s.len(),
{
    if s.len() == 0 {
        seq![cur]
    } else if s.len() >= 2 && s[0] == '|' && s[1] == ':' {
        seq![cur] + split_acc(s.skip(2), Seq::empty())
    } else {
        split_acc(s.drop_first(), cur.push(s[0]))
    }
}

/// Pieces of `s` between `|:` separators, as `str::split` gives them.
pub open spec fn split_items(s: Seq<char>) -> Seq<Seq<char>> {
    split_acc(s, Seq::empty())
}

/// Items joined by `|:`.
pub open spec fn join_items(items: Seq<Seq<char>>) -> Seq<char>
    decreases items.len(),
{
    if items.len() == 0 {
        Seq::empty()
    } else if items.len() == 1 {
        items[0]
    } else {
        join_items(items.drop_last()) + array_sep() + items.last()
    }
}

/// The items that `ARRAY::` text holds, if it carries the marker.
pub open spec fn array_items(s: Seq<char>) -> Option<Seq<Seq<char>>> {
    if has_prefix(s, array_marker()) {
        Some(split_items(s.skip(7)))
    } else {
        None
    }
}

/// The `ARRAY::` text of the given items.
pub open spec fn array_text(items: Seq<Seq<char>>) -> Seq<char> {
    array_marker() + join_items(items)
}

/// Views of a list of strings.
pub open spec fn views(v: Seq<String>) -> Seq<Seq<char>> {
    v.map_values(|s: String| s@)
}

/// Splits `s` on `|:`.
fn split_on_sep(s: &Vec<char>) -> (r: Vec<String>)
    ensures
        views(r@) == split_items(s@),
{
    let mut items: Vec<String> = Vec::new();
    let mut cur = String::new();
    let mut i: usize = 0;
    assert(s@.skip(0) =~= s@);
    assert(views(items@) =~= Seq::<Seq<char>>::empty());
    while i < s.len()
        invariant
            i <= s@.len(),
            split_items(s@) == views(items@) + split_acc(s@.skip(i as int), cur@),
        decreases s@.len() - i,
    {
        let ghost rest = s@.skip(i as int);
        if i + 1 < s.len() && s[i] == '|' && s[i + 1] == ':' {
            assert(rest.skip(2) =~= s@.skip(i + 2));
            let done = cur;
            cur = String::new();
            items.push(done);
            assert(views(items@) =~= views(items@.drop_last()) + seq![done@]);
            i = i + 2;
        } else {
            assert(rest.drop_first() =~= s@.skip(i + 1));
            push_char(&mut cur, s[i]);
            i = i + 1;
        }
    }
    assert(s@.skip(i as int) =~= Seq::<char>::empty());
    items.push(cur);
    proof {
        assert(views(items@) =~= views(items@.drop_last()) + seq![cur@]);
    }
    items
}

/// Parsed `ARRAY::item1|:item2` value.
#[derive(Debug, Clone, PartialEq, Eq)]
pub struct EslArray(Vec<String>);

impl EslArray {
    pub closed spec fn view(&self) -> Seq<Seq<char>> {
        views(self.0@)
    }

    /// Parses `ARRAY::` text; `None` without the marker.
    pub fn parse(s: &str) -> (r: Option<Self>)
        ensures
            match array_items(s@) {
                Some(items) => r matches Some(a) && a@ == items,
                None => r is None,
            },
    {
        let marker = chars_of("ARRAY::");
        let v = chars_of(s);
        proof {
            reveal_strlit("ARRAY::");
            assert(marker@ =~= array_marker());
        }
        match strip_prefix(s, "ARRAY::") {
            Some(body) => {
                let b = chars_of(body.as_str());
                Some(EslArray(split_on_sep(&b)))
            },
            None => None,
        }
    }

    /// An array of the given items.
    pub fn new(items: Vec<String>) -> (r: Self)
        ensures
            r@ == views(items@),
    {
        EslArray(items)
    }

    /// Appends an item.
    pub fn push(&mut self, value: String)
        ensures
            final(self)@ == old(self)@.push(value@),
    {
        self.0.push(value);
        assert(views(self.0@) =~= views(old(self).0@).push(value@));
    }

    /// Prepends an item.
    pub fn unshift(&mut self, value: String)
        ensures
            final(self)@ == seq![value@] + old(self)@,
    {
        self.0.insert(0, value);
        assert(views(self.0@) =~= seq![value@] + views(old(self).0@));
    }

    /// The items, in order.
    pub fn items(&self) -> (r: &[String])
        ensures
            views(r@) == self@,
    {
        self.0.as_slice()
    }

    /// Number of items.
    pub fn len(&self) -> (r: usize)
        ensures
            r == self@.len(),
    {
        self.0.len()
    }

    /// Whether there is no item.
    pub fn is_empty(&self) -> (r: bool)
        ensures
            r == (self@.len() == 0),
    {
        self.0.len() == 0
    }

    /// The `ARRAY::` text of the items.
    pub fn to_string(&self) -> (r: String)
        ensures
            r@ == array_text(self@),
    {
        let mut r = String::from_str("ARRAY::");
        proof {
            reveal_strlit("ARRAY::");
            reveal_strlit("|:");
            assert("ARRAY::"@ =~= array_marker());
            assert("|:"@ =~= array_sep());
            assert(self@.take(0) =~= Seq::<Seq<char>>::empty());
            assert(r@ =~= array_marker() + join_items(self@.take(0)));
        }
        let mut i: usize = 0;
        while i < self.0.len()
            invariant
                i <= self@.len(),
                "|:"@ == array_sep(),
                r@ == array_marker() + join_items(self@.take(i as int)),
            decreases self@.len() - i,
        {
            let ghost before = r@;
            if i > 0 {
                r.append("|:");
            }
            r.append(self.0[i].as_str());
            proof {
                let t = self@.take(i + 1);
                assert(t.drop_last() =~= self@.take(i as int));
                assert(t.last() == self.0@[i as int]@);
                if i == 0 {
                    assert(join_items(t) == t[0]);
                    assert(r@ =~= array_marker() + join_items(t));
                } else {
                    assert(r@ =~= before + array_sep() + t.last());
                    assert(r@ =~= array_marker() + join_items(t));
                }
            }
            i = i + 1;
        }
        assert(self@.take(i as int) =~= self@);
        r
    }
}

/// One typed part: `mime/type:payload`.
#[derive(Debug, Clone, PartialEq, Eq)]
pub struct MultipartItem {
    pub mime_type: String,
    pub data: String,
}

/// The typed parts of array items: each item with a `:` splits at its first
/// one; the others are skipped.
pub open spec fn typed_parts(items: Seq<Seq<char>>) -> Seq<(Seq<char>, Seq<char>)>
    decreases items.len(),
{
    if items.len() == 0 {
        Seq::empty()
    } else {
        let rest = typed_parts(items.drop_last());
        match char_pos(items.last(), ':') {
            Some(k) => rest.push((items.last().take(k), items.last().skip(k + 1))),
            None => rest,
        }
    }
}

/// Views of typed parts.
pub open spec fn part_views(v: Seq<MultipartItem>) -> Seq<(Seq<char>, Seq<char>)> {
    v.map_values(|m: MultipartItem| (m.mime_type@, m.data@))
}

/// Payloads of the parts of the given type, in order.
pub open spec fn payloads_of(parts: Seq<(Seq<char>, Seq<char>)>, mime: Seq<char>) -> Seq<Seq<char>>
    decreases parts.len(),
{
    if parts.len() == 0 {
        Seq::empty()
    } else {
        let rest = payloads_of(parts.drop_last(), mime);
        if parts.last().0 == mime {
            rest.push(parts.last().1)
        } else {
            rest
        }
    }
}

/// Typed parts carried in `ARRAY::` form.
#[derive(Debug, Clone, PartialEq, Eq)]
pub struct MultipartBody(Vec<MultipartItem>);

impl MultipartBody {
    pub closed spec fn view(&self) -> Seq<(Seq<char>, Seq<char>)> {
        part_views(self.0@)
    }

    /// Parses `ARRAY::` text into typed parts; `None` without the marker.
    pub fn parse(s: &str) -> (r: Option<Self>)
        ensures
            match array_items(s@) {
                Some(items) => r matches Some(b) && b@ == typed_parts(items),
                None => r is None,
            },
    {
        let array = match EslArray::parse(s) {
            Some(a) => a,
            None => return None,
        };
        let entries = array.items();
        let mut parts: Vec<MultipartItem> = Vec::new();
        let mut i: usize = 0;
        while i < entries.len()
            invariant
                i <= entries@.len(),
                views(entries@) == array@,
                part_views(parts@) == typed_parts(array@.take(i as int)),
            decreases entries@.len() - i,
        {
            let v = chars_of(entries[i].as_str());
            let k = find_char(&v, ':', 0, v.len());
            proof {
                assert(array@.take(i + 1).drop_last() =~= array@.take(i as int));
                assert(array@.take(i + 1).last() == entries@[i as int]@);
                assert(v@.subrange(0, v@.len() as int) =~= v@);
            }
            if k < v.len() {
                let item = MultipartItem { mime_type: string_from(&v, 0, k), data: string_from(&v, k + 1, v.len()) };
                parts.push(item);
                proof {
                    assert(v@.subrange(0, k as int) =~= v@.take(k as int));
                    assert(v@.subrange(k + 1, v@.len() as int) =~= v@.skip(k + 1));
                    assert(part_views(parts@) =~= part_views(parts@.drop_last()).push((item.mime_type@, item.data@)));
                }
            }
            i = i + 1;
        }
        assert(array@.take(i as int) =~= array@);
        Some(MultipartBody(parts))
    }

    /// The parts, in order.
    pub fn items(&self) -> (r: &[MultipartItem])
        ensures
            part_views(r@) == self@,
    {
        self.0.as_slice()
    }

    /// Payloads of the parts whose type is `mime`, in order.
    pub fn by_mime_type(&self, mime: &str) -> (r: Vec<&str>)
        ensures
            r@.map_values(|s: &str| s@) == payloads_of(self@, mime@),
    {
        let mut out: Vec<&str> = Vec::new();
        let mut i: usize = 0;
        while i < self.0.len()
            invariant
                i <= self.0@.len(),
                out@.map_values(|s: &str| s@) == payloads_of(self@.take(i as int), mime@),
            decreases self.0@.len() - i,
        {
            proof {
                assert(self@.take(i + 1).drop_last() =~= self@.take(i as int));
            }
            if str_eq(self.0[i].mime_type.as_str(), mime) {
                out.push(self.0[i].data.as_str());
                assert(out@.map_values(|s: &str| s@) =~= payloads_of(self@.take(i as int), mime@).push(self.0@[i as int].data@));
            }
            i = i + 1;
        }
        assert(self@.take(i as int) =~= self@);
        out
    }
}

} // verus!
