//! Header maps: unique keys kept in ascending character order.

use vstd::prelude::*;

use crate::text::{chars_of, str_eq};

verus! {

/// Lexicographic order on character sequences, by code point.
pub open spec fn seq_lt(a: Seq<char>, b: Seq<char>) -> bool
    decreases a.len(),
{
    if a.len() == 0 {
        b.len() > 0
    } else if b.len() == 0 {
        false
    } else if a[0] != b[0] {
        a[0] < b[0]
    } else {
        seq_lt(a.drop_first(), b.drop_first())
    }
}

pub proof fn lemma_seq_lt_irrefl(a: Seq<char>)
    ensures
        !seq_lt(a, a),
    decreases a.len(),
{
    if a.len() > 0 {
        lemma_seq_lt_irrefl(a.drop_first());
    }
}

pub proof fn lemma_seq_lt_trans(a: Seq<char>, b: Seq<char>, c: Seq<char>)
    requires
        seq_lt(a, b),
        seq_lt(b, c),
    ensures
        seq_lt(a, c),
    decreases a.len(),
{
    if a.len() > 0 && b.len() > 0 && c.len() > 0 && a[0] == b[0] && b[0] == c[0] {
        lemma_seq_lt_trans(a.drop_first(), b.drop_first(), c.drop_first());
    }
}

pub proof fn lemma_seq_lt_total(a: Seq<char>, b: Seq<char>)
    requires
        a != b,
    ensures
        seq_lt(a, b) || seq_lt(b, a),
    decreases a.len(),
{
    if a.len() > 0 && b.len() > 0 {
        if a[0] == b[0] {
            if a.drop_first() == b.drop_first() {
                assert(a =~= seq![a[0]] + a.drop_first());
                assert(b =~= seq![b[0]] + b.drop_first());
            }
            lemma_seq_lt_total(a.drop_first(), b.drop_first());
        }
    } else if a.len() == 0 && b.len() == 0 {
        assert(a =~= b);
    }
}

/// Whether `a` sorts before `b`.
pub fn chars_lt(a: &Vec<char>, b: &Vec<char>) -> (r: bool)
    ensures
        r == seq_lt(a@, b@),
{
    let mut i: usize = 0;
    assert(a@.skip(0) =~= a@ && b@.skip(0) =~= b@);
    while i < a.len() && i < b.len() && a[i] == b[i]
        invariant
            i <= a@.len(),
            i <= b@.len(),
            seq_lt(a@, b@) == seq_lt(a@.skip(i as int), b@.skip(i as int)),
        decreases a@.len() - i,
    {
        assert(a@.skip(i as int).drop_first() =~= a@.skip(i + 1));
        assert(b@.skip(i as int).drop_first() =~= b@.skip(i + 1));
        i = i + 1;
    }
    if i == a.len() {
        i < b.len()
    } else if i == b.len() {
        false
    } else {
        a[i] < b[i]
    }
}

/// Map of a list of pairs whose keys are distinct.
pub open spec fn pairs_map(p: Seq<(Seq<char>, Seq<char>)>) -> Map<Seq<char>, Seq<char>> {
    Map::new(
        |k: Seq<char>| exists|i: int| 0 <= i < p.len() && p[i].0 == k,
        |k: Seq<char>| p[choose|i: int| 0 <= i < p.len() && p[i].0 == k].1,
    )
}

/// Keys in strictly ascending order.
pub open spec fn keys_sorted(p: Seq<(Seq<char>, Seq<char>)>) -> bool {
    forall|i: int, j: int| 0 <= i < j < p.len() ==> seq_lt(#[trigger] p[i].0, #[trigger] p[j].0)
}

/// In a sorted list, the pair at `i` gives the value of its key.
pub proof fn lemma_pairs_map_at(p: Seq<(Seq<char>, Seq<char>)>, i: int)
    requires
        keys_sorted(p),
        0 <= i < p.len(),
    ensures
        pairs_map(p).contains_key(p[i].0),
        pairs_map(p)[p[i].0] == p[i].1,
{
    let k = p[i].0;
    assert(exists|j: int| 0 <= j < p.len() && p[j].0 == k);
    let j = choose|j: int| 0 <= j < p.len() && p[j].0 == k;
    lemma_seq_lt_irrefl(k);
    if j < i {
        assert(seq_lt(p[j].0, p[i].0));
    } else if j > i {
        assert(seq_lt(p[i].0, p[j].0));
    }
}

proof fn lemma_keys_sorted_drop_last(p: Seq<(Seq<char>, Seq<char>)>)
    requires
        keys_sorted(p),
        p.len() > 0,
    ensures
        keys_sorted(p.drop_last()),
{
    let q = p.drop_last();
    assert forall|a: int, b: int| 0 <= a < b < q.len() implies seq_lt(#[trigger] q[a].0, #[trigger] q[b].0) by {
        assert(q[a] == p[a] && q[b] == p[b]);
    }
}

/// Dropping the last pair of a sorted list removes its key from the map.
proof fn lemma_pairs_map_drop_last(p: Seq<(Seq<char>, Seq<char>)>)
    requires
        keys_sorted(p),
        p.len() > 0,
    ensures
        pairs_map(p.drop_last()) == pairs_map(p).remove(p.last().0),
{
    let q = p.drop_last();
    let k = p.last().0;
    lemma_keys_sorted_drop_last(p);
    assert forall|x: Seq<char>| #![auto] pairs_map(q).contains_key(x) == pairs_map(p).remove(k).contains_key(x) by {
        if pairs_map(q).contains_key(x) {
            let j = choose|j: int| 0 <= j < q.len() && q[j].0 == x;
            assert(p[j] == q[j]);
            assert(seq_lt(p[j].0, k));
            lemma_seq_lt_irrefl(k);
        }
        if pairs_map(p).contains_key(x) && x != k {
            let j = choose|j: int| 0 <= j < p.len() && p[j].0 == x;
            assert(j != p.len() - 1);
            assert(q[j] == p[j]);
        }
    }
    assert forall|x: Seq<char>| pairs_map(q).contains_key(x) implies pairs_map(q)[x] == pairs_map(p).remove(k)[x] by {
        let j = choose|j: int| 0 <= j < q.len() && q[j].0 == x;
        lemma_pairs_map_at(q, j);
        assert(p[j] == q[j]);
        lemma_pairs_map_at(p, j);
    }
    assert(pairs_map(q) =~= pairs_map(p).remove(k));
}

/// Pairs sorted by key are determined by the map they make.
pub proof fn lemma_sorted_pairs_unique(p: Seq<(Seq<char>, Seq<char>)>, q: Seq<(Seq<char>, Seq<char>)>)
    requires
        keys_sorted(p),
        keys_sorted(q),
        pairs_map(p) == pairs_map(q),
    ensures
        p == q,
    decreases p.len(),
{
    if p.len() == 0 {
        if q.len() > 0 {
            assert(pairs_map(q).contains_key(q[0].0));
        }
        assert(p =~= q);
    } else if q.len() == 0 {
        assert(pairs_map(p).contains_key(p[0].0));
    } else {
        let kp = p.last().0;
        let kq = q.last().0;
        assert(pairs_map(p).contains_key(p[p.len() - 1].0));
        assert(pairs_map(q).contains_key(q[q.len() - 1].0));
        let j = choose|j: int| 0 <= j < q.len() && q[j].0 == kp;
        let i = choose|i: int| 0 <= i < p.len() && p[i].0 == kq;
        lemma_seq_lt_irrefl(kp);
        if j < q.len() - 1 {
            assert(seq_lt(q[j].0, q[q.len() - 1].0));
            if i < p.len() - 1 {
                assert(seq_lt(p[i].0, p[p.len() - 1].0));
                lemma_seq_lt_trans(kp, kq, kp);
            }
        }
        assert(kp == kq);
        lemma_pairs_map_at(p, p.len() - 1);
        lemma_pairs_map_at(q, q.len() - 1);
        assert(p.last() == q.last());
        lemma_pairs_map_drop_last(p);
        lemma_pairs_map_drop_last(q);
        lemma_keys_sorted_drop_last(p);
        lemma_keys_sorted_drop_last(q);
        lemma_sorted_pairs_unique(p.drop_last(), q.drop_last());
        assert(p =~= p.drop_last().push(p.last()));
        assert(q =~= q.drop_last().push(q.last()));
    }
}

/// The value of `k` in `m`, if present.
pub open spec fn lookup(m: Map<Seq<char>, Seq<char>>, k: Seq<char>) -> Option<Seq<char>> {
    if m.contains_key(k) {
        Some(m[k])
    } else {
        None
    }
}

/// Header names and values; each name at most once.
#[derive(Debug, PartialEq, Eq)]
pub struct HeaderMap {
    entries: Vec<(String, String)>,
}

impl HeaderMap {
    /// The pairs in ascending key order.
    pub closed spec fn pairs(&self) -> Seq<(Seq<char>, Seq<char>)> {
        self.entries@.map_values(|e: (String, String)| (e.0@, e.1@))
    }

    #[verifier::type_invariant]
    closed spec fn sorted(&self) -> bool {
        keys_sorted(self.pairs())
    }

    pub open spec fn view(&self) -> Map<Seq<char>, Seq<char>> {
        pairs_map(self.pairs())
    }

    /// An empty map.
    pub fn new() -> (r: Self)
        ensures
            r.pairs() == Seq::<(Seq<char>, Seq<char>)>::empty(),
            r@ == Map::<Seq<char>, Seq<char>>::empty(),
    {
        let r = HeaderMap { entries: Vec::new() };
        assert(r.pairs() =~= Seq::<(Seq<char>, Seq<char>)>::empty());
        assert(r@ =~= Map::<Seq<char>, Seq<char>>::empty());
        r
    }

    /// Number of headers.
    pub fn len(&self) -> (r: usize)
        ensures
            r == self.pairs().len(),
    {
        self.entries.len()
    }

    /// Whether no header is set.
    pub fn is_empty(&self) -> (r: bool)
        ensures
            r == (self.pairs().len() == 0),
    {
        self.entries.len() == 0
    }

    /// The pairs in ascending key order.
    pub fn entries(&self) -> (r: &Vec<(String, String)>)
        ensures
            keys_sorted(self.pairs()),
            r@.len() == self.pairs().len(),
            forall|i: int| 0 <= i < r@.len() ==> (#[trigger] r@[i]).0@ == self.pairs()[i].0
                && r@[i].1@ == self.pairs()[i].1,
    {
        proof {
            use_type_invariant(self);
        }
        &self.entries
    }

    /// Position of `name`, if present.
    fn position(&self, name: &str) -> (r: Option<usize>)
        ensures
            match r {
                Some(i) => i < self.pairs().len() && self.pairs()[i as int].0 == name@,
                None => !self@.contains_key(name@),
            },
    {
        let mut i: usize = 0;
        while i < self.entries.len()
            invariant
                i <= self.entries@.len(),
                forall|j: int| 0 <= j < i ==> self.pairs()[j].0 != name@,
            decreases self.entries@.len() - i,
        {
            if str_eq(self.entries[i].0.as_str(), name) {
                return Some(i);
            }
            i = i + 1;
        }
        None
    }

    /// Value of `name`, if present.
    pub fn get(&self, name: &str) -> (r: Option<&String>)
        ensures
            match r {
                Some(v) => self@.contains_key(name@) && v@ == self@[name@],
                None => !self@.contains_key(name@),
            },
    {
        proof {
            use_type_invariant(self);
        }
        match self.position(name) {
            Some(i) => {
                proof {
                    lemma_pairs_map_at(self.pairs(), i as int);
                }
                Some(&self.entries[i].1)
            },
            None => None,
        }
    }

    /// Whether `name` is present.
    pub fn contains_key(&self, name: &str) -> (r: bool)
        ensures
            r == self@.contains_key(name@),
    {
        self.get(name).is_some()
    }

    /// Sets `name` to `value`, replacing an earlier value.
    pub fn insert(&mut self, name: String, value: String)
        ensures
            final(self)@ == old(self)@.insert(name@, value@),
    {
        proof {
            use_type_invariant(&*self);
        }
        let key = chars_of(name.as_str());
        let mut entries: Vec<(String, String)> = Vec::new();
        std::mem::swap(&mut entries, &mut self.entries);
        let ghost p = entries@.map_values(|e: (String, String)| (e.0@, e.1@));
        assert(keys_sorted(p));
        let mut i: usize = 0;
        while i < entries.len() && chars_lt(&chars_of(entries[i].0.as_str()), &key)
            invariant
                i <= entries@.len(),
                p == entries@.map_values(|e: (String, String)| (e.0@, e.1@)),
                key@ == name@,
                forall|j: int| 0 <= j < i ==> seq_lt(#[trigger] p[j].0, name@),
            decreases entries@.len() - i,
        {
            i = i + 1;
        }
        let replace = i < entries.len() && str_eq(entries[i].0.as_str(), name.as_str());
        if replace {
            entries.remove(i);
        }
        entries.insert(i, (name, value));
        let ghost q = entries@.map_values(|e: (String, String)| (e.0@, e.1@));
        proof {
            let k = name@;
            let v = value@;
            if replace {
                assert(q.len() == p.len());
                assert(q[i as int] == (k, v));
                assert forall|x: int| 0 <= x < q.len() && x != i implies #[trigger] q[x] == p[x] by {}
                assert forall|x: int| 0 <= x < q.len() implies #[trigger] q[x].0 == p[x].0 by {
                    if x != i {
                        assert(q[x] == p[x]);
                    }
                }
                assert(keys_sorted(q));
            } else {
                assert(q.len() == p.len() + 1);
                assert(q[i as int] == (k, v));
                assert forall|x: int| 0 <= x < i implies #[trigger] q[x] == p[x] by {}
                assert forall|x: int| i < x < q.len() implies #[trigger] q[x] == p[x - 1] by {}
                if i < p.len() {
                    lemma_seq_lt_total(p[i as int].0, k);
                }
                assert forall|x: int| i <= x < p.len() implies seq_lt(k, #[trigger] p[x].0) by {
                    if x > i {
                        lemma_seq_lt_trans(k, p[i as int].0, p[x].0);
                    }
                }
                assert forall|a: int, b: int| 0 <= a < b < q.len() implies seq_lt(#[trigger] q[a].0, #[trigger] q[b].0) by {
                    if b < i {
                        assert(q[a] == p[a] && q[b] == p[b]);
                    } else if b == i {
                        assert(q[a] == p[a]);
                    } else if a == i {
                        assert(q[b] == p[b - 1]);
                    } else if a < i {
                        assert(q[a] == p[a] && q[b] == p[b - 1]);
                    } else {
                        assert(q[a] == p[a - 1] && q[b] == p[b - 1]);
                    }
                }
                assert(keys_sorted(q));
            }
            assert forall|kk: Seq<char>| #![auto] pairs_map(q).contains_key(kk) == old(self)@.insert(k, v).contains_key(kk) by {
                if pairs_map(q).contains_key(kk) {
                    let j = choose|j: int| 0 <= j < q.len() && q[j].0 == kk;
                    if j != i {
                        let jj = if j < i || replace { j } else { j - 1 };
                        assert(q[j] == p[jj]);
                    }
                }
                if old(self)@.contains_key(kk) && kk != k {
                    let j = choose|j: int| 0 <= j < p.len() && p[j].0 == kk;
                    let jj = if j < i || replace { j } else { j + 1 };
                    if replace && j == i {
                    } else {
                        assert(q[jj] == p[j]);
                    }
                }
                if kk == k {
                    assert(q[i as int].0 == k);
                }
            }
            assert forall|kk: Seq<char>| pairs_map(q).contains_key(kk) implies pairs_map(q)[kk] == old(self)@.insert(k, v)[kk] by {
                let j = choose|j: int| 0 <= j < q.len() && q[j].0 == kk;
                lemma_pairs_map_at(q, j);
                if j != i {
                    let jj = if j < i || replace { j } else { j - 1 };
                    assert(q[j] == p[jj]);
                    lemma_pairs_map_at(p, jj);
                    if kk == k {
                        lemma_pairs_map_at(q, i as int);
                    }
                }
            }
            assert(pairs_map(q) =~= old(self)@.insert(k, v));
        }
        self.entries = entries;
    }

    /// Removes `name`, returning its value if it was present.
    pub fn remove(&mut self, name: &str) -> (r: Option<String>)
        ensures
            final(self)@ == old(self)@.remove(name@),
            match r {
                Some(v) => old(self)@.contains_key(name@) && v@ == old(self)@[name@],
                None => !old(self)@.contains_key(name@),
            },
    {
        proof {
            use_type_invariant(&*self);
        }
        match self.position(name) {
            None => {
                assert(old(self)@.remove(name@) =~= old(self)@);
                None
            },
            Some(i) => {
                let mut entries: Vec<(String, String)> = Vec::new();
                std::mem::swap(&mut entries, &mut self.entries);
                let ghost p = entries@.map_values(|e: (String, String)| (e.0@, e.1@));
                let (_, v) = entries.remove(i);
                let ghost q = entries@.map_values(|e: (String, String)| (e.0@, e.1@));
                proof {
                    lemma_pairs_map_at(p, i as int);
                    assert forall|a: int, b: int| 0 <= a < b < q.len() implies seq_lt(#[trigger] q[a].0, #[trigger] q[b].0) by {
                        let aa = if a < i { a } else { a + 1 };
                        let bb = if b < i { b } else { b + 1 };
                        assert(q[a] == p[aa]);
                        assert(q[b] == p[bb]);
                    }
                    assert forall|kk: Seq<char>| #![auto] pairs_map(q).contains_key(kk) == old(self)@.remove(name@).contains_key(kk) by {
                        if pairs_map(q).contains_key(kk) {
                            let j = choose|j: int| 0 <= j < q.len() && q[j].0 == kk;
                            let jj = if j < i { j } else { j + 1 };
                            assert(p[jj].0 == kk);
                            if kk == name@ {
                                lemma_seq_lt_irrefl(kk);
                            }
                        }
                        if old(self)@.contains_key(kk) && kk != name@ {
                            let j = choose|j: int| 0 <= j < p.len() && p[j].0 == kk;
                            let jj = if j < i { j } else { j - 1 };
                            assert(q[jj].0 == kk);
                        }
                    }
                    assert forall|kk: Seq<char>| pairs_map(q).contains_key(kk) implies pairs_map(q)[kk] == old(self)@.remove(name@)[kk] by {
                        let j = choose|j: int| 0 <= j < q.len() && q[j].0 == kk;
                        lemma_pairs_map_at(q, j);
                        let jj = if j < i { j } else { j + 1 };
                        assert(p[jj] == q[j]);
                        lemma_pairs_map_at(p, jj);
                    }
                    assert(pairs_map(q) =~= old(self)@.remove(name@));
                }
                self.entries = entries;
                Some(v)
            },
        }
    }
}

} // verus!
