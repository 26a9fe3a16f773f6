//! Growable byte buffer with a read cursor, backed by `bytes::BytesMut`.

use bytes::BytesMut;
use vstd::prelude::*;
use vstd::slice::{slice_subrange, slice_to_vec};
use vstd::utf8::*;

use crate::error::EslError;

verus! {

/// Reservation granularity: the buffer grows by at least this many bytes.
pub const BUF_CHUNK: usize = 3276800;

/// Hard ceiling on the bytes held at once (consumed prefix included).
pub const MAX_BUFFER_SIZE: usize = 16777216;

/// `bytes::BytesMut`, declared to the verifier as an opaque type.
#[verifier::external_type_specification]
#[verifier::external_body]
pub struct ExBytesMut(BytesMut);

/// The bytes that a `BytesMut` holds, in order.
pub uninterp spec fn bytes_mut_contents(b: BytesMut) -> Seq<u8>;

/// Relies on `BytesMut::with_capacity`: the new buffer is empty.
#[verifier::external_body]
fn bm_with_capacity(capacity: usize) -> (r: BytesMut)
    requires
        capacity <= isize::MAX,
    ensures
        bytes_mut_contents(r) == Seq::<u8>::empty(),
{
    BytesMut::with_capacity(capacity)
}

/// Relies on `BytesMut::len`: the number of bytes held.
#[verifier::external_body]
fn bm_len(b: &BytesMut) -> (r: usize)
    ensures
        r == bytes_mut_contents(*b).len(),
{
    b.len()
}

/// Relies on `BytesMut::capacity`, which is never below the length.
#[verifier::external_body]
fn bm_capacity(b: &BytesMut) -> (r: usize)
    ensures
        r >= bytes_mut_contents(*b).len(),
{
    b.capacity()
}

/// Relies on `BytesMut::reserve`: the contents are left as they are.
#[verifier::external_body]
fn bm_reserve(b: &mut BytesMut, additional: usize)
    requires
        bytes_mut_contents(*old(b)).len() + additional <= isize::MAX,
    ensures
        bytes_mut_contents(*final(b)) == bytes_mut_contents(*old(b)),
{
    b.reserve(additional)
}

/// Relies on `BytesMut::extend_from_slice`: the bytes are appended.
#[verifier::external_body]
fn bm_extend(b: &mut BytesMut, data: &[u8])
    requires
        bytes_mut_contents(*old(b)).len() + data@.len() <= isize::MAX,
    ensures
        bytes_mut_contents(*final(b)) == bytes_mut_contents(*old(b)) + data@,
{
    b.extend_from_slice(data)
}

/// Relies on `BytesMut`'s `Deref` to `[u8]`: a view of all held bytes.
#[verifier::external_body]
fn bm_as_slice(b: &BytesMut) -> (r: &[u8])
    ensures
        r@ == bytes_mut_contents(*b),
{
    &b[..]
}

/// Relies on `BytesMut`'s `DerefMut` and `<[u8]>::copy_within(from.., 0)`:
/// the bytes from `from` on are copied to the front, the tail stays.
#[verifier::external_body]
fn bm_copy_to_front(b: &mut BytesMut, from: usize)
    requires
        from <= bytes_mut_contents(*old(b)).len(),
    ensures
        bytes_mut_contents(*final(b)) == bytes_mut_contents(*old(b)).subrange(
            from as int,
            bytes_mut_contents(*old(b)).len() as int,
        ) + bytes_mut_contents(*old(b)).subrange(
            bytes_mut_contents(*old(b)).len() - from,
            bytes_mut_contents(*old(b)).len() as int,
        ),
{
    b.copy_within(from.., 0)
}

/// Relies on `BytesMut::truncate`: only the first `len` bytes stay.
#[verifier::external_body]
fn bm_truncate(b: &mut BytesMut, len: usize)
    requires
        len <= bytes_mut_contents(*old(b)).len(),
    ensures
        bytes_mut_contents(*final(b)) == bytes_mut_contents(*old(b)).take(len as int),
{
    b.truncate(len)
}

/// Relies on `BytesMut::clear`: no byte stays.
#[verifier::external_body]
fn bm_clear(b: &mut BytesMut)
    ensures
        bytes_mut_contents(*final(b)) == Seq::<u8>::empty(),
{
    b.clear()
}

/// Whether `pat` occurs in `data` at offset `i`.
pub open spec fn match_at(data: Seq<u8>, pat: Seq<u8>, i: int) -> bool {
    0 <= i && i + pat.len() <= data.len() && data.subrange(i, i + pat.len()) == pat
}

/// First offset at or after `i` at which `pat` occurs in `data`.
pub open spec fn first_match_from(data: Seq<u8>, pat: Seq<u8>, i: int) -> Option<int>
    decreases data.len() - i,
{
    if pat.len() == 0 || i + pat.len() > data.len() {
        None
    } else if match_at(data, pat, i) {
        Some(i)
    } else {
        first_match_from(data, pat, i + 1)
    }
}

/// First offset at which `pat` occurs in `data`, if any.
pub open spec fn first_match(data: Seq<u8>, pat: Seq<u8>) -> Option<int> {
    first_match_from(data, pat, 0)
}

/// The offset that `first_match_from` returns is a match, and no offset
/// between `i` and it is one.
pub proof fn lemma_first_match_from(data: Seq<u8>, pat: Seq<u8>, i: int)
    ensures
        first_match_from(data, pat, i) matches Some(p) ==> i <= p && match_at(data, pat, p)
            && forall|j: int| i <= j < p ==> !match_at(data, pat, j),
        first_match_from(data, pat, i) is None && pat.len() > 0 ==> forall|j: int|
            i <= j ==> !match_at(data, pat, j),
    decreases data.len() - i,
{
    if pat.len() == 0 || i + pat.len() > data.len() {
    } else if match_at(data, pat, i) {
    } else {
        lemma_first_match_from(data, pat, i + 1);
    }
}

/// How the first match in `a + b` relates to the first match in `a`.
pub proof fn lemma_first_match_split(a: Seq<u8>, b: Seq<u8>, pat: Seq<u8>, i: int)
    requires
        0 <= i,
        pat.len() > 0,
    ensures
        forall|p: int| first_match_from(a + b, pat, i) == Some(p) && p + pat.len() <= a.len()
            ==> first_match_from(a, pat, i) == Some(p),
        forall|p: int| first_match_from(a + b, pat, i) == Some(p) && p + pat.len() > a.len()
            ==> first_match_from(a, pat, i) is None,
        forall|p: int| first_match_from(a, pat, i) == Some(p) ==> first_match_from(a + b, pat, i) == Some(p),
    decreases a.len() + b.len() - i,
{
    let ab = a + b;
    let len = pat.len();
    if i + len > ab.len() {
    } else {
        lemma_first_match_from(ab, pat, i + 1);
        if i + len <= a.len() {
            assert(ab.subrange(i, i + len) =~= a.subrange(i, i + len));
            if !match_at(ab, pat, i) {
                lemma_first_match_split(a, b, pat, i + 1);
            }
        }
    }
}

/// Byte buffer: bytes before `position` are consumed, the rest are unread.
pub struct EslBuffer {
    buffer: BytesMut,
    position: usize,
}

impl EslBuffer {
    /// All bytes held, consumed prefix included.
    pub closed spec fn held(&self) -> Seq<u8> {
        bytes_mut_contents(self.buffer)
    }

    /// The unread bytes.
    pub closed spec fn view(&self) -> Seq<u8> {
        self.held().skip(self.position as int)
    }

    /// Number of consumed bytes still held.
    pub closed spec fn consumed(&self) -> nat {
        self.position as nat
    }

    /// With nothing consumed, the unread bytes are all the bytes held.
    pub proof fn lemma_nothing_consumed(&self)
        requires
            self.consumed() == 0,
        ensures
            self@ == self.held(),
    {
        assert(self.held().skip(0) =~= self.held());
    }

    pub closed spec fn wf(&self) -> bool {
        self.position <= self.held().len() <= isize::MAX
    }

    /// Creates an empty buffer with the default reservation.
    pub fn new() -> (r: Self)
        ensures
            r.wf(),
            r@ == Seq::<u8>::empty(),
            r.held() == Seq::<u8>::empty(),
            r.consumed() == 0,
    {
        Self::with_capacity(BUF_CHUNK)
    }

    /// Creates an empty buffer with room for `capacity` bytes.
    pub fn with_capacity(capacity: usize) -> (r: Self)
        requires
            capacity <= isize::MAX,
        ensures
            r.wf(),
            r@ == Seq::<u8>::empty(),
            r.held() == Seq::<u8>::empty(),
            r.consumed() == 0,
    {
        let r = EslBuffer { buffer: bm_with_capacity(capacity), position: 0 };
        assert(r@ =~= Seq::<u8>::empty());
        r
    }

    /// Number of unread bytes.
    pub fn len(&self) -> (r: usize)
        requires
            self.wf(),
        ensures
            r == self@.len(),
    {
        bm_len(&self.buffer) - self.position
    }

    /// Whether no unread byte is left.
    pub fn is_empty(&self) -> (r: bool)
        requires
            self.wf(),
        ensures
            r == (self@.len() == 0),
    {
        self.len() == 0
    }

    /// Room of the underlying storage, never below the bytes held.
    pub fn capacity(&self) -> (r: usize)
        requires
            self.wf(),
        ensures
            r >= self.held().len(),
    {
        bm_capacity(&self.buffer)
    }

    /// Appends `data`, reserving at least a chunk when the room runs out.
    pub fn extend_from_slice(&mut self, data: &[u8])
        requires
            old(self).wf(),
            old(self).held().len() + data@.len() <= isize::MAX,
        ensures
            final(self).wf(),
            final(self)@ == old(self)@ + data@,
            final(self).held() == old(self).held() + data@,
            final(self).consumed() == old(self).consumed(),
    {
        let len = bm_len(&self.buffer);
        let cap = bm_capacity(&self.buffer);
        if cap - len < data.len() {
            let add = if data.len() > BUF_CHUNK || len > isize::MAX as usize - BUF_CHUNK { data.len() } else { BUF_CHUNK };
            bm_reserve(&mut self.buffer, add);
        }
        bm_extend(&mut self.buffer, data);
        assert(self@ =~= old(self)@ + data@);
    }

    /// The unread bytes.
    pub fn data(&self) -> (r: &[u8])
        requires
            self.wf(),
        ensures
            r@ == self@,
    {
        let all = bm_as_slice(&self.buffer);
        slice_subrange(all, self.position, all.len())
    }

    /// Consumes `count` bytes; fails without change when fewer are unread.
    pub fn advance(&mut self, count: usize) -> (r: Result<(), EslError>)
        requires
            old(self).wf(),
        ensures
            final(self).wf(),
            final(self).held() == old(self).held(),
            r is Ok <==> count <= old(self)@.len(),
            r is Ok ==> final(self)@ == old(self)@.skip(count as int),
            r is Err ==> final(self)@ == old(self)@ && r->Err_0 is ProtocolError,
    {
        let available = self.len();
        if count > available {
            return Err(EslError::protocol_error("cannot advance past the buffered bytes"));
        }
        self.position = self.position + count;
        assert(self@ =~= old(self)@.skip(count as int));
        Ok(())
    }

    /// First offset of `pattern` among the unread bytes.
    pub fn find_pattern(&self, pattern: &[u8]) -> (r: Option<usize>)
        requires
            self.wf(),
        ensures
            r matches Some(p) ==> Some(p as int) == first_match(self@, pattern@) && match_at(self@, pattern@, p as int),
            r is None ==> first_match(self@, pattern@) is None,
    {
        let data = self.data();
        find_bytes(data, pattern)
    }

    /// Returns and consumes the unread bytes before the first `pattern`,
    /// consuming the pattern too.
    pub fn extract_until_pattern(&mut self, pattern: &[u8]) -> (r: Option<Vec<u8>>)
        requires
            old(self).wf(),
        ensures
            final(self).wf(),
            final(self).held() == old(self).held(),
            match first_match(old(self)@, pattern@) {
                Some(p) => r matches Some(v) && v@ == old(self)@.take(p)
                    && final(self)@ == old(self)@.skip(p + pattern@.len()),
                None => r is None && final(self)@ == old(self)@
                    && final(self).consumed() == old(self).consumed(),
            },
    {
        match self.find_pattern(pattern) {
            Some(pos) => {
                let result = slice_to_vec(slice_subrange(self.data(), 0, pos));
                let _ = self.advance(pos + pattern.len());
                Some(result)
            },
            None => None,
        }
    }

    /// Returns and consumes exactly `count` unread bytes, if that many are there.
    pub fn extract_bytes(&mut self, count: usize) -> (r: Option<Vec<u8>>)
        requires
            old(self).wf(),
        ensures
            final(self).wf(),
            final(self).held() == old(self).held(),
            count <= old(self)@.len() ==> (r matches Some(v) && v@ == old(self)@.take(count as int)
                && final(self)@ == old(self)@.skip(count as int)),
            count > old(self)@.len() ==> r is None && final(self)@ == old(self)@
                && final(self).consumed() == old(self).consumed(),
    {
        if self.len() >= count {
            let result = slice_to_vec(slice_subrange(self.data(), 0, count));
            let _ = self.advance(count);
            Some(result)
        } else {
            None
        }
    }

    /// The first `count` unread bytes, without consuming them.
    pub fn peek(&self, count: usize) -> (r: Option<&[u8]>)
        requires
            self.wf(),
        ensures
            count <= self@.len() ==> (r matches Some(s) && s@ == self@.take(count as int)),
            count > self@.len() ==> r is None,
    {
        if self.len() >= count {
            Some(slice_subrange(self.data(), 0, count))
        } else {
            None
        }
    }

    /// Drops the consumed prefix; the unread bytes stay, in order.
    pub fn compact(&mut self)
        requires
            old(self).wf(),
        ensures
            final(self).wf(),
            final(self)@ == old(self)@,
            final(self).held() == old(self)@,
            final(self).consumed() == 0,
    {
        if self.position > 0 {
            let remaining_len = self.len();
            if remaining_len > 0 {
                bm_copy_to_front(&mut self.buffer, self.position);
            }
            bm_truncate(&mut self.buffer, remaining_len);
            self.position = 0;
            assert(self.held() =~= old(self)@);
            assert(self@ =~= old(self)@);
        }
    }

    /// Drops every byte.
    pub fn clear(&mut self)
        ensures
            final(self).wf(),
            final(self)@ == Seq::<u8>::empty(),
            final(self).held() == Seq::<u8>::empty(),
            final(self).consumed() == 0,
    {
        bm_clear(&mut self.buffer);
        self.position = 0;
        assert(self@ =~= Seq::<u8>::empty());
    }

    /// Fails when more than the ceiling is held.
    pub fn check_size_limits(&self) -> (r: Result<(), EslError>)
        requires
            self.wf(),
        ensures
            r is Ok <==> self.held().len() <= MAX_BUFFER_SIZE,
            r matches Err(e) ==> e == (EslError::BufferOverflow {
                size: self.held().len() as usize,
                limit: MAX_BUFFER_SIZE,
            }),
    {
        let size = bm_len(&self.buffer);
        if size > MAX_BUFFER_SIZE {
            return Err(EslError::BufferOverflow { size, limit: MAX_BUFFER_SIZE });
        }
        Ok(())
    }

    /// The unread bytes as text, when they are UTF-8.
    pub fn to_string(&self) -> (r: Result<String, EslError>)
        requires
            self.wf(),
        ensures
            r is Ok <==> valid_utf8(self@),
            r matches Ok(s) ==> s@ == decode_utf8(self@),
            r matches Err(e) ==> e is Utf8Error,
    {
        match crate::protocol::string_from_utf8(slice_to_vec(self.data())) {
            Some(s) => Ok(s),
            None => Err(EslError::Utf8Error),
        }
    }

    /// The unread bytes before and after the first `pattern`.
    pub fn split_at_pattern(&self, pattern: &[u8]) -> (r: Option<(&[u8], &[u8])>)
        requires
            self.wf(),
        ensures
            match first_match(self@, pattern@) {
                Some(p) => r matches Some((a, b)) && a@ == self@.take(p)
                    && b@ == self@.skip(p + pattern@.len()),
                None => r is None,
            },
    {
        match self.find_pattern(pattern) {
            Some(pos) => {
                let data = self.data();
                Some((slice_subrange(data, 0, pos), slice_subrange(data, pos + pattern.len(), data.len())))
            },
            None => None,
        }
    }
}

impl Default for EslBuffer {
    fn default() -> (r: Self)
        ensures
            r.wf(),
            r@ == Seq::<u8>::empty(),
    {
        EslBuffer::new()
    }
}

/// First position of `pat` in `data`, scanning from the front.
pub fn find_bytes(data: &[u8], pat: &[u8]) -> (r: Option<usize>)
    ensures
        r matches Some(p) ==> Some(p as int) == first_match(data@, pat@) && match_at(data@, pat@, p as int),
        r is None ==> first_match(data@, pat@) is None,
{
    proof {
        lemma_first_match_from(data@, pat@, 0);
    }
    if pat.len() == 0 || data.len() < pat.len() {
        return None;
    }
    let last = data.len() - pat.len();
    let mut i: usize = 0;
    while i <= last
        invariant
            last == data@.len() - pat@.len(),
            data@.len() <= usize::MAX,
            pat@.len() > 0,
            i <= last + 1,
            first_match(data@, pat@) == first_match_from(data@, pat@, i as int),
        decreases last + 1 - i,
    {
        let mut k: usize = 0;
        let mut same = true;
        while k < pat.len()
            invariant
                i <= last,
                last == data@.len() - pat@.len(),
                data@.len() <= usize::MAX,
                k <= pat@.len(),
                same <==> forall|m: int| 0 <= m < k ==> data@[i + m] == pat@[m],
            decreases pat@.len() - k,
        {
            if data[i + k] != pat[k] {
                same = false;
            }
            k = k + 1;
        }
        if same {
            assert(data@.subrange(i as int, i + pat@.len()) =~= pat@);
            return Some(i);
        }
        assert(!match_at(data@, pat@, i as int)) by {
            let m = choose|m: int| 0 <= m < pat@.len() && data@[i + m] != pat@[m];
            assert(data@.subrange(i as int, i + pat@.len())[m] != pat@[m]);
        }
        i = i + 1;
    }
    None
}

} // verus!
