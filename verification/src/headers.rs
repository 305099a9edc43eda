//! Header lines of an HTTP message: a field and a value, as bytes, and
//! collections of them.
use vstd::prelude::*;
use crate::bytes::{copy_range, eq_bytes};
use crate::message::first_non_space;

verus! {

/// A header line: its field and its value, as bytes.
#[derive(Debug, PartialEq, Eq, Clone)]
pub struct Header {
    field: Vec<u8>,
    value: Vec<u8>,
}

/// The field and the value of a header, as byte sequences.
pub struct HeaderView {
    pub field: Seq<u8>,
    pub value: Seq<u8>,
}

impl View for Header {
    type V = HeaderView;

    closed spec fn view(&self) -> HeaderView {
        HeaderView { field: self.field@, value: self.value@ }
    }
}

/// The bytes of a header line: the field, a colon and a space, the value and
/// a line feed.
pub open spec fn header_line(h: HeaderView) -> Seq<u8> {
    h.field + seq![58u8, 32u8] + h.value + seq![10u8]
}

/// The header lines of `hs`, one after the other.
pub open spec fn header_lines(hs: Seq<HeaderView>) -> Seq<u8>
    decreases hs.len(),
{
    if hs.len() == 0 {
        seq![]
    } else {
        header_lines(hs.drop_last()) + header_line(hs.last())
    }
}

/// The views of a sequence of headers.
pub open spec fn headers_view(hs: Seq<Header>) -> Seq<HeaderView> {
    hs.map_values(|h: Header| h@)
}

/// `j` is the index of the first header of `hs` whose field is `f`.
pub open spec fn is_first_field(hs: Seq<HeaderView>, f: Seq<u8>, j: int) -> bool {
    0 <= j < hs.len() && hs[j].field == f && forall|k: int| 0 <= k < j ==> hs[k].field != f
}

/// The index of the first header of `hs` whose field is `f`, if any.
pub open spec fn first_field(hs: Seq<HeaderView>, f: Seq<u8>) -> Option<int> {
    if exists|j: int| is_first_field(hs, f, j) {
        Some(choose|j: int| is_first_field(hs, f, j))
    } else {
        None
    }
}

/// Appends `b` to `out`.
pub fn push_all(out: &mut Vec<u8>, b: &[u8])
    ensures
        final(out)@ == old(out)@ + b@,
{
    let mut i: usize = 0;
    while i < b.len()
        invariant
            0 <= i <= b.len(),
            out@ == old(out)@ + b@.subrange(0, i as int),
        decreases b.len() - i,
    {
        out.push(b[i]);
        i += 1;
        assert(out@ =~= old(out)@ + b@.subrange(0, i as int));
    }
    assert(b@.subrange(0, b@.len() as int) =~= b@);
}

/// Appends the line of header `h` to `out`.
pub(crate) fn push_header_line(out: &mut Vec<u8>, h: &Header)
    ensures
        final(out)@ == old(out)@ + header_line(h@),
{
    push_all(out, h.field.as_slice());
    out.push(58u8);
    out.push(32u8);
    push_all(out, h.value.as_slice());
    out.push(10u8);
    assert(out@ =~= old(out)@ + header_line(h@));
}

/// Finds the first header whose field is `f`.
pub(crate) fn find_field(hs: &[Header], f: &[u8]) -> (r: Option<usize>)
    ensures
        match r {
            Some(j) => first_field(headers_view(hs@), f@) == Some(j as int),
            None => first_field(headers_view(hs@), f@) is None
                && forall|k: int| 0 <= k < hs@.len() ==> hs@[k]@.field != f@,
        },
{
    let ghost v = headers_view(hs@);
    let mut i: usize = 0;
    while i < hs.len()
        invariant
            0 <= i <= hs.len(),
            v == headers_view(hs@),
            forall|k: int| 0 <= k < i ==> v[k].field != f@,
        decreases hs.len() - i,
    {
        if eq_bytes(hs[i].field.as_slice(), f) {
            proof {
                assert(is_first_field(v, f@, i as int));
                let j = choose|j: int| is_first_field(v, f@, j);
                assert(j == i as int) by {
                    if j < i {
                        assert(v[j].field != f@);
                    } else if j > i {
                        assert(v[i as int].field == f@);
                    }
                }
            }
            return Some(i);
        }
        i += 1;
    }
    proof {
        assert forall|j: int| !is_first_field(v, f@, j) by {
            if is_first_field(v, f@, j) {
                assert(v[j].field != f@);
            }
        }
        assert forall|k: int| 0 <= k < hs@.len() implies hs@[k]@.field != f@ by {
            assert(v[k] == hs@[k]@);
        }
    }
    None
}

/// Why header bytes could not be read.
pub enum Error {
    UnparsableHeaderBytes,
}

/// The header read from a line `slice`: the field is what comes before the
/// first colon, the value what follows the spaces after it.
pub open spec fn spec_header_from_line(slice: Seq<u8>) -> Option<HeaderView> {
    match crate::message::first_of(slice, 0, 58) {
        None => None,
        Some(colon) => Some(
            HeaderView {
                field: slice.subrange(0, colon),
                value: slice.subrange(first_non_space(slice, colon + 1)->0, slice.len() as int),
            },
        ),
    }
}

/// The value with its leading spaces removed.
pub open spec fn unwhitespaced(value: Seq<u8>) -> Seq<u8> {
    value.subrange(first_non_space(value, 0)->0, value.len() as int)
}

/// The value with its leading spaces but the last one removed (when it has
/// any leading space).
pub open spec fn unwhitespaced_but_one(value: Seq<u8>) -> Seq<u8> {
    let start = first_non_space(value, 0)->0;
    if start > 0 {
        value.subrange(start - 1, value.len() as int)
    } else {
        value
    }
}

fn skip_spaces(b: &[u8], idx: usize) -> (r: usize)
    requires
        first_non_space(b@, idx as int) is Some,
    ensures
        first_non_space(b@, idx as int) == Some(r as int),
{
    let ghost j = choose|j: int| idx <= j < b@.len() && b@[j] != 32 && forall|k: int| idx <= k < j ==> b@[k] == 32;
    let mut i = idx;
    while b[i] == 32
        invariant
            idx <= i <= j < b@.len(),
            b@[j] != 32,
            forall|k: int| idx <= k < j ==> b@[k] == 32,
        decreases j - i,
    {
        i += 1;
    }
    i
}

fn unwhitespace_slice(value: &[u8]) -> (r: Vec<u8>)
    requires
        first_non_space(value@, 0) is Some,
    ensures
        r@ == unwhitespaced(value@),
{
    let start = skip_spaces(value, 0);
    copy_range(value, start, value.len())
}

fn unwhitespace_vec(value: Vec<u8>) -> (r: Vec<u8>)
    requires
        first_non_space(value@, 0) is Some,
    ensures
        r@ == unwhitespaced_but_one(value@),
{
    let start = skip_spaces(value.as_slice(), 0);
    if start > 0 {
        copy_range(value.as_slice(), start - 1, value.len())
    } else {
        value
    }
}

impl Header {
    pub fn new(field: Vec<u8>, value: Vec<u8>) -> (r: Self)
        ensures
            r@ == (HeaderView { field: field@, value: value@ }),
    {
        Header { field, value }
    }

    pub fn field_ref(&self) -> (r: &[u8])
        ensures
            r@ == self@.field,
    {
        self.field.as_slice()
    }

    pub fn value_ref(&self) -> (r: &[u8])
        ensures
            r@ == self@.value,
    {
        self.value.as_slice()
    }

    /// A copy of the header.
    pub fn clone_header(&self) -> (r: Header)
        ensures
            r@ == self@,
    {
        let f = copy_range(self.field.as_slice(), 0, self.field.len());
        let v = copy_range(self.value.as_slice(), 0, self.value.len());
        assert(self.field@.subrange(0, self.field@.len() as int) =~= self.field@);
        assert(self.value@.subrange(0, self.value@.len() as int) =~= self.value@);
        Header { field: f, value: v }
    }

    /// The value, to write to.
    pub fn value_mut(&mut self) -> (r: &mut Vec<u8>)
        ensures
            (*r)@ == old(self)@.value,
            final(self)@ == (HeaderView { field: old(self)@.field, value: (*final(r))@ }),
    {
        &mut self.value
    }

    /// Appends a byte to the value.
    pub fn push(&mut self, b: u8)
        ensures
            final(self)@ == (HeaderView { field: old(self)@.field, value: old(self)@.value.push(b) }),
    {
        self.value.push(b);
    }

    /// Appends bytes to the value.
    pub fn extend(&mut self, slice: &[u8])
        ensures
            final(self)@ == (HeaderView { field: old(self)@.field, value: old(self)@.value + slice@ }),
    {
        push_all(&mut self.value, slice);
    }

    /// Makes the value's ASCII capital letters small.
    pub fn lowercase_value(&mut self)
        ensures
            final(self)@ == (HeaderView {
                field: old(self)@.field,
                value: old(self)@.value.map_values(|c: u8| crate::bytes::lower_byte(c)),
            }),
    {
        let lowered = crate::bytes::copy_range_lowercase(self.value.as_slice(), 0, self.value.len());
        assert(old(self)@.value.subrange(0, old(self)@.value.len() as int) =~= old(self)@.value);
        self.value = lowered;
    }

    /// The bytes of the header line (see `header_line`).
    pub fn into_bytes(self) -> (r: Vec<u8>)
        ensures
            r@ == header_line(self@),
    {
        let mut bytes: Vec<u8> = Vec::new();
        push_header_line(&mut bytes, &self);
        bytes
    }

    /// Reads a header line: the field up to the first colon, the value after
    /// the spaces that follow it.
    pub fn try_from_bytes(slice: &[u8]) -> (r: Result<Header, Error>)
        requires
            crate::message::first_of(slice@, 0, 58) matches Some(colon) ==> first_non_space(slice@, colon + 1) is Some,
        ensures
            match r {
                Ok(h) => spec_header_from_line(slice@) == Some(h@),
                Err(_) => spec_header_from_line(slice@) is None,
            },
    {
        let mut colon: usize = 0;
        while colon < slice.len() && slice[colon] != 58
            invariant
                0 <= colon <= slice.len(),
                forall|k: int| 0 <= k < colon ==> slice@[k] != 58,
            decreases slice.len() - colon,
        {
            colon += 1;
        }
        if colon == slice.len() {
            proof {
                assert forall|j: int| !crate::message::is_first_of(slice@, 0, j, 58) by {}
            }
            return Err(Error::UnparsableHeaderBytes);
        }
        proof {
            assert(crate::message::is_first_of(slice@, 0, colon as int, 58));
            let j = choose|j: int| crate::message::is_first_of(slice@, 0, j, 58);
            assert(j == colon as int) by {
                if j < colon {
                    assert(slice@[j] != 58);
                } else if j > colon {
                    assert(slice@[colon as int] == 58);
                }
            }
        }
        let field = copy_range(slice, 0, colon);
        let start = skip_spaces(slice, colon + 1);
        let value = copy_range(slice, start, slice.len());
        Ok(Header { field, value })
    }

    /// A header from a field and a value whose leading spaces are removed.
    pub fn from_slices(field: &[u8], value: &[u8]) -> (r: Header)
        requires
            first_non_space(value@, 0) is Some,
        ensures
            r@ == (HeaderView { field: field@, value: unwhitespaced(value@) }),
    {
        let f = copy_range(field, 0, field.len());
        assert(field@.subrange(0, field@.len() as int) =~= field@);
        Header { field: f, value: unwhitespace_slice(value) }
    }

    /// A header from an owned field and value; all leading spaces of the value
    /// but the last one are removed.
    pub fn from_vecs(field: Vec<u8>, value: Vec<u8>) -> (r: Header)
        requires
            first_non_space(value@, 0) is Some,
        ensures
            r@ == (HeaderView { field: field@, value: unwhitespaced_but_one(value@) }),
    {
        Header { field, value: unwhitespace_vec(value) }
    }
}

/// Does a header with field `f` occur in `hs`?
pub open spec fn has_field(hs: Seq<HeaderView>, f: Seq<u8>) -> bool {
    exists|j: int| 0 <= j < hs.len() && hs[j].field == f
}

/// The value of the first header of `hs` whose field is `f`, if any.
pub open spec fn field_value(hs: Seq<HeaderView>, f: Seq<u8>) -> Option<Seq<u8>> {
    match first_field(hs, f) {
        Some(j) => Some(hs[j].value),
        None => None,
    }
}

/// Is some header of `hs` the field `f`?
pub fn contains_header(hs: &[Header], f: &[u8]) -> (r: bool)
    ensures
        r == has_field(headers_view(hs@), f@),
{
    let found = find_field(hs, f);
    proof {
        let v = headers_view(hs@);
        if found is Some {
            let j = found->0 as int;
            assert(is_first_field(v, f@, j));
        } else {
            assert forall|j: int| 0 <= j < v.len() implies v[j].field != f@ by {
                assert(v[j] == hs@[j]@);
            }
        }
    }
    found.is_some()
}

/// The value of the first header of `hs` whose field is `f`, if any.
pub fn header_value<'a>(hs: &'a [Header], f: &[u8]) -> (r: Option<&'a [u8]>)
    ensures
        match r {
            Some(v) => field_value(headers_view(hs@), f@) == Some(v@),
            None => field_value(headers_view(hs@), f@) is None,
        },
{
    match find_field(hs, f) {
        Some(j) => {
            assert(headers_view(hs@)[j as int] == hs@[j as int]@);
            Some(hs[j].value_ref())
        },
        None => None,
    }
}

/// The bytes of the header lines of `hs`, one after the other.
fn lines_of(hs: &[Header]) -> (r: Vec<u8>)
    ensures
        r@ == header_lines(headers_view(hs@)),
{
    let ghost v = headers_view(hs@);
    let mut out: Vec<u8> = Vec::new();
    let mut i: usize = 0;
    while i < hs.len()
        invariant
            0 <= i <= hs.len(),
            v == headers_view(hs@),
            out@ == header_lines(v.take(i as int)),
        decreases hs.len() - i,
    {
        push_header_line(&mut out, &hs[i]);
        assert(v.take(i + 1).drop_last() =~= v.take(i as int));
        assert(v[i as int] == hs@[i as int]@);
        i += 1;
    }
    assert(v.take(hs@.len() as int) =~= v);
    out
}

/// The headers of a message.
#[derive(Debug, Clone, PartialEq, Eq)]
pub struct Headers(Vec<Header>);

impl View for Headers {
    type V = Seq<HeaderView>;

    closed spec fn view(&self) -> Seq<HeaderView> {
        headers_view(self.0@)
    }
}

impl Default for Headers {
    fn default() -> (r: Self)
        ensures
            r@ == Seq::<HeaderView>::empty(),
    {
        let h = Headers(Vec::new());
        assert(h@ =~= Seq::<HeaderView>::empty());
        h
    }
}

impl From<Vec<Header>> for Headers {
    fn from(v: Vec<Header>) -> (r: Self)
        ensures
            r@ == headers_view(v@),
    {
        Headers(v)
    }
}

impl vstd::std_specs::convert::FromSpecImpl<Vec<Header>> for Headers {
    open spec fn obeys_from_spec() -> bool {
        true
    }

    closed spec fn from_spec(v: Vec<Header>) -> Headers {
        Headers(v)
    }
}

impl Headers {
    /// The headers held, as a slice.
    pub fn as_slice(&self) -> (r: &[Header])
        ensures
            headers_view(r@) == self@,
    {
        self.0.as_slice()
    }

    /// The number of headers.
    pub fn len(&self) -> (r: usize)
        ensures
            r == self@.len(),
    {
        self.0.len()
    }

    /// Does a header with field `header` occur?
    pub fn contains(&self, header: &[u8]) -> (r: bool)
        ensures
            r == has_field(self@, header@),
    {
        contains_header(self.0.as_slice(), header)
    }

    /// The value of the first header with field `header`.
    pub fn get(&self, header: &[u8]) -> (r: Option<&[u8]>)
        ensures
            match r {
                Some(v) => field_value(self@, header@) == Some(v@),
                None => field_value(self@, header@) is None,
            },
    {
        header_value(self.0.as_slice(), header)
    }

    /// removes header from self's vec and returns it if it exists
    pub fn remove(&mut self, header: &[u8]) -> (r: Option<Header>)
        ensures
            match first_field(old(self)@, header@) {
                Some(j) => r matches Some(h) && h@ == old(self)@[j] && final(self)@ == old(self)@.remove(j),
                None => r is None && final(self)@ == old(self)@,
            },
    {
        match find_field(self.0.as_slice(), header) {
            Some(j) => {
                let ghost before = self.0@;
                let h = self.0.remove(j);
                assert(headers_view(self.0@) =~= headers_view(before).remove(j as int));
                Some(h)
            },
            None => None,
        }
    }

    /// The bytes of the header lines, one after the other.
    pub fn stream_bytes(&self) -> (r: Vec<u8>)
        ensures
            r@ == header_lines(self@),
    {
        lines_of(self.0.as_slice())
    }

    /// Appends a header.
    pub fn push(&mut self, header: Header)
        ensures
            final(self)@ == old(self)@.push(header@),
    {
        let ghost before = self.0@;
        self.0.push(header);
        assert(headers_view(self.0@) =~= headers_view(before).push(header@));
    }

    /// Reads a header line and appends it.
    pub fn try_push(&mut self, line: &[u8]) -> (r: Result<(), Error>)
        requires
            crate::message::first_of(line@, 0, 58) matches Some(colon) ==> first_non_space(line@, colon + 1) is Some,
        ensures
            match spec_header_from_line(line@) {
                Some(h) => r is Ok && final(self)@ == old(self)@.push(h),
                None => r is Err && final(self)@ == old(self)@,
            },
    {
        let h = Header::try_from_bytes(line)?;
        self.push(h);
        Ok(())
    }

    /// Removes all headers.
    pub fn clear(&mut self)
        ensures
            final(self)@ == Seq::<HeaderView>::empty(),
    {
        self.0.clear();
        assert(headers_view(self.0@) =~= Seq::<HeaderView>::empty());
    }

    /// Keeps the headers whose fields are listed in `fields` when `keep` is
    /// set, and those whose fields are not listed otherwise, in order.
    pub(crate) fn retain_listed(&mut self, fields: &[&[u8]], keep: bool)
        ensures
            final(self)@ == old(self)@.filter(|h: HeaderView| crate::request::listed(fields@, h.field) == keep),
    {
        let ghost v = self@;
        let mut kept: Vec<Header> = Vec::new();
        let mut i: usize = 0;
        while i < self.0.len()
            invariant
                0 <= i <= self.0@.len(),
                v == headers_view(self.0@),
                headers_view(kept@) == v.take(i as int).filter(|h: HeaderView| crate::request::listed(fields@, h.field) == keep),
            decreases self.0@.len() - i,
        {
            let ghost before = kept@;
            assert(v.take(i + 1).drop_last() =~= v.take(i as int));
            assert(v[i as int] == self.0@[i as int]@);
            proof {
                v.take(i as int).lemma_filter_push(v[i as int], |h: HeaderView| crate::request::listed(fields@, h.field) == keep);
            }
            assert(v.take(i + 1) =~= v.take(i as int).push(v[i as int]));
            if crate::request::is_listed(fields, self.0[i].field_ref()) == keep {
                let h = self.0[i].clone_header();
                kept.push(h);
                assert(headers_view(kept@) =~= headers_view(before).push(h@));
            }
            i += 1;
        }
        assert(v.take(self.0@.len() as int) =~= v);
        self.0 = kept;
    }
}

/// A view of headers held elsewhere.
#[derive(Debug)]
pub struct HeadersRef<'a>(&'a [Header]);

impl<'a> View for HeadersRef<'a> {
    type V = Seq<HeaderView>;

    closed spec fn view(&self) -> Seq<HeaderView> {
        headers_view(self.0@)
    }
}

impl<'a> From<&'a [Header]> for HeadersRef<'a> {
    fn from(v: &'a [Header]) -> (r: Self)
        ensures
            r@ == headers_view(v@),
    {
        HeadersRef(v)
    }
}

impl<'a> vstd::std_specs::convert::FromSpecImpl<&'a [Header]> for HeadersRef<'a> {
    open spec fn obeys_from_spec() -> bool {
        true
    }

    closed spec fn from_spec(v: &'a [Header]) -> HeadersRef<'a> {
        HeadersRef(v)
    }
}

impl<'a> HeadersRef<'a> {
    /// Does a header with field `header` occur?
    pub fn contains(&self, header: &[u8]) -> (r: bool)
        ensures
            r == has_field(self@, header@),
    {
        contains_header(self.0, header)
    }

    /// The value of the first header with field `header`.
    pub fn get(&self, header: &[u8]) -> (r: Option<&[u8]>)
        ensures
            match r {
                Some(v) => field_value(self@, header@) == Some(v@),
                None => field_value(self@, header@) is None,
            },
    {
        header_value(self.0, header)
    }

    /// The bytes of the header lines, one after the other.
    pub fn stream_bytes(&self) -> (r: Vec<u8>)
        ensures
            r@ == header_lines(self@),
    {
        lines_of(self.0)
    }
}

} // verus!
