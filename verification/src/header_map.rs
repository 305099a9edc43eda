//! Headers by name, as a server collects them: each name holds either one
//! field value or a set of values. The names are held in a
//! `hashbrown::HashMap`, the sets in the library's `ByteSet`.
use vstd::prelude::*;
use crate::sets::{ByteSet, byte_set_contents};
use vstd::string::{StrSliceExecFns, StringSliceAdditionalSpecFns};

verus! {

/// The value of a header: one field, or a set of values.
pub enum Header {
    Field(String),
    Values(ByteSet),
}

/// The value of a header with its text as characters and its set as the
/// byte strings it holds.
pub enum HeaderView {
    Field(Seq<char>),
    Values(Set<Seq<u8>>),
}

/// The map that names no header.
pub open spec fn no_headers() -> Map<Seq<char>, HeaderView> {
    Map::empty()
}

/// The view of a header value.
pub open spec fn header_view(h: Header) -> HeaderView {
    match h {
        Header::Field(f) => HeaderView::Field(f@),
        Header::Values(s) => HeaderView::Values(byte_set_contents(s)),
    }
}

impl Header {
    pub fn is_field(&self) -> (r: bool)
        ensures
            r == (*self is Field),
    {
        match self {
            Header::Field(_) => true,
            Header::Values(_) => false,
        }
    }

    pub fn is_set(&self) -> (r: bool)
        ensures
            r == (*self is Values),
    {
        match self {
            Header::Field(_) => false,
            Header::Values(_) => true,
        }
    }
}

/// Header values by name, held in a `hashbrown::HashMap<String, Header>`;
/// the order in which its entries come out is the hash table's.
#[verifier::external_body]
pub struct HeaderMap {
    map: hashbrown::HashMap<String, Header>,
}

/// The header values that a map holds, by name.
pub uninterp spec fn header_map_contents(m: HeaderMap) -> Map<Seq<char>, HeaderView>;

/// The names of a list of entries.
pub open spec fn entry_names(e: Seq<(&String, &Header)>) -> Seq<Seq<char>> {
    e.map_values(|p: (&String, &Header)| p.0@)
}

impl HeaderMap {
    /// `HashMap::new`: no header.
    #[verifier::external_body]
    pub(crate) fn new() -> (r: HeaderMap)
        ensures
            header_map_contents(r) == no_headers(),
    {
        HeaderMap { map: hashbrown::HashMap::new() }
    }

    /// `HashMap::insert`: `name` holds `value`, in place of what it held.
    #[verifier::external_body]
    pub(crate) fn insert(&mut self, name: String, value: Header)
        ensures
            header_map_contents(*final(self)) == header_map_contents(*old(self)).insert(name@, header_view(value)),
    {
        self.map.insert(name, value);
    }

    /// `HashMap::get`: the value that `name` holds, if any.
    #[verifier::external_body]
    pub(crate) fn get(&self, name: &str) -> (r: Option<&Header>)
        ensures
            match r {
                Some(h) => header_map_contents(*self).contains_key(name@) && header_view(*h)
                    == header_map_contents(*self)[name@],
                None => !header_map_contents(*self).contains_key(name@),
            },
    {
        self.map.get(name)
    }

    /// `HashMap::remove`: takes out the value that `name` holds, if any.
    #[verifier::external_body]
    pub(crate) fn remove(&mut self, name: &str) -> (r: Option<Header>)
        ensures
            header_map_contents(*final(self)) == header_map_contents(*old(self)).remove(name@),
            match r {
                Some(h) => header_map_contents(*old(self)).contains_key(name@) && header_view(h)
                    == header_map_contents(*old(self))[name@],
                None => !header_map_contents(*old(self)).contains_key(name@),
            },
    {
        self.map.remove(name)
    }

    /// `HashMap::contains_key`: does `name` hold a value?
    #[verifier::external_body]
    pub(crate) fn contains_key(&self, name: &str) -> (r: bool)
        ensures
            r == header_map_contents(*self).contains_key(name@),
    {
        self.map.contains_key(name)
    }

    /// `HashMap::is_empty`: does no name hold a value?
    #[verifier::external_body]
    pub(crate) fn is_empty(&self) -> (r: bool)
        ensures
            r == (header_map_contents(*self) == no_headers()),
    {
        self.map.is_empty()
    }

    /// `HashMap::iter`: the entries, each name once, in the hash table's
    /// order (which this contract leaves open).
    #[verifier::external_body]
    pub(crate) fn entries(&self) -> (r: Vec<(&String, &Header)>)
        ensures
            entry_names(r@).no_duplicates(),
            entry_names(r@).to_set() == header_map_contents(*self).dom(),
            forall|i: int|
                0 <= i < r@.len() ==> header_view(*(#[trigger] r@[i]).1) == header_map_contents(*self)[r@[i].0@],
    {
        self.map.iter().collect()
    }
}

/// Headers by name. A collection that was sliced off another one says so.
pub struct Headers {
    headers: HeaderMap,
    slice: bool,
}

/// The header values by name, and whether they were sliced off.
pub struct HeadersView {
    pub map: Map<Seq<char>, HeaderView>,
    pub slice: bool,
}

impl View for Headers {
    type V = HeadersView;

    closed spec fn view(&self) -> HeadersView {
        HeadersView { map: header_map_contents(self.headers), slice: self.slice }
    }
}

/// A set that holds the bytes of `f` alone.
fn single_set(f: &str) -> (r: ByteSet)
    ensures
        byte_set_contents(r) == Set::<Seq<u8>>::empty().insert(f.spec_bytes()),
{
    let mut s = ByteSet::new();
    s.insert(f.as_bytes_vec());
    s
}

impl Headers {
    /// No header.
    pub fn new() -> (r: Headers)
        ensures
            r@.map == no_headers(),
            !r@.slice,
    {
        Headers { headers: HeaderMap::new(), slice: false }
    }

    /// sets a new header single field value
    pub fn header(&mut self, h: &str, f: &str)
        ensures
            final(self)@ == (HeadersView { map: old(self)@.map.insert(h@, HeaderView::Field(f@)), ..old(self)@ }),
    {
        self.headers.insert(h.to_string(), Header::Field(f.to_string()));
    }

    /// inserts a new header with a set value filled with the passed field value
    pub fn headers(&mut self, h: &str, f: &str)
        ensures
            final(self)@ == (HeadersView {
                map: old(self)@.map.insert(h@, HeaderView::Values(Set::empty().insert(f.spec_bytes()))),
                ..old(self)@
            }),
    {
        self.headers.insert(h.to_string(), Header::Values(single_set(f)));
    }

    /// inserts a new header with a set value from the passed values
    pub fn headers_from_iter(&mut self, h: &str, f: &[String])
        ensures
            final(self)@ == (HeadersView {
                map: old(self)@.map.insert(
                    h@,
                    HeaderView::Values(f@.map_values(|s: String| vstd::utf8::encode_utf8(s@)).to_set()),
                ),
                ..old(self)@
            }),
    {
        let mut set = ByteSet::new();
        let mut i: usize = 0;
        let ghost items = f@.map_values(|s: String| vstd::utf8::encode_utf8(s@));
        while i < f.len()
            invariant
                i <= f@.len(),
                items == f@.map_values(|s: String| vstd::utf8::encode_utf8(s@)),
                byte_set_contents(set) == items.take(i as int).to_set(),
            decreases f@.len() - i,
        {
            set.insert(f[i].as_str().as_bytes_vec());
            proof {
                assert(items.take(i + 1) =~= items.take(i as int).push(items[i as int]));
                items.take(i as int).lemma_push_to_set_commute(items[i as int]);
            }
            i += 1;
        }
        assert(items.take(f@.len() as int) =~= items);
        self.headers.insert(h.to_string(), Header::Values(set));
    }

    /// insert field value into existing set
    ///
    /// makes a new one if it doesnt exist
    pub fn insert(&mut self, h: &str, f: &str)
        ensures
            final(self)@.slice == old(self)@.slice,
            final(self)@.map == match old(self)@.map.get(h@) {
                Some(HeaderView::Values(s)) => old(self)@.map.insert(h@, HeaderView::Values(s.insert(f.spec_bytes()))),
                _ => old(self)@.map.insert(h@, HeaderView::Values(Set::empty().insert(f.spec_bytes()))),
            },
    {
        match self.headers.remove(h) {
            Some(Header::Values(mut s)) => {
                s.insert(f.as_bytes_vec());
                self.headers.insert(h.to_string(), Header::Values(s));
                assert(header_map_contents(self.headers) =~= old(self)@.map.insert(
                    h@,
                    HeaderView::Values(byte_set_contents(s)),
                ));
            },
            Some(Header::Field(old_field)) => {
                self.headers.insert(h.to_string(), Header::Field(old_field));
                assert(header_map_contents(self.headers) =~= old(self)@.map);
                self.headers(h, f);
            },
            None => {
                self.headers(h, f);
            },
        }
    }

    /// checks if a headers is already set
    pub fn contains(&self, key: &str) -> (r: bool)
        ensures
            r == self@.map.contains_key(key@),
    {
        self.headers.contains_key(key)
    }

    /// does `key` hold a single field value?
    pub fn is_field(&self, key: &str) -> (r: bool)
        ensures
            r == (self@.map.contains_key(key@) && self@.map[key@] is Field),
    {
        match self.headers.get(key) {
            Some(f) => f.is_field(),
            None => false,
        }
    }

    /// removes field header value if it exists
    pub fn remove(&mut self, key: &str) -> (r: Option<String>)
        ensures
            old(self)@.map.get(key@) matches Some(HeaderView::Field(f)) ==> (r matches Some(s) && s@ == f
                && final(self)@ == (HeadersView { map: old(self)@.map.remove(key@), ..old(self)@ })),
            !(old(self)@.map.get(key@) matches Some(HeaderView::Field(_))) ==> (r is None && final(self)@
                == old(self)@),
    {
        if !self.is_field(key) {
            return None;
        }
        match self.headers.remove(key) {
            Some(Header::Field(f)) => Some(f),
            _ => None,
        }
    }

    /// removes a set header value if it exists
    pub fn extract(&mut self, key: &str) -> (r: Option<ByteSet>)
        ensures
            old(self)@.map.get(key@) matches Some(HeaderView::Values(s)) ==> (r matches Some(set)
                && byte_set_contents(set) == s && final(self)@ == (HeadersView {
                map: old(self)@.map.remove(key@),
                ..old(self)@
            })),
            !(old(self)@.map.get(key@) matches Some(HeaderView::Values(_))) ==> (r is None && final(self)@
                == old(self)@),
    {
        if self.is_field(key) {
            return None;
        }
        match self.headers.remove(key) {
            Some(Header::Values(s)) => Some(s),
            _ => {
                assert(header_map_contents(self.headers) =~= old(self)@.map);
                None
            },
        }
    }

    /// removes specified headers and returns them in a Headers marked as
    /// sliced off: a partial collection taken from another one
    pub fn slice_off(&mut self, keys: &[&str]) -> (r: Headers)
        ensures
            r@.slice,
            final(self)@.slice == old(self)@.slice,
            forall|k: Seq<char>| #[trigger]
                final(self)@.map.contains_key(k) <==> old(self)@.map.contains_key(k) && !listed(keys@, k),
            forall|k: Seq<char>| #[trigger]
                r@.map.contains_key(k) <==> old(self)@.map.contains_key(k) && listed(keys@, k),
            forall|k: Seq<char>| #[trigger]
                final(self)@.map.contains_key(k) ==> final(self)@.map[k] == old(self)@.map[k],
            forall|k: Seq<char>| #[trigger] r@.map.contains_key(k) ==> r@.map[k] == old(self)@.map[k],
    {
        let mut out = HeaderMap::new();
        let mut i: usize = 0;
        while i < keys.len()
            invariant
                i <= keys@.len(),
                self@.slice == old(self)@.slice,
                forall|k: Seq<char>| #[trigger]
                    self@.map.contains_key(k) <==> old(self)@.map.contains_key(k) && !listed(
                        keys@.take(i as int),
                        k,
                    ),
                forall|k: Seq<char>| #[trigger]
                    header_map_contents(out).contains_key(k) <==> old(self)@.map.contains_key(k) && listed(
                        keys@.take(i as int),
                        k,
                    ),
                forall|k: Seq<char>| #[trigger] self@.map.contains_key(k) ==> self@.map[k] == old(self)@.map[k],
                forall|k: Seq<char>| #[trigger]
                    header_map_contents(out).contains_key(k) ==> header_map_contents(out)[k] == old(self)@.map[k],
            decreases keys@.len() - i,
        {
            let k = keys[i];
            proof {
                assert forall|x: Seq<char>| listed(keys@.take(i + 1), x) <==> listed(keys@.take(i as int), x)
                    || x == k@ by {
                    if listed(keys@.take(i + 1), x) {
                        let j = choose|j: int| 0 <= j < i + 1 && (#[trigger] keys@.take(i + 1)[j])@ == x;
                        if j < i {
                            assert(keys@.take(i as int)[j] == keys@.take(i + 1)[j]);
                        }
                    }
                    if listed(keys@.take(i as int), x) {
                        let j = choose|j: int| 0 <= j < i && (#[trigger] keys@.take(i as int)[j])@ == x;
                        assert(keys@.take(i + 1)[j] == keys@.take(i as int)[j]);
                    }
                    if x == k@ {
                        assert(keys@.take(i + 1)[i as int] == k);
                    }
                }
            }
            let ghost before = self@.map;
            let ghost out_before = header_map_contents(out);
            let ghost mut found = false;
            match self.headers.remove(k) {
                Some(h) => {
                    let name = k.to_string();
                    assert(name@ == k@);
                    out.insert(name, h);
                    proof {
                        found = true;
                    }
                },
                None => {},
            }
            proof {
                assert(self@.map == before.remove(k@));
                assert forall|x: Seq<char>| #[trigger]
                    self@.map.contains_key(x) <==> old(self)@.map.contains_key(x) && !listed(
                        keys@.take(i + 1),
                        x,
                    ) by {
                    assert(before.contains_key(x) <==> old(self)@.map.contains_key(x) && !listed(
                        keys@.take(i as int),
                        x,
                    ));
                }
                assert forall|x: Seq<char>| #[trigger]
                    header_map_contents(out).contains_key(x) <==> old(self)@.map.contains_key(x) && listed(
                        keys@.take(i + 1),
                        x,
                    ) by {
                    assert(before.contains_key(x) <==> old(self)@.map.contains_key(x) && !listed(
                        keys@.take(i as int),
                        x,
                    ));
                    assert(out_before.contains_key(x) <==> old(self)@.map.contains_key(x) && listed(
                        keys@.take(i as int),
                        x,
                    ));
                }
                assert forall|x: Seq<char>| #[trigger] header_map_contents(out).contains_key(x) implies header_map_contents(out)[x] == old(self)@.map[x] by {
                    if x != k@ || !found {
                        assert(out_before.contains_key(x));
                    } else {
                        assert(before.contains_key(x));
                    }
                }
            }
            i += 1;
        }
        assert(keys@.take(keys@.len() as int) =~= keys@);
        Headers { headers: out, slice: true }
    }

    pub fn is_empty(&self) -> (r: bool)
        ensures
            r == (self@.map == no_headers()),
    {
        self.headers.is_empty()
    }

    /// The entries, each name once, in the order of the hash table.
    pub fn iter(&self) -> (r: Vec<(&String, &Header)>)
        ensures
            entry_names(r@).no_duplicates(),
            entry_names(r@).to_set() == self@.map.dom(),
            forall|i: int| 0 <= i < r@.len() ==> header_view(*(#[trigger] r@[i]).1) == self@.map[r@[i].0@],
    {
        self.headers.entries()
    }
}

/// Is `k` the text of one of `keys`?
pub open spec fn listed(keys: Seq<&str>, k: Seq<char>) -> bool {
    exists|j: int| 0 <= j < keys.len() && (#[trigger] keys[j])@ == k
}

/// The values of a set header written as one field: the values separated
/// by `, `.
pub fn unify_header_fields(fields: &[Vec<u8>]) -> (r: Vec<u8>)
    ensures
        r@ == crate::cors::joined(crate::sets::bytes_views(fields@), crate::cors::comma_space()),
{
    let ghost items = crate::sets::bytes_views(fields@);
    let mut out: Vec<u8> = Vec::new();
    let mut i: usize = 0;
    while i < fields.len()
        invariant
            i <= fields@.len(),
            items == crate::sets::bytes_views(fields@),
            out@ == crate::cors::joined(items.take(i as int), crate::cors::comma_space()),
        decreases fields@.len() - i,
    {
        if i > 0 {
            out.push(44u8);
            out.push(32u8);
        }
        crate::headers::push_all(&mut out, fields[i].as_slice());
        proof {
            assert(items.take(i + 1).drop_last() =~= items.take(i as int));
            assert(items[i as int] == fields@[i as int]@);
            if i == 0 {
                assert(items.take(1)[0] == items[0]);
            }
            assert(out@ =~= crate::cors::joined(items.take(i + 1), crate::cors::comma_space()));
        }
        i += 1;
    }
    assert(items.take(fields@.len() as int) =~= items);
    out
}

/// A header line: the name, `:`, the value and a line feed.
pub open spec fn header_line(name: Seq<u8>, value: Seq<u8>) -> Seq<u8> {
    name + seq![58u8] + value + seq![10u8]
}

/// One header line for each of `values`, all with the name `name`.
pub open spec fn header_lines(name: Seq<u8>, values: Seq<Seq<u8>>) -> Seq<u8>
    decreases values.len(),
{
    if values.len() == 0 {
        Seq::empty()
    } else {
        header_lines(name, values.drop_last()) + header_line(name, values.last())
    }
}

/// The bytes of the texts of `v`.
pub open spec fn text_bytes(v: Seq<String>) -> Seq<Seq<u8>> {
    v.map_values(|t: String| vstd::utf8::encode_utf8(t@))
}

/// The line of the header `name` with the value `h`: its field, or the
/// values of its set separated by `, `, in the order of the set's hash
/// table.
pub fn line_of(name: &str, h: &Header) -> (r: Vec<u8>)
    ensures
        match *h {
            Header::Field(f) => r@ == header_line(name.spec_bytes(), vstd::utf8::encode_utf8(f@)),
            Header::Values(set) => exists|order: Seq<Seq<u8>>|
                order.no_duplicates() && order.to_set() == byte_set_contents(set) && r@ == header_line(
                    name.spec_bytes(),
                    crate::cors::joined(order, crate::cors::comma_space()),
                ),
        },
{
    let mut out: Vec<u8> = Vec::new();
    crate::headers::push_all(&mut out, name.as_bytes());
    out.push(58u8);
    match h {
        Header::Field(f) => {
            crate::headers::push_all(&mut out, f.as_str().as_bytes());
            out.push(10u8);
            assert(out@ =~= header_line(name.spec_bytes(), vstd::utf8::encode_utf8(f@)));
        },
        Header::Values(set) => {
            let fields = set.to_vec();
            let ghost order = crate::sets::bytes_views(fields@);
            let joined = unify_header_fields(&fields);
            crate::headers::push_all(&mut out, joined.as_slice());
            out.push(10u8);
            assert(out@ =~= header_line(name.spec_bytes(), crate::cors::joined(order, crate::cors::comma_space())));
        },
    }
    out
}

/// One line for each of `values`, each with the name `k`.
pub fn separate_header_fields(k: &str, values: &[String]) -> (r: Vec<u8>)
    ensures
        r@ == header_lines(k.spec_bytes(), text_bytes(values@)),
{
    let ghost vs = text_bytes(values@);
    let mut out: Vec<u8> = Vec::new();
    let mut i: usize = 0;
    while i < values.len()
        invariant
            i <= values@.len(),
            vs == text_bytes(values@),
            out@ == header_lines(k.spec_bytes(), vs.take(i as int)),
        decreases values@.len() - i,
    {
        crate::headers::push_all(&mut out, k.as_bytes());
        out.push(58u8);
        crate::headers::push_all(&mut out, values[i].as_str().as_bytes());
        out.push(10u8);
        proof {
            assert(vs.take(i + 1).drop_last() =~= vs.take(i as int));
            assert(vs.take(i + 1).last() == vs[i as int]);
        }
        assert(out@ =~= header_lines(k.spec_bytes(), vs.take(i + 1)));
        i += 1;
    }
    assert(vs.take(values@.len() as int) =~= vs);
    out
}

/// The map that a run of entries gives, a later name holding over an
/// earlier one.
pub open spec fn entries_map(e: Seq<(Seq<char>, HeaderView)>) -> Map<Seq<char>, HeaderView>
    decreases e.len(),
{
    if e.len() == 0 {
        no_headers()
    } else {
        entries_map(e.drop_last()).insert(e.last().0, e.last().1)
    }
}

/// The views of a run of entries.
pub open spec fn entry_views(e: Seq<(String, Header)>) -> Seq<(Seq<char>, HeaderView)> {
    e.map_values(|p: (String, Header)| (p.0@, header_view(p.1)))
}

impl Headers {
    /// Collects entries into a collection marked as sliced off (see
    /// `entries_map`).
    pub fn from_entries(entries: Vec<(String, Header)>) -> (r: Headers)
        ensures
            r@.slice,
            r@.map == entries_map(entry_views(entries@)),
    {
        let ghost views = entry_views(entries@);
        let total = entries.len();
        let ghost n = total as nat;
        let mut rest = entries;
        let mut map = HeaderMap::new();
        let mut taken: usize = 0;
        while rest.len() > 0
            invariant
                n == views.len(),
                n == total,
                taken + rest@.len() == n,
                entry_views(rest@) == views.subrange(taken as int, n as int),
                header_map_contents(map) == entries_map(views.take(taken as int)),
            decreases rest@.len(),
        {
            let ghost before = rest@;
            let (name, value) = rest.remove(0);
            proof {
                assert(entry_views(before)[0] == views.subrange(taken as int, n as int)[0]);
                assert(views.take(taken + 1).drop_last() =~= views.take(taken as int));
                assert forall|j: int| 0 <= j < rest@.len() implies entry_views(rest@)[j] == views.subrange(
                    taken + 1,
                    n as int,
                )[j] by {
                    assert(rest@[j] == before[j + 1]);
                    assert(entry_views(before)[j + 1] == views.subrange(taken as int, n as int)[j + 1]);
                }
                assert(entry_views(rest@) =~= views.subrange(taken + 1, n as int));
            }
            map.insert(name, value);
            taken = taken + 1;
        }
        assert(views.take(n as int) =~= views);
        Headers { headers: map, slice: true }
    }
}

/// A read gives back what a write wrote: after `header(k, f)` the name
/// `k` holds the field `f`, which `remove(k)` hands back, leaving the
/// other names as they were before the write.
pub proof fn law_read_after_write(m: Map<Seq<char>, HeaderView>, k: Seq<char>, f: Seq<char>)
    ensures
        m.insert(k, HeaderView::Field(f)).get(k) == Some(HeaderView::Field(f)),
        m.insert(k, HeaderView::Field(f)).remove(k) == m.remove(k),
{
    assert(m.insert(k, HeaderView::Field(f)).remove(k) =~= m.remove(k));
}

} // verus!
