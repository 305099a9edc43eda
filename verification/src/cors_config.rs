//! Cross origin resource sharing as a server configures it: the settings
//! of a servlet, the cors part of a request, and the response headers that
//! answer it.
//!
//! - user sets cors permissions on the servlet
//! - request parses request cors if they exist
//! - respond sets respond cors if servlet and request have them
//!
//! An origin is held as its text; `*` stands for any origin.
use vstd::prelude::*;
use vstd::string::{StrSliceExecFns, StringSliceAdditionalSpecFns};
use crate::core_method::{Method, uppercase_text};
use crate::cors::glob_view;
use crate::header_map::{Header, HeaderView, Headers};
use crate::inet::{parts_view, split_bytes, split_on};
use crate::sets::{ByteSet, byte_set_contents};
use crate::status::{ClientError, ErrorStatus};
use crate::time_span::TimeSpan;
use crate::trim::{trim, trim_bounds};
use crate::wildcard::WildCardish;
use vstd::utf8::encode_utf8;

verus! {

/// A header that a servlet allows in cors requests, and whether responses
/// may expose it to the client.
#[derive(Debug, Default, Clone, PartialEq, Eq, Hash)]
pub struct CorsHeader {
    header: String,
    /// is this header allowed to be exposed to the client in cross origin request responses
    expose: bool,
}

impl CorsHeader {
    /// The header's name and whether it is exposed.
    pub closed spec fn pair(&self) -> (Seq<char>, bool) {
        (self.header@, self.expose)
    }

    pub fn new(header: String, expose: bool) -> (r: Self)
        ensures
            r.pair() == (header@, expose),
    {
        CorsHeader { header, expose }
    }

    /// The header's name.
    pub fn name(&self) -> (r: &str)
        ensures
            r@ == self.pair().0,
    {
        self.header.as_str()
    }

    /// Is the header exposed?
    pub fn exposed(&self) -> (r: bool)
        ensures
            r == self.pair().1,
    {
        self.expose
    }
}

/// A set of cors headers, held in a `hashbrown::HashSet<CorsHeader>`; two
/// are the same when their names and exposure are (the derived `Eq`). The
/// order in which they come out is the hash table's.
#[verifier::external_body]
pub struct CorsHeaderSet {
    set: hashbrown::HashSet<CorsHeader>,
}

/// The names and exposures that a set of cors headers holds.
pub uninterp spec fn cors_header_contents(s: CorsHeaderSet) -> Set<(Seq<char>, bool)>;

/// The names and exposures of a list of cors headers.
pub open spec fn cors_pairs(v: Seq<&CorsHeader>) -> Seq<(Seq<char>, bool)> {
    v.map_values(|h: &CorsHeader| h.pair())
}

impl CorsHeaderSet {
    /// `HashSet::new`: no header.
    #[verifier::external_body]
    pub(crate) fn new() -> (r: CorsHeaderSet)
        ensures
            cors_header_contents(r) == Set::<(Seq<char>, bool)>::empty(),
    {
        CorsHeaderSet { set: hashbrown::HashSet::new() }
    }

    /// `HashSet::insert`: adds `h`.
    #[verifier::external_body]
    pub(crate) fn insert(&mut self, h: CorsHeader)
        ensures
            cors_header_contents(*final(self)) == cors_header_contents(*old(self)).insert(h.pair()),
    {
        self.set.insert(h);
    }

    /// `HashSet::iter`: the headers, each once, in the hash table's order
    /// (which this contract leaves open).
    #[verifier::external_body]
    pub(crate) fn items(&self) -> (r: Vec<&CorsHeader>)
        ensures
            cors_pairs(r@).no_duplicates(),
            cors_pairs(r@).to_set() == cors_header_contents(*self),
    {
        self.set.iter().collect()
    }
}

/// The cors settings of a servlet.
pub struct CorsConfigs {
    /// allowed cors req headers
    pub headers: CorsHeaderSet,
    /// set of whitelisted origins or glob '*' to allow any origin
    pub origins: WildCardish<ByteSet>,
    /// allow credentials for this cors requests
    pub credentials: bool,
    /// max-age dictates how long the response of an options request can be cached for
    pub max_age: Option<TimeSpan>,
}

/// The cors settings with their sets as their contents.
pub struct CorsConfigsView {
    pub headers: Set<(Seq<char>, bool)>,
    pub origins: WildCardish<Set<Seq<u8>>>,
    pub credentials: bool,
    pub max_age: Option<TimeSpan>,
}

impl View for CorsConfigs {
    type V = CorsConfigsView;

    open spec fn view(&self) -> CorsConfigsView {
        CorsConfigsView {
            headers: cors_header_contents(self.headers),
            origins: glob_view(self.origins),
            credentials: self.credentials,
            max_age: self.max_age,
        }
    }
}

impl Default for CorsConfigs {
    fn default() -> (r: Self)
        ensures
            r@.headers == Set::<(Seq<char>, bool)>::empty(),
            r@.origins is Glob,
            !r@.credentials,
            r@.max_age is None,
    {
        CorsConfigs {
            headers: CorsHeaderSet::new(),
            origins: WildCardish::Glob,
            credentials: false,
            max_age: None,
        }
    }
}

/// Does the cors setting `origins` allow the request origin `origin`? A
/// glob request origin is allowed; so is any origin under a glob setting;
/// under a list of origins, a named one only where the list holds it.
pub open spec fn spec_allows_origin(origins: WildCardish<Set<Seq<u8>>>, origin: WildCardish<Seq<char>>) -> bool {
    match origin {
        WildCardish::Glob => true,
        WildCardish::Value(o) => match origins {
            WildCardish::Value(set) => set.contains(encode_utf8(o)),
            WildCardish::Glob => true,
        },
    }
}

/// The text of a request origin.
pub open spec fn origin_view(o: WildCardish<&String>) -> WildCardish<Seq<char>> {
    match o {
        WildCardish::Glob => WildCardish::Glob,
        WildCardish::Value(s) => WildCardish::Value(s@),
    }
}

impl CorsConfigs {
    /// Adds `origin` to the allowed origins when they are a list; a glob
    /// setting stays as it is.
    pub fn origin(&mut self, origin: &str) -> (r: &mut Self)
        ensures
            (*r)@ == (CorsConfigsView {
                origins: match old(self)@.origins {
                    WildCardish::Value(set) => WildCardish::Value(set.insert(origin.spec_bytes())),
                    WildCardish::Glob => WildCardish::Glob,
                },
                ..old(self)@
            }),
            *final(self) == *final(r),
    {
        match &mut self.origins {
            WildCardish::Value(set) => {
                set.insert(origin.as_bytes_vec());
            },
            WildCardish::Glob => {},
        }
        self
    }

    /// Allows exactly the origins of `origins`.
    pub fn origins(&mut self, origins: ByteSet) -> (r: &mut Self)
        ensures
            (*r)@ == (CorsConfigsView { origins: WildCardish::Value(byte_set_contents(origins)), ..old(self)@ }),
            *final(self) == *final(r),
    {
        self.origins = WildCardish::Value(origins);
        self
    }

    /// allows any origin to make the cors request
    /// using the glob operator
    pub fn glob_origin(&mut self) -> (r: &mut Self)
        ensures
            (*r)@ == (CorsConfigsView { origins: WildCardish::Glob, ..old(self)@ }),
            *final(self) == *final(r),
    {
        self.origins = WildCardish::Glob;
        self
    }

    /// Allows the header `header`, exposed or not.
    pub fn header(&mut self, header: String, expose: bool) -> (r: &mut Self)
        ensures
            (*r)@ == (CorsConfigsView { headers: old(self)@.headers.insert((header@, expose)), ..old(self)@ }),
            *final(self) == *final(r),
    {
        self.headers.insert(CorsHeader { header, expose });
        self
    }

    /// Allows each of `headers`.
    pub fn headers(&mut self, headers: Vec<CorsHeader>) -> (r: &mut Self)
        ensures
            (*r)@ == (CorsConfigsView {
                headers: old(self)@.headers + headers@.map_values(|h: CorsHeader| h.pair()).to_set(),
                ..old(self)@
            }),
            *final(self) == *final(r),
    {
        let ghost pairs = headers@.map_values(|h: CorsHeader| h.pair());
        let ghost start = cors_header_contents(self.headers);
        let mut rest = headers;
        while rest.len() > 0
            invariant
                rest@.len() <= pairs.len(),
                rest@.map_values(|h: CorsHeader| h.pair()) == pairs.take(rest@.len() as int),
                cors_header_contents(self.headers) == start + pairs.subrange(rest@.len() as int, pairs.len() as int).to_set(),
                self.origins == old(self).origins,
                self.credentials == old(self).credentials,
                self.max_age == old(self).max_age,
            decreases rest@.len(),
        {
            let ghost k = rest@.len() - 1;
            let ghost before = rest@;
            let h = rest.pop().unwrap();
            proof {
                assert(before.map_values(|h: CorsHeader| h.pair())[k] == pairs.take(k + 1)[k]);
                assert(h.pair() == pairs[k]);
                assert(rest@.map_values(|h: CorsHeader| h.pair()) =~= pairs.take(k));
                assert(pairs.subrange(k, pairs.len() as int) =~= seq![pairs[k]] + pairs.subrange(k + 1, pairs.len() as int));
                assert(pairs.subrange(k, pairs.len() as int).to_set() =~= pairs.subrange(k + 1, pairs.len() as int).to_set().insert(pairs[k])) by {
                    assert forall|x| pairs.subrange(k, pairs.len() as int).to_set().contains(x) <==> pairs.subrange(k + 1, pairs.len() as int).to_set().insert(pairs[k]).contains(x) by {
                        let a = pairs.subrange(k, pairs.len() as int);
                        let b = pairs.subrange(k + 1, pairs.len() as int);
                        if a.contains(x) {
                            let j = choose|j: int| 0 <= j < a.len() && a[j] == x;
                            if j > 0 {
                                assert(b[j - 1] == x);
                            }
                        }
                        if b.contains(x) {
                            let j = choose|j: int| 0 <= j < b.len() && b[j] == x;
                            assert(a[j + 1] == x);
                        }
                        if x == pairs[k] {
                            assert(a[0] == x);
                        }
                    }
                }
            }
            self.headers.insert(h);
        }
        assert(pairs.subrange(0, pairs.len() as int) =~= pairs);
        self
    }

    /// Kept for its callers: the span is not stored, so the settings stay
    /// as they are.
    pub fn max_age(&mut self, _ma: TimeSpan) -> (r: &mut Self)
        ensures
            (*r)@ == old(self)@,
            *final(self) == *final(r),
    {
        self
    }

    /// Allows or forbids credentials.
    pub fn credentials(&mut self, creds: bool) -> (r: &mut Self)
        ensures
            (*r)@ == (CorsConfigsView { credentials: creds, ..old(self)@ }),
            *final(self) == *final(r),
    {
        self.credentials = creds;
        self
    }

    /// Does the servlet allow the request origin `origin` (see
    /// `spec_allows_origin`)?
    pub fn allows_origin(&self, origin: WildCardish<&String>) -> (r: bool)
        ensures
            r == spec_allows_origin(self@.origins, origin_view(origin)),
    {
        match origin {
            WildCardish::Glob => true,
            WildCardish::Value(o) => match &self.origins {
                WildCardish::Value(set) => set.contains(o.as_str().as_bytes()),
                WildCardish::Glob => true,
            },
        }
    }
}

/// The names that an `Access-Control-Request-Headers` value lists: its
/// comma separated parts, trimmed.
pub open spec fn listed_headers(s: Seq<u8>) -> Set<Seq<u8>> {
    split_on(s, 44).map_values(|p: Seq<u8>| trim(p)).to_set()
}

/// Reads the header names of an `Access-Control-Request-Headers` value
/// (see `listed_headers`).
pub fn parse_headers(s: &str) -> (r: ByteSet)
    ensures
        byte_set_contents(r) == listed_headers(s.spec_bytes()),
{
    let parts = split_bytes(s.as_bytes(), 44);
    let ghost ps = parts_view(parts@);
    let ghost names = ps.map_values(|p: Seq<u8>| trim(p));
    let mut set = ByteSet::new();
    let mut i: usize = 0;
    while i < parts.len()
        invariant
            i <= parts@.len(),
            ps == parts_view(parts@),
            names == ps.map_values(|p: Seq<u8>| trim(p)),
            byte_set_contents(set) == names.take(i as int).to_set(),
        decreases parts@.len() - i,
    {
        let (from, to) = trim_bounds(parts[i].as_slice());
        let name = crate::bytes::copy_range(parts[i].as_slice(), from, to);
        proof {
            assert(ps[i as int] == parts@[i as int]@);
            assert(name@ == names[i as int]);
            assert(names.take(i + 1) =~= names.take(i as int).push(names[i as int]));
            names.take(i as int).lemma_push_to_set_commute(names[i as int]);
        }
        set.insert(name);
        i += 1;
    }
    assert(names.take(parts@.len() as int) =~= names);
    set
}

/// The field value that `name` holds in `map`, if it holds one.
pub open spec fn field_of(map: Map<Seq<char>, HeaderView>, name: Seq<char>) -> Option<Seq<char>> {
    match map.get(name) {
        Some(HeaderView::Field(f)) => Some(f),
        _ => None,
    }
}

/// The origin that an `Origin` value names: `*` is any origin.
pub open spec fn origin_of(text: Seq<char>) -> WildCardish<Seq<char>> {
    if text == "*"@ {
        WildCardish::Glob
    } else {
        WildCardish::Value(text)
    }
}

/// Reads an `Origin` value (see `origin_of`).
fn parse_origin(text: String) -> (r: WildCardish<String>)
    ensures
        origin_view(r.as_ref_view()) == origin_of(text@),
{
    if crate::bytes::str_eq(text.as_str(), "*") {
        WildCardish::Glob
    } else {
        WildCardish::Value(text)
    }
}

impl WildCardish<String> {
    /// The origin held, by reference.
    pub open spec fn as_ref_view(&self) -> WildCardish<&String> {
        match self {
            WildCardish::Glob => WildCardish::Glob,
            WildCardish::Value(s) => WildCardish::Value(s),
        }
    }
}

/// The cors part of a request: its origin, the headers it asks for, and
/// the method it asks for.
pub struct RequestCors {
    /// the cors req origin, client MUST provide this header
    origin: WildCardish<String>,
    /// client MAY send this
    headers: Option<ByteSet>,
    /// client MUST send this
    method: Method,
}

/// The cors part of a request with its texts as text and its set as its
/// contents.
pub struct RequestCorsView {
    pub origin: WildCardish<Seq<char>>,
    pub headers: Option<Set<Seq<u8>>>,
    pub method: Method,
}

impl View for RequestCors {
    type V = RequestCorsView;

    closed spec fn view(&self) -> RequestCorsView {
        RequestCorsView {
            origin: origin_view(self.origin.as_ref_view()),
            headers: match self.headers {
                Some(s) => Some(byte_set_contents(s)),
                None => None,
            },
            method: self.method,
        }
    }
}

/// The method that an `Access-Control-Request-Method` value names, if any
/// (read as `Method::from_str` reads it).
pub open spec fn requested_method(text: Seq<char>) -> Option<Method> {
    Method::spec_of_name(encode_utf8(uppercase_text(text)))
}

/// The cors part that the header values `map` give: the origin and the
/// method must be field values, and the method known; the requested
/// headers are optional.
pub open spec fn spec_request_cors(map: Map<Seq<char>, HeaderView>) -> Option<RequestCorsView> {
    match (field_of(map, "Origin"@), field_of(map, "Access-Control-Request-Method"@)) {
        (Some(o), Some(m)) => match requested_method(m) {
            Some(method) => Some(
                RequestCorsView {
                    origin: origin_of(o),
                    headers: match field_of(map, "Access-Control-Request-Headers"@) {
                        Some(h) => Some(listed_headers(encode_utf8(h))),
                        None => None,
                    },
                    method,
                },
            ),
            None => None,
        },
        _ => None,
    }
}

impl RequestCors {
    /// Reads the cors part of a request from its headers (see
    /// `spec_request_cors`); without it, the request is bad.
    pub fn from_headers(h: Headers) -> (r: Result<Self, ErrorStatus>)
        ensures
            match spec_request_cors(h@.map) {
                Some(c) => r matches Ok(rc) && rc@ == c,
                None => r == Err::<Self, ErrorStatus>(ErrorStatus::Client(ClientError::BadRequest)),
            },
    {
        let mut h = h;
        let ghost map = h@.map;
        let origin = h.remove("Origin");
        let ghost after_origin = h@.map;
        let method = h.remove("Access-Control-Request-Method");
        proof {
            reveal_strlit("Origin");
            reveal_strlit("Access-Control-Request-Method");
            reveal_strlit("Access-Control-Request-Headers");
            assert("Origin"@.len() == 6);
            assert("Access-Control-Request-Method"@.len() == 29);
            assert("Origin"@ != "Access-Control-Request-Method"@);
            assert("Origin"@ != "Access-Control-Request-Headers"@);
            assert("Access-Control-Request-Method"@ != "Access-Control-Request-Headers"@);
            assert(field_of(after_origin, "Access-Control-Request-Method"@) == field_of(
                map,
                "Access-Control-Request-Method"@,
            ));
        }
        let (origin, method) = match (origin, method) {
            (Some(o), Some(m)) => match Method::from_str(m.as_str()) {
                Ok(method) => (parse_origin(o), method),
                Err(_) => {
                    return Err(ErrorStatus::Client(ClientError::BadRequest));
                },
            },
            _ => {
                return Err(ErrorStatus::Client(ClientError::BadRequest));
            },
        };
        let ghost after_method = h@.map;
        assert(field_of(after_method, "Access-Control-Request-Headers"@) == field_of(
            map,
            "Access-Control-Request-Headers"@,
        ));
        let headers = match h.remove("Access-Control-Request-Headers") {
            Some(s) => Some(parse_headers(s.as_str())),
            None => None,
        };
        Ok(RequestCors { origin, headers, method })
    }

    /// The origin, by reference.
    pub fn origin_ref(&self) -> (r: WildCardish<&String>)
        ensures
            origin_view(r) == self@.origin,
    {
        match &self.origin {
            WildCardish::Glob => WildCardish::Glob,
            WildCardish::Value(o) => WildCardish::Value(o),
        }
    }

    /// The method asked for.
    pub fn method(&self) -> (r: Method)
        ensures
            r == self@.method,
    {
        self.method
    }
}

/// The texts of `items` with `sep` between each two.
pub open spec fn joined_text(items: Seq<Seq<char>>, sep: Seq<char>) -> Seq<char>
    decreases items.len(),
{
    if items.len() == 0 {
        Seq::empty()
    } else if items.len() == 1 {
        items[0]
    } else {
        joined_text(items.drop_last(), sep) + sep + items.last()
    }
}

/// Joins texts with `, ` between each two.
fn join_texts(items: &Vec<&str>) -> (r: String)
    ensures
        r@ == joined_text(items@.map_values(|t: &str| t@), ", "@),
{
    let ghost texts = items@.map_values(|t: &str| t@);
    let mut out = String::new();
    let mut i: usize = 0;
    while i < items.len()
        invariant
            i <= items@.len(),
            texts == items@.map_values(|t: &str| t@),
            out@ == joined_text(texts.take(i as int), ", "@),
        decreases items@.len() - i,
    {
        if i > 0 {
            out.append(", ");
        }
        out.append(items[i]);
        proof {
            assert(texts.take(i + 1).drop_last() =~= texts.take(i as int));
            if i == 0 {
                assert(texts.take(1)[0] == texts[0]);
            }
        }
        i += 1;
    }
    assert(texts.take(items@.len() as int) =~= texts);
    out
}

proof fn lemma_texts_push(v: Seq<&str>, x: &str)
    ensures
        v.push(x).map_values(|t: &str| t@) == v.map_values(|t: &str| t@).push(x@),
{
    assert(v.push(x).map_values(|t: &str| t@) =~= v.map_values(|t: &str| t@).push(x@));
}

proof fn lemma_names_push(v: Seq<(Seq<char>, bool)>, x: (Seq<char>, bool))
    ensures
        header_names(v.push(x)) == header_names(v).push(x.0),
{
    assert(header_names(v.push(x)) =~= header_names(v).push(x.0));
}

/// The cors answer to a request: what the servlet allows, for the origin
/// that asked.
pub struct RespondCors<'a> {
    methods: Vec<Method>,
    headers: &'a CorsHeaderSet,
    origin: WildCardish<&'a String>,
    credentials: bool,
    max_age: Option<TimeSpan>,
}

/// The cors answer with its sets as their contents and its texts as text.
pub struct RespondCorsView {
    pub methods: Seq<Method>,
    pub headers: Set<(Seq<char>, bool)>,
    pub origin: WildCardish<Seq<char>>,
    pub credentials: bool,
    pub max_age: Option<TimeSpan>,
}

impl<'a> View for RespondCors<'a> {
    type V = RespondCorsView;

    closed spec fn view(&self) -> RespondCorsView {
        RespondCorsView {
            methods: self.methods@,
            headers: cors_header_contents(*self.headers),
            origin: origin_view(self.origin),
            credentials: self.credentials,
            max_age: self.max_age,
        }
    }
}

/// The text that allows an origin: `*` for any.
pub open spec fn origin_text(o: WildCardish<Seq<char>>) -> Seq<char> {
    match o {
        WildCardish::Glob => "*"@,
        WildCardish::Value(t) => t,
    }
}

/// The names of the methods, as the allow header lists them.
pub open spec fn method_names(m: Seq<Method>) -> Seq<Seq<char>> {
    m.map_values(|x: Method| x.spec_name())
}

/// The names of the headers of `order`.
pub open spec fn header_names(order: Seq<(Seq<char>, bool)>) -> Seq<Seq<char>> {
    order.map_values(|p: (Seq<char>, bool)| p.0)
}

/// The headers of `order` that may be exposed.
pub open spec fn exposed(order: Seq<(Seq<char>, bool)>) -> Seq<(Seq<char>, bool)> {
    order.filter(|p: (Seq<char>, bool)| p.1)
}

/// A field header entry.
pub open spec fn field_entry(name: Seq<char>, value: Seq<char>) -> Seq<(Seq<char>, HeaderView)> {
    seq![(name, HeaderView::Field(value))]
}

/// The header entries of a cors answer, in order, given the order in which
/// its allowed headers are listed and the text of its maximum age: the
/// allowed origin, methods and headers; the exposed headers when any is
/// exposed; credentials when allowed; the maximum age when set.
pub open spec fn cors_entries(c: RespondCorsView, order: Seq<(Seq<char>, bool)>, age: Option<Seq<char>>) -> Seq<
    (Seq<char>, HeaderView),
> {
    field_entry("Access-Control-Allow-Origin"@, origin_text(c.origin)) + field_entry(
        "Access-Control-Allow-Methods"@,
        joined_text(method_names(c.methods), ", "@),
    ) + field_entry("Access-Control-Allow-Headers"@, joined_text(header_names(order), ", "@)) + (if exposed(
        order,
    ).len() > 0 {
        field_entry("Access-Control-Expose-Headers"@, joined_text(header_names(exposed(order)), ", "@))
    } else {
        Seq::empty()
    }) + (if c.credentials {
        field_entry("Access-Control-Allow-Credintials"@, "true"@)
    } else {
        Seq::empty()
    }) + match age {
        Some(t) => field_entry("Access-Control-Max-Age"@, t),
        None => Seq::empty(),
    }
}

/// The text of a maximum age, when there is one (see `iso_duration_text`).
pub open spec fn age_text(age: Option<TimeSpan>) -> Option<Seq<char>> {
    match age {
        Some(t) => Some(t.spec_text()),
        None => None,
    }
}

/// `map` answers the cors request `c` when its allowed headers are listed
/// in `order` and its maximum age reads `age`.
pub open spec fn answers(c: RespondCorsView, order: Seq<(Seq<char>, bool)>, age: Option<Seq<char>>, map: Map<
    Seq<char>,
    HeaderView,
>) -> bool {
    &&& order.no_duplicates()
    &&& order.to_set() == c.headers
    &&& (age is Some <==> c.max_age is Some)
    &&& map == crate::header_map::entries_map(cors_entries(c, order, age))
}

/// The names of methods joined by `, `.
fn chain_methods(methods: &[Method]) -> (r: String)
    ensures
        r@ == joined_text(method_names(methods@), ", "@),
{
    let mut method_strs: Vec<&str> = Vec::new();
    let mut k: usize = 0;
    while k < methods.len()
        invariant
            k <= methods@.len(),
            method_strs@.map_values(|t: &str| t@) == method_names(methods@.take(k as int)),
        decreases methods@.len() - k,
    {
        let ghost before = method_strs@;
        let m = methods[k].as_str();
        method_strs.push(m);
        proof {
            lemma_texts_push(before, m);
            assert(methods@.take(k + 1) =~= methods@.take(k as int).push(methods@[k as int]));
            assert(method_names(methods@.take(k + 1)) =~= method_names(methods@.take(k as int)).push(
                methods@[k as int].spec_name(),
            ));
        }
        k += 1;
    }
    assert(methods@.take(methods@.len() as int) =~= methods@);
    join_texts(&method_strs)
}

/// The names of the headers joined by `, `, in their order.
fn chain_headers(headers: &Vec<&CorsHeader>) -> (r: String)
    ensures
        r@ == joined_text(header_names(cors_pairs(headers@)), ", "@),
{
    let ghost order = cors_pairs(headers@);
    let mut names: Vec<&str> = Vec::new();
    let mut i: usize = 0;
    while i < headers.len()
        invariant
            i <= headers@.len(),
            order == cors_pairs(headers@),
            names@.map_values(|t: &str| t@) == header_names(order.take(i as int)),
        decreases headers@.len() - i,
    {
        let h = headers[i];
        let ghost before = names@;
        let name = h.name();
        names.push(name);
        proof {
            assert(order.take(i + 1) =~= order.take(i as int).push(order[i as int]));
            lemma_texts_push(before, name);
            lemma_names_push(order.take(i as int), order[i as int]);
        }
        i += 1;
    }
    assert(order.take(headers@.len() as int) =~= order);
    join_texts(&names)
}

/// The names of the exposed headers joined by `, `, in their order, when
/// any is exposed.
fn chain_exposable(headers: &Vec<&CorsHeader>) -> (r: Option<String>)
    ensures
        exposed(cors_pairs(headers@)).len() > 0 ==> (r matches Some(t) && t@ == joined_text(
            header_names(exposed(cors_pairs(headers@))),
            ", "@,
        )),
        exposed(cors_pairs(headers@)).len() == 0 ==> r is None,
{
    let ghost order = cors_pairs(headers@);
    let mut names: Vec<&str> = Vec::new();
    let mut i: usize = 0;
    while i < headers.len()
        invariant
            i <= headers@.len(),
            order == cors_pairs(headers@),
            names@.map_values(|t: &str| t@) == header_names(exposed(order.take(i as int))),
            names@.len() == exposed(order.take(i as int)).len(),
        decreases headers@.len() - i,
    {
        let h = headers[i];
        proof {
            assert(order.take(i + 1) =~= order.take(i as int).push(order[i as int]));
            assert(order[i as int] == h.pair());
            order.take(i as int).lemma_filter_push(order[i as int], |p: (Seq<char>, bool)| p.1);
        }
        if h.exposed() {
            let ghost before = names@;
            let name = h.name();
            names.push(name);
            proof {
                lemma_texts_push(before, name);
                lemma_names_push(exposed(order.take(i as int)), order[i as int]);
            }
        }
        i += 1;
    }
    assert(order.take(headers@.len() as int) =~= order);
    if names.len() == 0 {
        None
    } else {
        Some(join_texts(&names))
    }
}

impl<'a> RespondCors<'a> {
    /// The answer of a servlet with the settings `configs` to the cors
    /// request `request`, for a resource with the methods
    /// `resource_methods`: forbidden when the servlet does not allow the
    /// request's origin.
    pub fn new(configs: &'a CorsConfigs, request: &'a RequestCors, resource_methods: Vec<Method>) -> (r: Result<
        Self,
        ErrorStatus,
    >)
        ensures
            !spec_allows_origin(configs@.origins, request@.origin) ==> r == Err::<Self, ErrorStatus>(
                ErrorStatus::Client(ClientError::Forbidden),
            ),
            spec_allows_origin(configs@.origins, request@.origin) ==> (r matches Ok(c) && c@ == RespondCorsView {
                methods: resource_methods@,
                headers: configs@.headers,
                origin: request@.origin,
                credentials: configs@.credentials,
                max_age: configs@.max_age,
            }),
    {
        if !configs.allows_origin(request.origin_ref()) {
            return Err(ErrorStatus::Client(ClientError::Forbidden));
        }
        Ok(RespondCors {
            methods: resource_methods,
            max_age: configs.max_age,
            credentials: configs.credentials,
            origin: request.origin_ref(),
            headers: &configs.headers,
        })
    }

    /// The response headers of the answer (see `cors_entries`); the
    /// allowed headers come in the order of their set.
    pub fn into_headers(self) -> (r: Headers)
        ensures
            r@.slice,
            exists|order: Seq<(Seq<char>, bool)>| #[trigger] answers(self@, order, age_text(self@.max_age), r@.map),
    {
        let items = self.headers.items();
        let ghost order = cors_pairs(items@);
        let mut entries: Vec<(String, Header)> = Vec::new();
        let origin = match self.origin {
            WildCardish::Glob => "*".to_string(),
            WildCardish::Value(o) => o.as_str().to_string(),
        };
        entries.push(("Access-Control-Allow-Origin".to_string(), Header::Field(origin)));
        entries.push(("Access-Control-Allow-Methods".to_string(), Header::Field(chain_methods(self.methods.as_slice()))));
        entries.push(("Access-Control-Allow-Headers".to_string(), Header::Field(chain_headers(&items))));
        match chain_exposable(&items) {
            Some(ex) => {
                entries.push(("Access-Control-Expose-Headers".to_string(), Header::Field(ex)));
            },
            None => {},
        }
        if self.credentials {
            entries.push(("Access-Control-Allow-Credintials".to_string(), Header::Field("true".to_string())));
        }
        let ghost mut age: Option<Seq<char>> = None;
        match &self.max_age {
            Some(ma) => {
                let text = ma.to_string();
                proof {
                    age = Some(text@);
                }
                entries.push(("Access-Control-Max-Age".to_string(), Header::Field(text)));
            },
            None => {},
        }
        proof {
            assert(crate::header_map::entry_views(entries@) =~= cors_entries(self@, order, age));
        }
        let r = Headers::from_entries(entries);
        assert(age == age_text(self@.max_age));
        assert(answers(self@, order, age, r@.map));
        r
    }
}

} // verus!
