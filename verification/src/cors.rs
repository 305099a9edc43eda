//! Cross origin resource sharing: the allowed methods, headers and origins
//! of a server, the checks of a request against them, and the response
//! headers that grant them.
use vstd::prelude::*;
use vstd::string::StringSliceAdditionalSpecFns;
use vstd::utf8::{encode_utf8, valid_utf8};
use crate::bytes::{copy_range, eq_bytes, is_utf8};
use crate::decimal::{push_signed_decimal, signed_decimal};
use crate::headers::{Header, HeaderView, field_value, header_value, headers_view, push_all};
use crate::inet::{parts_view, split_bytes, split_on};
use crate::method::Method;
use crate::sets::{ByteSet, byte_set_contents, bytes_views};
use crate::trim::{trim, trim_bounds};
use crate::wildcard::WildCardish;

verus! {

/// The cross origin parameters of a server.
pub struct Cors {
    /// allowed methods, by name; can take a glob `*`
    methods: WildCardish<ByteSet>,
    /// allowed headers; can take a glob `*`
    headers: WildCardish<ByteSet>,
    /// response headers exposed to client scripts; can take a glob `*`
    expose: WildCardish<ByteSet>,
    /// allowed origins; can take a glob `*`
    origins: WildCardish<ByteSet>,
    /// are credentials allowed across origins
    credentials: bool,
    /// preflight request caching timeout
    max_age: Option<i64>,
}

/// The parameters as sets of byte strings.
pub struct CorsView {
    pub methods: WildCardish<Set<Seq<u8>>>,
    pub headers: WildCardish<Set<Seq<u8>>>,
    pub expose: WildCardish<Set<Seq<u8>>>,
    pub origins: WildCardish<Set<Seq<u8>>>,
    pub credentials: bool,
    pub max_age: Option<i64>,
}

/// A glob, or the contents of a set.
pub open spec fn glob_view(w: WildCardish<ByteSet>) -> WildCardish<Set<Seq<u8>>> {
    match w {
        WildCardish::Glob => WildCardish::Glob,
        WildCardish::Value(s) => WildCardish::Value(byte_set_contents(s)),
    }
}

impl View for Cors {
    type V = CorsView;

    closed spec fn view(&self) -> CorsView {
        CorsView {
            methods: glob_view(self.methods),
            headers: glob_view(self.headers),
            expose: glob_view(self.expose),
            origins: glob_view(self.origins),
            credentials: self.credentials,
            max_age: self.max_age,
        }
    }
}

/// The name of a method, as bytes.
pub open spec fn method_name(m: Method) -> Seq<u8> {
    encode_utf8(m.spec_name())
}

/// The names of the methods of `m`.
pub open spec fn method_names(m: Seq<Method>) -> Set<Seq<u8>> {
    m.map_values(|x: Method| method_name(x)).to_set()
}

/// The bytes of the strings of `h`.
pub open spec fn str_names(h: Seq<&str>) -> Set<Seq<u8>> {
    h.map_values(|x: &str| x.spec_bytes()).to_set()
}

/// The glob `*`, as bytes.
pub open spec fn glob_bytes() -> Seq<u8> {
    seq![42u8]
}

/// A list parameter after adding the names `add`, unless one of them is the
/// glob: a glob list takes `add` as its values, a value list grows by `add`;
/// a `*` among them makes a value list a glob.
pub open spec fn added(w: WildCardish<Set<Seq<u8>>>, add: Set<Seq<u8>>) -> WildCardish<Set<Seq<u8>>> {
    if add.contains(glob_bytes()) && !(w is Glob) {
        WildCardish::Glob
    } else {
        match w {
            WildCardish::Glob => WildCardish::Value(add),
            WildCardish::Value(s) => WildCardish::Value(s + add),
        }
    }
}

/// A list parameter after setting it to the single name `one`: the glob for
/// `*`, else that name alone.
pub open spec fn set_to(one: Seq<u8>) -> WildCardish<Set<Seq<u8>>> {
    if one == glob_bytes() {
        WildCardish::Glob
    } else {
        WildCardish::Value(set![one])
    }
}

/// A list parameter after adding the single name `one`: the glob for `*`;
/// else a glob list becomes that name alone, and a value list grows by it.
pub open spec fn added_one(w: WildCardish<Set<Seq<u8>>>, one: Seq<u8>) -> WildCardish<Set<Seq<u8>>> {
    if one == glob_bytes() {
        WildCardish::Glob
    } else {
        match w {
            WildCardish::Glob => WildCardish::Value(set![one]),
            WildCardish::Value(s) => WildCardish::Value(s.insert(one)),
        }
    }
}

/// Adds the names of the methods of `m` to `set`.
fn insert_methods(set: &mut ByteSet, m: &[Method])
    ensures
        byte_set_contents(*final(set)) == byte_set_contents(*old(set)) + method_names(m@),
{
    let mut i: usize = 0;
    while i < m.len()
        invariant
            0 <= i <= m.len(),
            byte_set_contents(*set) == byte_set_contents(*old(set)) + method_names(m@.take(i as int)),
        decreases m.len() - i,
    {
        let name = m[i].as_bytes();
        let v = copy_range(name, 0, name.len());
        assert(name@.subrange(0, name@.len() as int) =~= name@);
        set.insert(v);
        proof {
            let f = |x: Method| method_name(x);
            assert(m@.take(i + 1).map_values(f) =~= m@.take(i as int).map_values(f).push(method_name(m@[i as int])));
            m@.take(i as int).map_values(f).lemma_push_to_set_commute(method_name(m@[i as int]));
            assert(byte_set_contents(*set) =~= byte_set_contents(*old(set)) + method_names(m@.take(i + 1)));
        }
        i += 1;
    }
    assert(m@.take(m@.len() as int) =~= m@);
}

/// Adds the bytes of the strings of `h` to `set`.
pub(crate) fn insert_strs(set: &mut ByteSet, h: &[&str])
    ensures
        byte_set_contents(*final(set)) == byte_set_contents(*old(set)) + str_names(h@),
{
    let mut i: usize = 0;
    while i < h.len()
        invariant
            0 <= i <= h.len(),
            byte_set_contents(*set) == byte_set_contents(*old(set)) + str_names(h@.take(i as int)),
        decreases h.len() - i,
    {
        let b = h[i].as_bytes();
        let v = copy_range(b, 0, b.len());
        assert(b@.subrange(0, b@.len() as int) =~= b@);
        set.insert(v);
        proof {
            let f = |x: &str| x.spec_bytes();
            assert(h@.take(i + 1).map_values(f) =~= h@.take(i as int).map_values(f).push(h@[i as int].spec_bytes()));
            h@.take(i as int).map_values(f).lemma_push_to_set_commute(h@[i as int].spec_bytes());
            assert(byte_set_contents(*set) =~= byte_set_contents(*old(set)) + str_names(h@.take(i + 1)));
        }
        i += 1;
    }
    assert(h@.take(h@.len() as int) =~= h@);
}

/// Is one of the strings of `h` the glob `*`?
fn has_glob(h: &[&str]) -> (r: bool)
    ensures
        r == str_names(h@).contains(glob_bytes()),
{
    let star: [u8; 1] = [42u8];
    assert(star@ =~= glob_bytes());
    let mut i: usize = 0;
    while i < h.len()
        invariant
            0 <= i <= h.len(),
            star@ == glob_bytes(),
            forall|k: int| 0 <= k < i ==> h@[k].spec_bytes() != glob_bytes(),
        decreases h.len() - i,
    {
        if eq_bytes(h[i].as_bytes(), star.as_slice()) {
            assert(h@.map_values(|x: &str| x.spec_bytes())[i as int] == glob_bytes());
            return true;
        }
        i += 1;
    }
    proof {
        if str_names(h@).contains(glob_bytes()) {
            let names = h@.map_values(|x: &str| x.spec_bytes());
            let k = choose|k: int| 0 <= k < names.len() && #[trigger] names[k] == glob_bytes();
            assert(h@[k].spec_bytes() == glob_bytes());
        }
    }
    false
}

/// A list parameter after adding the strings of `h` (see `added`).
fn add_strs(w: WildCardish<ByteSet>, h: &[&str]) -> (r: WildCardish<ByteSet>)
    ensures
        glob_view(r) == added(glob_view(w), str_names(h@)),
{
    if has_glob(h) && !w.is_glob() {
        return WildCardish::Glob;
    }
    match w {
        WildCardish::Glob => {
            let mut set = ByteSet::new();
            insert_strs(&mut set, h);
            assert(Set::<Seq<u8>>::empty() + str_names(h@) =~= str_names(h@));
            WildCardish::Value(set)
        },
        WildCardish::Value(set) => {
            let mut set = set;
            insert_strs(&mut set, h);
            WildCardish::Value(set)
        },
    }
}

/// A list parameter after adding the single string `one` (see `added_one`).
fn add_str(w: WildCardish<ByteSet>, one: &str) -> (r: WildCardish<ByteSet>)
    ensures
        glob_view(r) == added_one(glob_view(w), one.spec_bytes()),
{
    let star: [u8; 1] = [42u8];
    assert(star@ =~= glob_bytes());
    if eq_bytes(one.as_bytes(), star.as_slice()) {
        return WildCardish::Glob;
    }
    let mut set = match w {
        WildCardish::Glob => ByteSet::new(),
        WildCardish::Value(set) => set,
    };
    let b = one.as_bytes();
    let v = copy_range(b, 0, b.len());
    assert(b@.subrange(0, b@.len() as int) =~= b@);
    set.insert(v);
    assert(Set::<Seq<u8>>::empty().insert(one.spec_bytes()) =~= set![one.spec_bytes()]);
    WildCardish::Value(set)
}

/// A list parameter set to the single string `one` (see `set_to`).
fn set_str(w: WildCardish<ByteSet>, one: &str) -> (r: WildCardish<ByteSet>)
    ensures
        glob_view(r) == set_to(one.spec_bytes()),
{
    let star: [u8; 1] = [42u8];
    assert(star@ =~= glob_bytes());
    if eq_bytes(one.as_bytes(), star.as_slice()) {
        return WildCardish::Glob;
    }
    let mut set = match w {
        WildCardish::Glob => ByteSet::new(),
        WildCardish::Value(set) => {
            let mut set = set;
            set.clear();
            set
        },
    };
    let b = one.as_bytes();
    let v = copy_range(b, 0, b.len());
    assert(b@.subrange(0, b@.len() as int) =~= b@);
    set.insert(v);
    assert(Set::<Seq<u8>>::empty().insert(one.spec_bytes()) =~= set![one.spec_bytes()]);
    WildCardish::Value(set)
}

// builder methods
impl Cors {
    /// `HEAD`, `GET` and `OPTIONS` allowed, no header allowed or exposed,
    /// any origin, no credentials, no max age.
    pub fn new() -> (r: Self)
        ensures
            r@.methods == WildCardish::Value(set![method_name(Method::Head), method_name(Method::Get), method_name(Method::Options)]),
            r@.headers == WildCardish::Value(Set::<Seq<u8>>::empty()),
            r@.expose == WildCardish::Value(Set::<Seq<u8>>::empty()),
            r@.origins is Glob,
            !r@.credentials,
            r@.max_age is None,
    {
        let mut methods = ByteSet::new();
        let defaults: [Method; 3] = [Method::Head, Method::Get, Method::Options];
        insert_methods(&mut methods, defaults.as_slice());
        proof {
            let f = |x: Method| method_name(x);
            assert(defaults@.map_values(f) =~= seq![method_name(Method::Head), method_name(Method::Get), method_name(Method::Options)]);
            assert(defaults@.map_values(f).to_set() =~= set![method_name(Method::Head), method_name(Method::Get), method_name(Method::Options)]) by {
                assert(defaults@.map_values(f)[0] == method_name(Method::Head));
                assert(defaults@.map_values(f)[1] == method_name(Method::Get));
                assert(defaults@.map_values(f)[2] == method_name(Method::Options));
            }
            assert(Set::<Seq<u8>>::empty() + method_names(defaults@) =~= set![method_name(Method::Head), method_name(Method::Get), method_name(Method::Options)]);
        }
        Cors {
            credentials: false,
            max_age: None,
            methods: WildCardish::Value(methods),
            headers: WildCardish::Value(ByteSet::new()),
            expose: WildCardish::Value(ByteSet::new()),
            origins: WildCardish::Glob,
        }
    }

    /// Allows the methods of `m` besides those allowed (in place of a glob).
    pub fn methods(self, m: &[Method]) -> (r: Self)
        ensures
            r@ == (CorsView {
                methods: WildCardish::Value(match self@.methods {
                    WildCardish::Glob => method_names(m@),
                    WildCardish::Value(s) => s + method_names(m@),
                }),
                ..self@
            }),
    {
        let mut s = self;
        let methods = match s.methods {
            WildCardish::Glob => {
                let mut set = ByteSet::new();
                insert_methods(&mut set, m);
                assert(Set::<Seq<u8>>::empty() + method_names(m@) =~= method_names(m@));
                set
            },
            WildCardish::Value(set) => {
                let mut set = set;
                insert_methods(&mut set, m);
                set
            },
        };
        s.methods = WildCardish::Value(methods);
        s
    }

    /// Allows `method` besides those allowed (in place of a glob).
    pub fn method(self, method: Method) -> (r: Self)
        ensures
            r@ == (CorsView {
                methods: WildCardish::Value(match self@.methods {
                    WildCardish::Glob => set![method_name(method)],
                    WildCardish::Value(s) => s.insert(method_name(method)),
                }),
                ..self@
            }),
    {
        let one: [Method; 1] = [method];
        let r = self.methods(one.as_slice());
        proof {
            let f = |x: Method| method_name(x);
            assert(one@.map_values(f) =~= seq![method_name(method)]);
            assert(one@.map_values(f).to_set() =~= set![method_name(method)]) by {
                assert(one@.map_values(f)[0] == method_name(method));
            }
            if let WildCardish::Value(s) = self@.methods {
                assert(s + set![method_name(method)] =~= s.insert(method_name(method)));
            }
        }
        r
    }

    /// Allows any method.
    pub fn methods_glob(self) -> (r: Self)
        ensures
            r@ == (CorsView { methods: WildCardish::Glob, ..self@ }),
    {
        let mut s = self;
        s.methods = WildCardish::Glob;
        s
    }

    /// Allows the headers of `h` (see `added`).
    pub fn headers(self, h: &[&str]) -> (r: Self)
        ensures
            r@ == (CorsView { headers: added(self@.headers, str_names(h@)), ..self@ }),
    {
        let Cors { methods, headers, expose, origins, credentials, max_age } = self;
        let headers = add_strs(headers, h);
        Cors { methods, headers, expose, origins, credentials, max_age }
    }

    /// Allows only the header `header` (any header for `*`).
    pub fn header(self, header: &str) -> (r: Self)
        ensures
            r@ == (CorsView { headers: set_to(header.spec_bytes()), ..self@ }),
    {
        let Cors { methods, headers, expose, origins, credentials, max_age } = self;
        let headers = set_str(headers, header);
        Cors { methods, headers, expose, origins, credentials, max_age }
    }

    /// the plural form of expose: adds the headers of `h` to those exposed
    /// to client scripts (see `added`)
    pub fn exposes(self, h: &[&str]) -> (r: Self)
        ensures
            r@ == (CorsView { expose: added(self@.expose, str_names(h@)), ..self@ }),
    {
        let Cors { methods, headers, expose, origins, credentials, max_age } = self;
        let expose = add_strs(expose, h);
        Cors { methods, headers, expose, origins, credentials, max_age }
    }

    /// adds a single header to those exposed to client scripts (any header
    /// for `*`; see `added_one`)
    pub fn expose(self, header: &str) -> (r: Self)
        ensures
            r@ == (CorsView { expose: added_one(self@.expose, header.spec_bytes()), ..self@ }),
    {
        let Cors { methods, headers, expose, origins, credentials, max_age } = self;
        let expose = add_str(expose, header);
        Cors { methods, headers, expose, origins, credentials, max_age }
    }

    /// Allows the origins of `ori` (see `added`).
    pub fn origins(self, ori: &[&str]) -> (r: Self)
        ensures
            r@ == (CorsView { origins: added(self@.origins, str_names(ori@)), ..self@ }),
    {
        let Cors { methods, headers, expose, origins, credentials, max_age } = self;
        let origins = add_strs(origins, ori);
        Cors { methods, headers, expose, origins, credentials, max_age }
    }

    /// Allows only the origin `origin` (any origin for `*`).
    pub fn origin(self, origin: &str) -> (r: Self)
        ensures
            r@ == (CorsView { origins: set_to(origin.spec_bytes()), ..self@ }),
    {
        let Cors { methods, headers, expose, origins, credentials, max_age } = self;
        let origins = set_str(origins, origin);
        Cors { methods, headers, expose, origins, credentials, max_age }
    }

    pub fn credentials(self, creds: bool) -> (r: Self)
        ensures
            r@ == (CorsView { credentials: creds, ..self@ }),
    {
        let mut s = self;
        s.credentials = creds;
        s
    }

    pub fn max_age(self, max_age: i64) -> (r: Self)
        ensures
            r@ == (CorsView { max_age: Some(max_age), ..self@ }),
    {
        let mut s = self;
        s.max_age = Some(max_age);
        s
    }
}

/// Why a cross origin request is not granted.
#[derive(Debug, Clone, Copy, PartialEq, Eq, Structural)]
pub enum Error {
    BadHeaderValue,
    ForbiddenOrigin,
    MissingRequestOrigin,
    IoFailure,
}

/// Is the header `header` in `headers`?
pub fn allows_header(headers: &ByteSet, header: &str) -> (r: bool)
    ensures
        r == byte_set_contents(*headers).contains(header.spec_bytes()),
{
    headers.contains(header.as_bytes())
}

/// Is the origin `origin` in `origins`?
pub fn allows_origin(origins: &ByteSet, origin: &str) -> (r: bool)
    ensures
        r == byte_set_contents(*origins).contains(origin.spec_bytes()),
{
    origins.contains(origin.as_bytes())
}

/// Does a list parameter take `v`?
pub open spec fn glob_allows(w: WildCardish<Set<Seq<u8>>>, v: Seq<u8>) -> bool {
    match w {
        WildCardish::Glob => true,
        WildCardish::Value(s) => s.contains(v),
    }
}

// methods for checking request cors params against this struct's
impl Cors {
    /// checks if the passed header is allowed by these cors params
    pub fn allows_header(&self, header: &str) -> (r: bool)
        ensures
            r == glob_allows(self@.headers, header.spec_bytes()),
    {
        match &self.headers {
            WildCardish::Glob => true,
            WildCardish::Value(headers) => headers.contains(header.as_bytes()),
        }
    }

    pub fn allows_method(&self, method: &str) -> (r: bool)
        ensures
            r == glob_allows(self@.methods, method.spec_bytes()),
    {
        match &self.methods {
            WildCardish::Glob => true,
            WildCardish::Value(methods) => methods.contains(method.as_bytes()),
        }
    }

    pub fn allows_origin(&self, origin: &str) -> (r: bool)
        ensures
            r == glob_allows(self@.origins, origin.spec_bytes()),
    {
        match &self.origins {
            WildCardish::Glob => true,
            WildCardish::Value(origins) => origins.contains(origin.as_bytes()),
        }
    }
}

/// Each item of `items` followed by `sep`.
pub open spec fn each_followed(items: Seq<Seq<u8>>, sep: Seq<u8>) -> Seq<u8>
    decreases items.len(),
{
    if items.len() == 0 {
        seq![]
    } else {
        each_followed(items.drop_last(), sep) + items.last() + sep
    }
}

/// The items of `items` with `sep` between each two.
pub open spec fn joined(items: Seq<Seq<u8>>, sep: Seq<u8>) -> Seq<u8>
    decreases items.len(),
{
    if items.len() == 0 {
        seq![]
    } else if items.len() == 1 {
        items[0]
    } else {
        joined(items.drop_last(), sep) + sep + items.last()
    }
}

/// `items` lists the byte strings of `s`, each once, in some order.
pub open spec fn lists(items: Seq<Seq<u8>>, s: Set<Seq<u8>>) -> bool {
    items.no_duplicates() && items.to_set() == s
}

/// The bytes `", "`.
pub open spec fn comma_space() -> Seq<u8> {
    seq![44u8, 32]
}

/// The header names that the request header value `value` asks for and
/// `allowed` holds: its comma separated parts, trimmed, in order.
pub open spec fn requested_allowed(value: Seq<u8>, allowed: Set<Seq<u8>>) -> Seq<Seq<u8>> {
    split_on(value, 44).map_values(|p: Seq<u8>| trim(p)).filter(|h: Seq<u8>| allowed.contains(h))
}

/// Appends each item of `items` followed by `, `.
fn push_each_followed(buffer: &mut Vec<u8>, items: &Vec<Vec<u8>>)
    ensures
        final(buffer)@ == old(buffer)@ + each_followed(bytes_views(items@), comma_space()),
{
    let ghost v = bytes_views(items@);
    let mut i: usize = 0;
    while i < items.len()
        invariant
            0 <= i <= items.len(),
            v == bytes_views(items@),
            buffer@ == old(buffer)@ + each_followed(v.take(i as int), comma_space()),
        decreases items.len() - i,
    {
        push_all(buffer, items[i].as_slice());
        buffer.push(44u8);
        buffer.push(32u8);
        proof {
            assert(v.take(i + 1).drop_last() =~= v.take(i as int));
            assert(v[i as int] == items@[i as int]@);
            assert(buffer@ =~= old(buffer)@ + each_followed(v.take(i + 1), comma_space()));
        }
        i += 1;
    }
    assert(v.take(items@.len() as int) =~= v);
}

/// Appends the items of `items` with `, ` between each two.
fn push_joined(buffer: &mut Vec<u8>, items: &Vec<Vec<u8>>)
    ensures
        final(buffer)@ == old(buffer)@ + joined(bytes_views(items@), comma_space()),
{
    let ghost v = bytes_views(items@);
    let mut i: usize = 0;
    while i < items.len()
        invariant
            0 <= i <= items.len(),
            v == bytes_views(items@),
            buffer@ == old(buffer)@ + joined(v.take(i as int), comma_space()),
        decreases items.len() - i,
    {
        if i > 0 {
            buffer.push(44u8);
            buffer.push(32u8);
        }
        push_all(buffer, items[i].as_slice());
        proof {
            assert(v.take(i + 1).drop_last() =~= v.take(i as int));
            assert(v[i as int] == items@[i as int]@);
            if i == 0 {
                assert(v.take(1)[0] == v[0]);
            }
            assert(buffer@ =~= old(buffer)@ + joined(v.take(i + 1), comma_space()));
        }
        i += 1;
    }
    assert(v.take(items@.len() as int) =~= v);
}

/// The trimmed comma separated parts of `value` that `allowed` holds.
fn requested_headers(value: &[u8], allowed: &ByteSet) -> (r: Vec<Vec<u8>>)
    ensures
        bytes_views(r@) == requested_allowed(value@, byte_set_contents(*allowed)),
{
    let parts = split_bytes(value, 44);
    let ghost ps = parts_view(parts@);
    let ghost keep = |h: Seq<u8>| byte_set_contents(*allowed).contains(h);
    let ghost tr = |p: Seq<u8>| trim(p);
    let mut out: Vec<Vec<u8>> = Vec::new();
    let mut i: usize = 0;
    assert(bytes_views(out@) =~= ps.take(0).map_values(tr).filter(keep));
    while i < parts.len()
        invariant
            0 <= i <= parts.len(),
            ps == parts_view(parts@),
            ps == split_on(value@, 44),
            keep == (|h: Seq<u8>| byte_set_contents(*allowed).contains(h)),
            tr == (|p: Seq<u8>| trim(p)),
            bytes_views(out@) == ps.take(i as int).map_values(tr).filter(keep),
        decreases parts.len() - i,
    {
        let (a, b) = trim_bounds(parts[i].as_slice());
        let part = copy_range(parts[i].as_slice(), a, b);
        let ghost before = out@;
        assert(ps[i as int] == parts@[i as int]@);
        proof {
            assert(ps.take(i + 1).map_values(tr) =~= ps.take(i as int).map_values(tr).push(trim(ps[i as int])));
            ps.take(i as int).map_values(tr).lemma_filter_push(trim(ps[i as int]), keep);
        }
        if allowed.contains(part.as_slice()) {
            out.push(part);
            assert(bytes_views(out@) =~= bytes_views(before).push(trim(ps[i as int])));
        }
        i += 1;
    }
    assert(ps.take(parts@.len() as int) =~= ps);
    out
}

/// What `allow_methods` appends for the allowed methods `m`: for a glob the
/// line `access-control-allow-methods: *`; nothing when none is allowed;
/// otherwise the line with each method in `order` followed by `, `.
pub open spec fn methods_line(m: WildCardish<Set<Seq<u8>>>, order: Seq<Seq<u8>>) -> Seq<u8> {
    match m {
        WildCardish::Glob => "access-control-allow-methods: *\n".spec_bytes(),
        WildCardish::Value(s) => if s.len() == 0 {
            seq![]
        } else {
            "access-control-allow-methods: ".spec_bytes() + each_followed(order, comma_space()) + seq![10u8]
        },
    }
}

/// The order in which `allow_methods` may list the allowed methods `m`.
pub open spec fn methods_order_ok(m: WildCardish<Set<Seq<u8>>>, order: Seq<Seq<u8>>) -> bool {
    match m {
        WildCardish::Glob => true,
        WildCardish::Value(s) => lists(order, s),
    }
}

/// What `allow_origin` gives for the request origin `value`: for a glob the
/// line `access-control-allow-origin: *`; else the origin must be UTF-8 and
/// allowed, and its line is written.
pub open spec fn origin_outcome(o: WildCardish<Set<Seq<u8>>>, value: Seq<u8>) -> Result<Seq<u8>, Error> {
    match o {
        WildCardish::Glob => Ok("access-control-allow-origin: *\n".spec_bytes()),
        WildCardish::Value(s) => if !valid_utf8(value) {
            Err(Error::BadHeaderValue)
        } else if !s.contains(value) {
            Err(Error::ForbiddenOrigin)
        } else {
            Ok("access-control-allow-origin: ".spec_bytes() + value + seq![10u8])
        },
    }
}

/// The allowed origin line names the origin that asked, and only an
/// allowed one: under a set of origins and for a UTF-8 origin `v`,
/// `allow_origin` writes `access-control-allow-origin: v` exactly when the
/// set holds `v` (as `allows_origin` says), and is refused as a forbidden
/// origin exactly when it does not; under a glob it writes `*`.
pub proof fn law_allow_origin_only_allowed(s: Set<Seq<u8>>, v: Seq<u8>)
    ensures
        origin_outcome(WildCardish::Glob, v) == Ok::<Seq<u8>, Error>("access-control-allow-origin: *\n".spec_bytes()),
        valid_utf8(v) ==> (s.contains(v) <==> origin_outcome(WildCardish::Value(s), v) == Ok::<Seq<u8>, Error>(
            "access-control-allow-origin: ".spec_bytes() + v + seq![10u8],
        )),
        valid_utf8(v) ==> (!s.contains(v) <==> origin_outcome(WildCardish::Value(s), v) == Err::<Seq<u8>, Error>(
            Error::ForbiddenOrigin,
        )),
        valid_utf8(v) ==> (origin_outcome(WildCardish::Value(s), v) is Ok <==> glob_allows(WildCardish::Value(s), v)),
{
}

/// What `allow_headers` gives for the request header value `value`: for a
/// glob the line `access-control-allow-headers: *`; nothing when no header is
/// allowed; else the value must be UTF-8, and the requested headers that are
/// allowed are written in their order, when there are any.
pub open spec fn headers_outcome(h: WildCardish<Set<Seq<u8>>>, value: Seq<u8>) -> Result<Seq<u8>, Error> {
    match h {
        WildCardish::Glob => Ok("access-control-allow-headers: *\n".spec_bytes()),
        WildCardish::Value(s) => if s.len() == 0 {
            Ok(seq![])
        } else if !valid_utf8(value) {
            Err(Error::BadHeaderValue)
        } else if requested_allowed(value, s).len() == 0 {
            Ok(seq![])
        } else {
            Ok("access-control-allow-headers: ".spec_bytes() + joined(requested_allowed(value, s), comma_space()) + seq![
                10u8,
            ])
        },
    }
}

/// What `expose_headers` appends for the exposed headers `e` listed in
/// `order` (no line end follows the list).
pub open spec fn expose_line(e: WildCardish<Set<Seq<u8>>>, order: Seq<Seq<u8>>) -> Seq<u8> {
    match e {
        WildCardish::Glob => "access-control-expose-headers: *\n".spec_bytes(),
        WildCardish::Value(s) => if s.len() == 0 {
            seq![]
        } else {
            "access-control-expose-headers: ".spec_bytes() + each_followed(order, comma_space())
        },
    }
}

/// The credentials line, when credentials are allowed.
pub open spec fn credentials_line(c: bool) -> Seq<u8> {
    if c {
        "access-control-allow-credentials: true\n".spec_bytes()
    } else {
        seq![]
    }
}

/// The max age line, when there is a max age.
pub open spec fn max_age_line(m: Option<i64>) -> Seq<u8> {
    match m {
        Some(n) => "access-control-max-age: ".spec_bytes() + signed_decimal(n as int) + seq![10u8],
        None => seq![],
    }
}

/// A set listed in some order is empty exactly when the list is.
proof fn lemma_lists_len(items: Seq<Seq<u8>>, s: Set<Seq<u8>>)
    requires
        lists(items, s),
    ensures
        s.finite(),
        s.len() == items.len(),
{
    items.unique_seq_to_set();
}

// methods for writing cors headers to the buffer
impl Cors {
    /// Writes the allowed origin line for the request origin `value` (see
    /// `origin_outcome`); nothing is written on an error.
    pub fn allow_origin(&self, value: &[u8], buffer: &mut Vec<u8>) -> (r: Result<(), Error>)
        ensures
            match origin_outcome(self@.origins, value@) {
                Ok(line) => r is Ok && final(buffer)@ == old(buffer)@ + line,
                Err(e) => r == Err::<(), Error>(e) && final(buffer)@ == old(buffer)@,
            },
    {
        match &self.origins {
            WildCardish::Glob => {
                push_all(buffer, "access-control-allow-origin: *\n".as_bytes());
                Ok(())
            },
            WildCardish::Value(origins) => {
                if !is_utf8(value) {
                    return Err(Error::BadHeaderValue);
                }
                if !origins.contains(value) {
                    return Err(Error::ForbiddenOrigin);
                }
                push_all(buffer, "access-control-allow-origin: ".as_bytes());
                push_all(buffer, value);
                buffer.push(10u8);
                assert(buffer@ =~= old(buffer)@ + ("access-control-allow-origin: ".spec_bytes() + value@ + seq![10u8]));
                Ok(())
            },
        }
    }

    /// Writes the allowed methods line (see `methods_line`); the methods come
    /// in the order in which the set holds them.
    pub fn allow_methods(&self, _value: &[u8], buffer: &mut Vec<u8>) -> (r: Result<(), Error>)
        ensures
            r is Ok,
            exists|order: Seq<Seq<u8>>|
                methods_order_ok(self@.methods, order) && final(buffer)@ == old(buffer)@ + methods_line(self@.methods, order),
    {
        match &self.methods {
            WildCardish::Glob => {
                push_all(buffer, "access-control-allow-methods: *\n".as_bytes());
                assert(methods_order_ok(self@.methods, seq![]));
                Ok(())
            },
            WildCardish::Value(methods) => {
                let items = methods.items();
                proof {
                    lemma_lists_len(bytes_views(items@), byte_set_contents(*methods));
                }
                if methods.len() == 0 {
                    assert(methods_order_ok(self@.methods, bytes_views(items@)));
                    assert(old(buffer)@ + methods_line(self@.methods, bytes_views(items@)) =~= old(buffer)@);
                    return Ok(());
                }
                push_all(buffer, "access-control-allow-methods: ".as_bytes());
                push_each_followed(buffer, &items);
                buffer.push(10u8);
                assert(methods_order_ok(self@.methods, bytes_views(items@)));
                assert(buffer@ =~= old(buffer)@ + methods_line(self@.methods, bytes_views(items@)));
                Ok(())
            },
        }
    }

    /// compares these params with the requested cors params
    /// writes the response cors headers (see `headers_outcome`); nothing is
    /// written on an error
    pub fn allow_headers(&self, value: &[u8], buffer: &mut Vec<u8>) -> (r: Result<(), Error>)
        ensures
            match headers_outcome(self@.headers, value@) {
                Ok(line) => r is Ok && final(buffer)@ == old(buffer)@ + line,
                Err(e) => r == Err::<(), Error>(e) && final(buffer)@ == old(buffer)@,
            },
    {
        match &self.headers {
            WildCardish::Glob => {
                push_all(buffer, "access-control-allow-headers: *\n".as_bytes());
                Ok(())
            },
            WildCardish::Value(headers) => {
                if headers.len() == 0 {
                    assert(old(buffer)@ + seq![] =~= old(buffer)@);
                    return Ok(());
                }
                if !is_utf8(value) {
                    return Err(Error::BadHeaderValue);
                }
                let wanted = requested_headers(value, headers);
                if wanted.len() == 0 {
                    assert(old(buffer)@ + seq![] =~= old(buffer)@);
                    return Ok(());
                }
                push_all(buffer, "access-control-allow-headers: ".as_bytes());
                push_joined(buffer, &wanted);
                buffer.push(10u8);
                Ok(())
            },
        }
    }

    /// Writes the exposed headers line (see `expose_line`); the headers come
    /// in the order in which the set holds them.
    pub fn expose_headers(&self, buffer: &mut Vec<u8>) -> (r: Result<(), Error>)
        ensures
            r is Ok,
            exists|order: Seq<Seq<u8>>|
                methods_order_ok(self@.expose, order) && final(buffer)@ == old(buffer)@ + expose_line(self@.expose, order),
    {
        match &self.expose {
            WildCardish::Glob => {
                push_all(buffer, "access-control-expose-headers: *\n".as_bytes());
                assert(methods_order_ok(self@.expose, seq![]));
                Ok(())
            },
            WildCardish::Value(expose) => {
                let items = expose.items();
                proof {
                    lemma_lists_len(bytes_views(items@), byte_set_contents(*expose));
                }
                if expose.len() == 0 {
                    assert(methods_order_ok(self@.expose, bytes_views(items@)));
                    assert(old(buffer)@ + expose_line(self@.expose, bytes_views(items@)) =~= old(buffer)@);
                    return Ok(());
                }
                push_all(buffer, "access-control-expose-headers: ".as_bytes());
                push_each_followed(buffer, &items);
                assert(methods_order_ok(self@.expose, bytes_views(items@)));
                assert(buffer@ =~= old(buffer)@ + expose_line(self@.expose, bytes_views(items@)));
                Ok(())
            },
        }
    }

    /// Writes the credentials line when credentials are allowed.
    pub fn allow_credentials(&self, buffer: &mut Vec<u8>) -> (r: Result<(), Error>)
        ensures
            r is Ok,
            final(buffer)@ == old(buffer)@ + credentials_line(self@.credentials),
    {
        if self.credentials {
            push_all(buffer, "access-control-allow-credentials: true\n".as_bytes());
        } else {
            assert(old(buffer)@ + seq![] =~= old(buffer)@);
        }
        Ok(())
    }

    /// Writes the max age line when there is a max age.
    pub fn allow_max_age(&self, buffer: &mut Vec<u8>) -> (r: Result<(), Error>)
        ensures
            r is Ok,
            final(buffer)@ == old(buffer)@ + max_age_line(self@.max_age),
    {
        match self.max_age {
            None => {
                assert(old(buffer)@ + seq![] =~= old(buffer)@);
            },
            Some(max_age) => {
                push_all(buffer, "access-control-max-age: ".as_bytes());
                push_signed_decimal(buffer, max_age);
                buffer.push(10u8);
                assert(buffer@ =~= old(buffer)@ + max_age_line(self@.max_age));
            },
        }
        Ok(())
    }
}

/// What `cors` gives for the request headers `hs`, with the allowed methods
/// listed in `order`: the result and the bytes written. Without an `origin`
/// header nothing is written; then come the origin line, the methods line
/// when the request names a method, the headers line when it names headers
/// (an error there ends the writing), the credentials line and the max age
/// line.
pub open spec fn cors_outcome(c: CorsView, hs: Seq<HeaderView>, order: Seq<Seq<u8>>) -> (Result<(), Error>, Seq<u8>) {
    match field_value(hs, "origin".spec_bytes()) {
        None => (Ok(()), seq![]),
        Some(v) => match origin_outcome(c.origins, v) {
            Err(e) => (Err(e), seq![]),
            Ok(o) => {
                let m = match field_value(hs, "access-control-request-method".spec_bytes()) {
                    Some(_) => methods_line(c.methods, order),
                    None => seq![],
                };
                let tail = credentials_line(c.credentials) + max_age_line(c.max_age);
                match field_value(hs, "access-control-request-headers".spec_bytes()) {
                    Some(hv) => match headers_outcome(c.headers, hv) {
                        Err(e) => (Err(e), o + m),
                        Ok(h) => (Ok(()), o + m + h + tail),
                    },
                    None => (Ok(()), o + m + tail),
                }
            },
        },
    }
}

/// What `cors_with_cookies` gives for the request headers `hs`: like
/// `cors_outcome`, but the methods and headers lines are always written, both
/// from the `origin` value.
pub open spec fn cors_with_cookies_outcome(c: CorsView, hs: Seq<HeaderView>, order: Seq<Seq<u8>>) -> (Result<(), Error>, Seq<u8>) {
    match field_value(hs, "origin".spec_bytes()) {
        None => (Ok(()), seq![]),
        Some(v) => match origin_outcome(c.origins, v) {
            Err(e) => (Err(e), seq![]),
            Ok(o) => {
                let m = methods_line(c.methods, order);
                match headers_outcome(c.headers, v) {
                    Err(e) => (Err(e), o + m),
                    Ok(h) => (Ok(()), o + m + h + credentials_line(c.credentials) + max_age_line(c.max_age)),
                }
            },
        },
    }
}

/// `cors` lists the allowed methods for the request headers `hs`: the
/// origin is granted and a method is requested.
pub open spec fn cors_lists_methods(c: CorsView, hs: Seq<HeaderView>) -> bool {
    &&& field_value(hs, "origin".spec_bytes()) matches Some(v)
    &&& origin_outcome(c.origins, v) is Ok
    &&& field_value(hs, "access-control-request-method".spec_bytes()) is Some
}

/// `cors_with_cookies` lists the allowed methods for the request headers
/// `hs`: the origin is granted.
pub open spec fn cookies_lists_methods(c: CorsView, hs: Seq<HeaderView>) -> bool {
    &&& field_value(hs, "origin".spec_bytes()) matches Some(v)
    &&& origin_outcome(c.origins, v) is Ok
}

impl Cors {
    /// Writes the credentials line and the max age line.
    fn allow_tail(&self, buffer: &mut Vec<u8>)
        ensures
            final(buffer)@ == old(buffer)@ + (credentials_line(self@.credentials) + max_age_line(self@.max_age)),
    {
        let _ = self.allow_credentials(buffer);
        let _ = self.allow_max_age(buffer);
        assert(buffer@ =~= old(buffer)@ + (credentials_line(self@.credentials) + max_age_line(self@.max_age)));
    }

    /// Writes the cross origin response headers for a request with headers
    /// `headers` (see `cors_outcome`); the methods come in the order in which
    /// the set holds them.
    #[verifier::rlimit(50)]
    pub fn cors(&self, headers: &[Header], buffer: &mut Vec<u8>) -> (r: Result<(), Error>)
        ensures
            exists|order: Seq<Seq<u8>>|
                (cors_lists_methods(self@, headers_view(headers@)) ==> methods_order_ok(self@.methods, order))
                && r == (#[trigger] cors_outcome(self@, headers_view(headers@), order)).0
                && final(buffer)@ == old(buffer)@ + cors_outcome(self@, headers_view(headers@), order).1,
    {
        let ghost hs = headers_view(headers@);
        let ghost c = self@;
        let ghost b0 = buffer@;
        let value = match header_value(headers, "origin".as_bytes()) {
            None => {
                assert(b0 + seq![] =~= b0);
                assert(!cors_lists_methods(c, hs) && cors_outcome(c, hs, seq![]) == (Ok::<(), Error>(()), Seq::<u8>::empty()));
                return Ok(());
            },
            Some(v) => v,
        };
        match self.allow_origin(value, buffer) {
            Err(e) => {
                assert(b0 + seq![] =~= b0);
                assert(!cors_lists_methods(c, hs) && cors_outcome(c, hs, seq![]) == (Err::<(), Error>(e), Seq::<u8>::empty()));
                return Err(e);
            },
            Ok(()) => {},
        }
        let ghost o = origin_outcome(c.origins, value@)->Ok_0;
        let ghost b1 = buffer@;
        assert(b1 == b0 + o);
        let ghost mut order: Seq<Seq<u8>> = seq![];
        let ghost mut m: Seq<u8> = seq![];
        match header_value(headers, "access-control-request-method".as_bytes()) {
            Some(v) => {
                let _ = self.allow_methods(v, buffer);
                proof {
                    order = choose|order: Seq<Seq<u8>>|
                        methods_order_ok(c.methods, order) && buffer@ == b1 + methods_line(c.methods, order);
                    m = methods_line(c.methods, order);
                }
            },
            None => {
                assert(b1 + seq![] =~= b1);
            },
        }
        let ghost b2 = buffer@;
        assert(b2 == b0 + o + m);
        assert(cors_lists_methods(c, hs) ==> methods_order_ok(c.methods, order));
        let ghost tail = credentials_line(c.credentials) + max_age_line(c.max_age);
        match header_value(headers, "access-control-request-headers".as_bytes()) {
            Some(v) => {
                match self.allow_headers(v, buffer) {
                    Err(e) => {
                        assert(cors_outcome(c, hs, order) == (Err::<(), Error>(e), o + m));
                        return Err(e);
                    },
                    Ok(()) => {},
                }
                let ghost h = headers_outcome(c.headers, v@)->Ok_0;
                self.allow_tail(buffer);
                assert(buffer@ =~= b0 + (o + m + h + tail));
                assert(cors_outcome(c, hs, order) == (Ok::<(), Error>(()), o + m + h + tail));
            },
            None => {
                self.allow_tail(buffer);
                assert(buffer@ =~= b0 + (o + m + tail));
                assert(cors_outcome(c, hs, order) == (Ok::<(), Error>(()), o + m + tail));
            },
        }
        Ok(())
    }

    /// Writes the cross origin response headers for a request with headers
    /// `headers`, reading the allowed methods and headers from the `origin`
    /// value (see `cors_with_cookies_outcome`).
    pub fn cors_with_cookies(&self, headers: &[Header], buffer: &mut Vec<u8>) -> (r: Result<(), Error>)
        ensures
            exists|order: Seq<Seq<u8>>|
                (cookies_lists_methods(self@, headers_view(headers@)) ==> methods_order_ok(self@.methods, order))
                && r == (#[trigger] cors_with_cookies_outcome(self@, headers_view(headers@), order)).0
                && final(buffer)@ == old(buffer)@ + cors_with_cookies_outcome(self@, headers_view(headers@), order).1,
    {
        let ghost hs = headers_view(headers@);
        let ghost c = self@;
        let ghost b0 = buffer@;
        let value = match header_value(headers, "origin".as_bytes()) {
            None => {
                assert(b0 + seq![] =~= b0);
                assert(!cookies_lists_methods(c, hs) && cors_with_cookies_outcome(c, hs, seq![]) == (Ok::<(), Error>(()), Seq::<u8>::empty()));
                return Ok(());
            },
            Some(v) => v,
        };
        match self.allow_origin(value, buffer) {
            Err(e) => {
                assert(b0 + seq![] =~= b0);
                assert(!cookies_lists_methods(c, hs) && cors_with_cookies_outcome(c, hs, seq![]) == (Err::<(), Error>(e), Seq::<u8>::empty()));
                return Err(e);
            },
            Ok(()) => {},
        }
        let ghost o = origin_outcome(c.origins, value@)->Ok_0;
        let ghost b1 = buffer@;
        let _ = self.allow_methods(value, buffer);
        let ghost order = choose|order: Seq<Seq<u8>>|
            methods_order_ok(c.methods, order) && buffer@ == b1 + methods_line(c.methods, order);
        let ghost m = methods_line(c.methods, order);
        assert(buffer@ == b0 + o + m);
        match self.allow_headers(value, buffer) {
            Err(e) => {
                assert(cors_with_cookies_outcome(c, hs, order) == (Err::<(), Error>(e), o + m));
                return Err(e);
            },
            Ok(()) => {},
        }
        let ghost h = headers_outcome(c.headers, value@)->Ok_0;
        let ghost tail = credentials_line(c.credentials) + max_age_line(c.max_age);
        let _ = self.allow_credentials(buffer);
        let _ = self.allow_max_age(buffer);
        assert(buffer@ =~= b0 + (o + m + h + tail));
        assert(cors_with_cookies_outcome(c, hs, order) == (Ok::<(), Error>(()), o + m + h + tail));
        Ok(())
    }
}

} // verus!
