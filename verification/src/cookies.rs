//! Cookies as a server sets them: a key, a value and attributes, and the
//! `Set-Cookie` text that carries them.
use vstd::prelude::*;
use vstd::string::{StringExecFns, StringSliceAdditionalSpecFns};
use crate::decimal::{append_decimal, decimal_chars};
use crate::status::{ClientError, ErrorStatus, ServerError};
use crate::bytes::eq_bytes;
use crate::time_span::TimeSpan;
use vstd::utf8::{decode_utf8, encode_utf8, valid_utf8};

verus! {

/// To which requests a cookie is sent.
#[derive(Debug, Clone, Copy, PartialEq, Eq, Hash, Structural)]
pub enum SameSite {
    /// only send this cookie on requests made to the same site that defined it
    Strict,
    /// same as strict but also on top level navigation with a safe method
    Lax,
    /// the cookie is sent with both same site and cross site requests
    Unrestricted,
}

impl Default for SameSite {
    fn default() -> (r: Self)
        ensures
            r == SameSite::Unrestricted,
    {
        SameSite::Unrestricted
    }
}

impl SameSite {
    /// The name of the value, as the attribute writes it.
    pub open spec fn spec_name(self) -> Seq<char> {
        match self {
            SameSite::Strict => "Strict"@,
            SameSite::Lax => "Lax"@,
            SameSite::Unrestricted => "None"@,
        }
    }

    pub fn as_str(&self) -> (r: &'static str)
        ensures
            r@ == self.spec_name(),
    {
        match self {
            SameSite::Strict => "Strict",
            SameSite::Lax => "Lax",
            SameSite::Unrestricted => "None",
        }
    }

    /// The value with number `val`: 0 is `None`, 1 `Strict`, 2 `Lax`; other
    /// numbers are not implemented.
    pub fn try_from(val: u8) -> (r: Result<SameSite, ErrorStatus>)
        ensures
            val == 0 ==> r == Ok::<SameSite, ErrorStatus>(SameSite::Unrestricted),
            val == 1 ==> r == Ok::<SameSite, ErrorStatus>(SameSite::Strict),
            val == 2 ==> r == Ok::<SameSite, ErrorStatus>(SameSite::Lax),
            val > 2 ==> r == Err::<SameSite, ErrorStatus>(ErrorStatus::Server(ServerError::NotImplemented)),
    {
        match val {
            0 => Ok(SameSite::Unrestricted),
            1 => Ok(SameSite::Strict),
            2 => Ok(SameSite::Lax),
            _ => Err(ErrorStatus::Server(ServerError::NotImplemented)),
        }
    }

    /// The value named by the text `s`: `Strict`, `Lax` or `None`; other
    /// text is not implemented.
    pub open spec fn spec_from_str(s: Seq<char>) -> Result<SameSite, ErrorStatus> {
        if s == "Strict"@ {
            Ok(SameSite::Strict)
        } else if s == "Lax"@ {
            Ok(SameSite::Lax)
        } else if s == "None"@ {
            Ok(SameSite::Unrestricted)
        } else {
            Err(ErrorStatus::Server(ServerError::NotImplemented))
        }
    }

    /// The name that the attribute writes for a value reads back as that
    /// value.
    pub proof fn law_name_round_trip(ss: SameSite)
        ensures
            SameSite::spec_from_str(ss.spec_name()) == Ok::<SameSite, ErrorStatus>(ss),
    {
        reveal_strlit("Strict");
        reveal_strlit("Lax");
        reveal_strlit("None");
        assert("Strict"@.len() == 6 && "Lax"@.len() == 3 && "None"@.len() == 4);
        assert("Strict"@ != "None"@);
    }

    /// Reads a value by its exact name; other text is not implemented.
    pub fn from_str(s: &str) -> (r: Result<SameSite, ErrorStatus>)
        ensures
            r == SameSite::spec_from_str(s@),
            s@ == "Strict"@ ==> r == Ok::<SameSite, ErrorStatus>(SameSite::Strict),
            s@ == "Lax"@ ==> r == Ok::<SameSite, ErrorStatus>(SameSite::Lax),
            s@ == "None"@ ==> r == Ok::<SameSite, ErrorStatus>(SameSite::Unrestricted),
            s@ != "Strict"@ && s@ != "Lax"@ && s@ != "None"@ ==> r == Err::<SameSite, ErrorStatus>(
                ErrorStatus::Server(ServerError::NotImplemented),
            ),
    {
        proof {
            reveal_strlit("Strict");
            reveal_strlit("Lax");
            reveal_strlit("None");
            assert("Strict"@.len() == 6 && "Lax"@.len() == 3 && "None"@.len() == 4);
        }
        if crate::bytes::str_eq(s, "Strict") {
            Ok(SameSite::Strict)
        } else if crate::bytes::str_eq(s, "Lax") {
            Ok(SameSite::Lax)
        } else if crate::bytes::str_eq(s, "None") {
            Ok(SameSite::Unrestricted)
        } else {
            Err(ErrorStatus::Server(ServerError::NotImplemented))
        }
    }
}

/// A cookie: its key and value and the attributes set on it. The expiry
/// is held as the text `chrono` displays for it, the maximum age in whole
/// seconds.
#[derive(Debug, Clone, PartialEq, Eq, Hash)]
pub struct Cookie {
    expires: Option<String>,
    max_age: Option<i64>,
    http_only: bool,
    partitioned: bool,
    secure: bool,
    path: Option<String>,
    domain: Option<String>,
    same_site: Option<SameSite>,
    key: String,
    val: String,
}

/// A cookie with its texts as character sequences.
pub struct CookieView {
    pub expires: Option<Seq<char>>,
    pub max_age: Option<i64>,
    pub http_only: bool,
    pub partitioned: bool,
    pub secure: bool,
    pub path: Option<Seq<char>>,
    pub domain: Option<Seq<char>>,
    pub same_site: Option<SameSite>,
    pub key: Seq<char>,
    pub val: Seq<char>,
}

/// The view of an optional text.
pub open spec fn opt_text(o: Option<String>) -> Option<Seq<char>> {
    match o {
        Some(s) => Some(s@),
        None => None,
    }
}

impl View for Cookie {
    type V = CookieView;

    closed spec fn view(&self) -> CookieView {
        CookieView {
            expires: opt_text(self.expires),
            max_age: self.max_age,
            http_only: self.http_only,
            partitioned: self.partitioned,
            secure: self.secure,
            path: opt_text(self.path),
            domain: opt_text(self.domain),
            same_site: self.same_site,
            key: self.key@,
            val: self.val@,
        }
    }
}

/// The `Max-Age` part of the `Set-Cookie` text.
pub open spec fn max_age_part(c: CookieView) -> Seq<char> {
    match c.max_age {
        Some(s) => "; Max-Age="@ + decimal_chars(s as int) + " "@,
        None => Seq::empty(),
    }
}

/// The `Expires` part of the `Set-Cookie` text.
pub open spec fn expires_part(c: CookieView) -> Seq<char> {
    match c.expires {
        Some(t) => "; Expires="@ + t + " "@,
        None => Seq::empty(),
    }
}

/// The `HttpOnly` part of the `Set-Cookie` text.
pub open spec fn http_only_part(c: CookieView) -> Seq<char> {
    if c.http_only {
        "; HttpOnly"@
    } else {
        Seq::empty()
    }
}

/// The `Secure` part of the `Set-Cookie` text; `Partitioned` comes only
/// with `Secure`.
pub open spec fn secure_part(c: CookieView) -> Seq<char> {
    if c.secure {
        "; Secure"@ + if c.partitioned {
            "; Partitioned"@
        } else {
            Seq::empty()
        }
    } else {
        Seq::empty()
    }
}

/// The `Path` part of the `Set-Cookie` text.
pub open spec fn path_part(c: CookieView) -> Seq<char> {
    match c.path {
        Some(p) => "; Path="@ + p,
        None => Seq::empty(),
    }
}

/// The `Domain` part of the `Set-Cookie` text.
pub open spec fn domain_part(c: CookieView) -> Seq<char> {
    match c.domain {
        Some(d) => "; Domain="@ + d,
        None => Seq::empty(),
    }
}

/// The `SameSite` part of the `Set-Cookie` text.
pub open spec fn same_site_part(c: CookieView) -> Seq<char> {
    match c.same_site {
        Some(ss) => "; SameSite="@ + ss.spec_name(),
        None => Seq::empty(),
    }
}

/// The `Set-Cookie` text of a cookie: `key=value`, then each attribute that
/// is set, in a fixed order.
pub open spec fn cookie_text(c: CookieView) -> Seq<char> {
    c.key + "="@ + c.val + max_age_part(c) + expires_part(c) + http_only_part(c) + secure_part(c) + path_part(c)
        + domain_part(c) + same_site_part(c)
}

impl Cookie {
    /// A cookie with key `k` and value `v` and no attribute.
    pub fn new(k: &str, v: &str) -> (r: Self)
        ensures
            r@ == (CookieView {
                expires: None,
                max_age: None,
                http_only: false,
                partitioned: false,
                secure: false,
                path: None,
                domain: None,
                same_site: None,
                key: k@,
                val: v@,
            }),
    {
        Cookie {
            key: k.to_string(),
            val: v.to_string(),
            expires: None,
            max_age: None,
            http_only: false,
            partitioned: false,
            secure: false,
            path: None,
            domain: None,
            same_site: None,
        }
    }

    /// Sets the `Expires` attribute to a date and time, given as the text
    /// that `chrono` displays for a `DateTime<Utc>`.
    pub fn expires(&mut self, datetime: &str) -> (r: &mut Self)
        ensures
            (*r)@ == (CookieView { expires: Some(datetime@), ..old(self)@ }),
            *final(self) == *final(r),
    {
        self.expires = Some(datetime.to_string());
        self
    }

    /// Sets the `Max-Age` attribute to the whole seconds of `delta`,
    /// rounded toward zero.
    pub fn max_age(&mut self, delta: TimeSpan) -> (r: &mut Self)
        ensures
            (*r)@ == (CookieView { max_age: Some(delta.spec_whole_seconds() as i64), ..old(self)@ }),
            *final(self) == *final(r),
    {
        self.max_age = Some(delta.num_seconds());
        self
    }

    /// if switch is set to true then the client side can not access this cookie using javascript
    pub fn http_only(&mut self, switch: bool) -> (r: &mut Self)
        ensures
            (*r)@ == (CookieView { http_only: switch, ..old(self)@ }),
            *final(self) == *final(r),
    {
        self.http_only = switch;
        self
    }

    /// sets the request uri path that triggers this cookie to be send with the request
    pub fn path(&mut self, path: &str) -> (r: &mut Self)
        ensures
            (*r)@ == (CookieView { path: Some(path@), ..old(self)@ }),
            *final(self) == *final(r),
    {
        self.path = Some(path.to_string());
        self
    }

    /// sets the domain to which the client will send this cookie with requests
    pub fn domain(&mut self, domain: &str) -> (r: &mut Self)
        ensures
            (*r)@ == (CookieView { domain: Some(domain@), ..old(self)@ }),
            *final(self) == *final(r),
    {
        self.domain = Some(domain.to_string());
        self
    }

    /// Sets the `SameSite` attribute.
    pub fn same_site(&mut self, ss: SameSite) -> (r: &mut Self)
        ensures
            (*r)@ == (CookieView { same_site: Some(ss), ..old(self)@ }),
            *final(self) == *final(r),
    {
        self.same_site = Some(ss);
        self
    }

    /// switch for whether the cookie should be stored in partitioned storage
    /// requires the Secure attr
    pub fn partitioned(&mut self, switch: bool) -> (r: &mut Self)
        ensures
            (*r)@ == (CookieView { partitioned: switch, ..old(self)@ }),
            *final(self) == *final(r),
    {
        self.partitioned = switch;
        self
    }

    /// only send this cookie with requests coming from the `https:` scheme
    pub fn secure(&mut self, switch: bool) -> (r: &mut Self)
        ensures
            (*r)@ == (CookieView { secure: switch, ..old(self)@ }),
            *final(self) == *final(r),
    {
        self.secure = switch;
        self
    }

    fn append_max_age(&self, s: &mut String)
        ensures
            final(s)@ == old(s)@ + max_age_part(self@),
    {
        if let Some(ma) = self.max_age {
            s.append("; Max-Age=");
            append_decimal(s, ma);
            s.append(" ");
        }
    }

    fn append_expires(&self, s: &mut String)
        ensures
            final(s)@ == old(s)@ + expires_part(self@),
    {
        if let Some(exp) = &self.expires {
            s.append("; Expires=");
            s.append(exp.as_str());
            s.append(" ");
        }
    }

    fn append_flags(&self, s: &mut String)
        ensures
            final(s)@ == old(s)@ + http_only_part(self@) + secure_part(self@),
    {
        if self.http_only {
            s.append("; HttpOnly");
        }
        let ghost mid = s@;
        if self.secure {
            s.append("; Secure");
            if self.partitioned {
                s.append("; Partitioned");
            }
        }
        assert(s@ =~= mid + secure_part(self@));
    }

    fn append_places(&self, s: &mut String)
        ensures
            final(s)@ == old(s)@ + path_part(self@) + domain_part(self@),
    {
        if let Some(path) = &self.path {
            s.append("; Path=");
            s.append(path.as_str());
        }
        let ghost mid = s@;
        if let Some(domain) = &self.domain {
            s.append("; Domain=");
            s.append(domain.as_str());
        }
        assert(s@ =~= mid + domain_part(self@));
    }

    fn append_same_site(&self, s: &mut String)
        ensures
            final(s)@ == old(s)@ + same_site_part(self@),
    {
        if let Some(ss) = &self.same_site {
            s.append("; SameSite=");
            s.append(ss.as_str());
        }
    }

    /// The `Set-Cookie` text of the cookie (see `cookie_text`).
    pub fn to_string(&self) -> (r: String)
        ensures
            r@ == cookie_text(self@),
    {
        let mut cookie = String::from_str(self.key.as_str());
        cookie.append("=");
        cookie.append(self.val.as_str());
        self.append_max_age(&mut cookie);
        self.append_expires(&mut cookie);
        self.append_flags(&mut cookie);
        self.append_places(&mut cookie);
        self.append_same_site(&mut cookie);
        assert(cookie@ =~= cookie_text(self@));
        cookie
    }
}

/// Does `s` start with `p`?
pub open spec fn starts_with(s: Seq<u8>, p: Seq<u8>) -> bool {
    p.len() <= s.len() && s.subrange(0, p.len() as int) == p
}

/// The names of the attributes that the cookie reader knows.
pub open spec fn attribute_names() -> Seq<Seq<u8>> {
    seq![
        "Domain".spec_bytes(),
        "Expires".spec_bytes(),
        "HttpOnly".spec_bytes(),
        "Max-Age".spec_bytes(),
        "Partitioned".spec_bytes(),
        "Path".spec_bytes(),
        "SameSite".spec_bytes(),
    ]
}

/// Does `s` start with the name of a known attribute?
pub open spec fn starts_with_attribute(s: Seq<u8>) -> bool {
    exists|i: int| 0 <= i < attribute_names().len() && starts_with(s, #[trigger] attribute_names()[i])
}

/// `; ` starts at index `k` of `s`.
pub open spec fn separator_at(s: Seq<u8>, k: int) -> bool {
    0 <= k && k + 1 < s.len() && s[k] == 59 && s[k + 1] == 32
}

/// `j` is the first index of `s` where `; ` starts.
pub open spec fn is_first_separator(s: Seq<u8>, j: int) -> bool {
    separator_at(s, j) && forall|k: int| 0 <= k < j ==> !#[trigger] separator_at(s, k)
}

/// The first index of `s` where `; ` starts, if any.
pub open spec fn first_separator(s: Seq<u8>) -> Option<int> {
    if exists|j: int| is_first_separator(s, j) {
        Some(choose|j: int| is_first_separator(s, j))
    } else {
        None
    }
}

/// Splitting off an attribute key: when `s` starts with a known attribute
/// name and holds a `=`, the bytes before the first `=`, and the rest from
/// the `=` on; otherwise nothing, and `s` as it is.
pub open spec fn spec_split_on_key(s: Seq<u8>) -> (Option<Seq<u8>>, Seq<u8>) {
    if !starts_with_attribute(s) {
        (None, s)
    } else {
        match crate::message::first_of(s, 0, 61) {
            Some(i) => (Some(s.subrange(0, i)), s.subrange(i, s.len() as int)),
            None => (None, s),
        }
    }
}

/// Splitting off an attribute value: when `s` starts with a known attribute
/// name and holds a `; `, the bytes before the first `; `, and the rest from
/// the `; ` on; otherwise a bad request, and `s` as it is.
pub open spec fn spec_split_on_val(s: Seq<u8>) -> (Result<Seq<u8>, ErrorStatus>, Seq<u8>) {
    if !starts_with_attribute(s) {
        (Err(ErrorStatus::Client(ClientError::BadRequest)), s)
    } else {
        match first_separator(s) {
            Some(i) => (Ok(s.subrange(0, i)), s.subrange(i, s.len() as int)),
            None => (Err(ErrorStatus::Client(ClientError::BadRequest)), s),
        }
    }
}

/// Taking a key and a value off the front of `s`: nothing when `s` is
/// empty; else the bytes before the first `=` are the key, and, from the
/// `=` on, the bytes before the first `; ` the value; each is split off
/// when found, and both must be found.
pub open spec fn spec_take_key_val(s: Seq<u8>) -> (Option<Result<(Seq<u8>, Seq<u8>), ErrorStatus>>, Seq<u8>) {
    if s.len() == 0 {
        (None, s)
    } else {
        let (key, s1) = match crate::message::first_of(s, 0, 61) {
            Some(i) => (Some(s.subrange(0, i)), s.subrange(i, s.len() as int)),
            None => (None, s),
        };
        let (val, s2) = match first_separator(s1) {
            Some(j) => (Some(s1.subrange(0, j)), s1.subrange(j, s1.len() as int)),
            None => (None, s1),
        };
        (
            Some(
                match (key, val) {
                    (Some(k), Some(v)) => Ok((k, v)),
                    _ => Err(ErrorStatus::Server(ServerError::NotImplemented)),
                },
            ),
            s2,
        )
    }
}

/// Reading the attributes of a cookie from the text `s` that follows its
/// value, one key at a time, with the text left after reading. `HttpOnly`,
/// `Partitioned` and `Secure` switch their flag on; the attributes that take
/// a value (`Domain`, `Expires`, `Max-Age`, `Path`, `SameSite`) are refused
/// as bad requests, since the value split sees the rest from the `=` on,
/// which starts with no attribute name; other keys are not implemented.
pub open spec fn spec_fill_out(c: CookieView, s: Seq<u8>) -> (Result<CookieView, ErrorStatus>, Seq<u8>)
    decreases s.len(),
{
    match spec_split_on_key(s) {
        (None, _) => (Ok(c), s),
        (Some(ext), rest) => if ext == "HttpOnly".spec_bytes() && rest.len() < s.len() {
            spec_fill_out(CookieView { http_only: true, ..c }, rest)
        } else if ext == "Partitioned".spec_bytes() && rest.len() < s.len() {
            spec_fill_out(CookieView { partitioned: true, ..c }, rest)
        } else if ext == "Secure".spec_bytes() && rest.len() < s.len() {
            spec_fill_out(CookieView { secure: true, ..c }, rest)
        } else if is_value_attribute(ext) {
            (Err(ErrorStatus::Client(ClientError::BadRequest)), rest)
        } else {
            (Err(ErrorStatus::Server(ServerError::NotImplemented)), rest)
        },
    }
}

fn starts_with_bytes(s: &[u8], p: &[u8]) -> (r: bool)
    ensures
        r == starts_with(s@, p@),
{
    if p.len() > s.len() {
        return false;
    }
    let r = eq_bytes(&s[0..p.len()], p);
    assert(s@.subrange(0, p@.len() as int) == s@.subrange(0, p.len() as int));
    r
}

fn starts_with_attribute_bytes(s: &[u8]) -> (r: bool)
    ensures
        r == starts_with_attribute(s@),
{
    let r = starts_with_bytes(s, "Domain".as_bytes()) || starts_with_bytes(s, "Expires".as_bytes())
        || starts_with_bytes(s, "HttpOnly".as_bytes()) || starts_with_bytes(s, "Max-Age".as_bytes())
        || starts_with_bytes(s, "Partitioned".as_bytes()) || starts_with_bytes(s, "Path".as_bytes())
        || starts_with_bytes(s, "SameSite".as_bytes());
    proof {
        let names = attribute_names();
        if r {
            if starts_with(s@, "Domain".spec_bytes()) {
                assert(starts_with(s@, names[0]));
            } else if starts_with(s@, "Expires".spec_bytes()) {
                assert(starts_with(s@, names[1]));
            } else if starts_with(s@, "HttpOnly".spec_bytes()) {
                assert(starts_with(s@, names[2]));
            } else if starts_with(s@, "Max-Age".spec_bytes()) {
                assert(starts_with(s@, names[3]));
            } else if starts_with(s@, "Partitioned".spec_bytes()) {
                assert(starts_with(s@, names[4]));
            } else if starts_with(s@, "Path".spec_bytes()) {
                assert(starts_with(s@, names[5]));
            } else {
                assert(starts_with(s@, names[6]));
            }
        } else {
            assert forall|i: int| 0 <= i < names.len() implies !starts_with(s@, #[trigger] names[i]) by {
                if i == 0 {
                } else if i == 1 {
                } else if i == 2 {
                } else if i == 3 {
                } else if i == 4 {
                } else if i == 5 {
                } else {
                }
            }
        }
    }
    r
}

fn find_separator(s: &[u8]) -> (r: Option<usize>)
    ensures
        match r {
            Some(j) => first_separator(s@) == Some(j as int) && is_first_separator(s@, j as int),
            None => first_separator(s@) is None,
        },
{
    let mut i: usize = 0;
    let n = s.len();
    while i < n && n - i >= 2
        invariant
            n == s@.len(),
            i <= n,
            forall|k: int| 0 <= k < i ==> !#[trigger] separator_at(s@, k),
        decreases n - i,
    {
        if s[i] == 59 && s[i + 1] == 32 {
            proof {
                assert(is_first_separator(s@, i as int));
                let j = choose|j: int| is_first_separator(s@, j);
                assert(j == i as int) by {
                    if j < i {
                        assert(!separator_at(s@, j));
                    } else if j > i {
                        assert(separator_at(s@, i as int));
                    }
                }
            }
            return Some(i);
        }
        i += 1;
    }
    proof {
        assert forall|j: int| !is_first_separator(s@, j) by {
            if is_first_separator(s@, j) && j >= i {
                assert(j + 1 < s@.len());
            }
        }
    }
    None
}

fn find_equals(s: &[u8]) -> (r: Option<usize>)
    ensures
        r == match crate::message::first_of(s@, 0, 61) {
            Some(j) => Some(j as usize),
            None => None::<usize>,
        },
        r matches Some(j) ==> j < s@.len() && crate::message::is_first_of(s@, 0, j as int, 61),
{
    if s.len() == 0 {
        proof {
            assert forall|j: int| !crate::message::is_first_of(s@, 0, j, 61) by {}
        }
        return None;
    }
    let r = crate::message::find(s, 0, 61);
    r
}

/// A `str` prefix of `s` at an ASCII byte, and the rest.
fn split_ascii(s: &str, at: usize) -> (r: (&str, &str))
    requires
        at < s.spec_bytes().len(),
        s.spec_bytes()[at as int] < 128,
    ensures
        r.0.spec_bytes() == s.spec_bytes().subrange(0, at as int),
        r.1.spec_bytes() == s.spec_bytes().subrange(at as int, s.spec_bytes().len() as int),
{
    proof {
        vstd::utf8::encode_utf8_valid_utf8(s@);
        vstd::utf8::is_char_boundary_iff_not_is_continuation_byte(s.spec_bytes(), at as int);
    }
    s.split_at(at)
}

/// The text of `s` as a `str` with its bytes.
proof fn lemma_text_of_bytes(s: &str)
    ensures
        decode_utf8(s.spec_bytes()) == s@,
{
    vstd::utf8::encode_utf8_decode_utf8(s@);
}

/// Splits an attribute key off `s` (see `spec_split_on_key`).
fn split_on_key<'a>(s: &'a str) -> (r: (Option<&'a str>, &'a str))
    ensures
        match spec_split_on_key(s.spec_bytes()) {
            (Some(k), rest) => r.0 matches Some(key) && key.spec_bytes() == k && r.1.spec_bytes() == rest,
            (None, rest) => r.0 is None && r.1.spec_bytes() == rest,
        },
{
    let b = s.as_bytes();
    if !starts_with_attribute_bytes(b) {
        return (None, s);
    }
    match find_equals(b) {
        Some(i) => {
            proof {
                assert(crate::message::is_first_of(b@, 0, i as int, 61));
            }
            let (key, rest) = split_ascii(s, i);
            (Some(key), rest)
        },
        None => (None, s),
    }
}

/// Splits an attribute value off `s` (see `spec_split_on_val`).
fn split_on_val<'a>(s: &'a str) -> (r: (Result<&'a str, ErrorStatus>, &'a str))
    ensures
        match spec_split_on_val(s.spec_bytes()) {
            (Ok(v), rest) => r.0 matches Ok(val) && val.spec_bytes() == v && r.1.spec_bytes() == rest,
            (Err(e), rest) => r.0 == Err::<&'a str, ErrorStatus>(e) && r.1.spec_bytes() == rest,
        },
{
    let b = s.as_bytes();
    if !starts_with_attribute_bytes(b) {
        return (Err(ErrorStatus::Client(ClientError::BadRequest)), s);
    }
    match find_separator(b) {
        Some(i) => {
            proof {
                assert(is_first_separator(b@, i as int));
            }
            let (val, rest) = split_ascii(s, i);
            (Ok(val), rest)
        },
        None => (Err(ErrorStatus::Client(ClientError::BadRequest)), s),
    }
}

/// Takes a key and a value off the front of `s` (see `spec_take_key_val`).
fn take_key_val<'a>(s: &'a str) -> (r: (Option<Result<(&'a str, &'a str), ErrorStatus>>, &'a str))
    ensures
        r.1.spec_bytes() == spec_take_key_val(s.spec_bytes()).1,
        match spec_take_key_val(s.spec_bytes()).0 {
            None => r.0 is None,
            Some(Ok((k, v))) => r.0 matches Some(Ok((key, val))) && key.spec_bytes() == k && val.spec_bytes() == v,
            Some(Err(e)) => r.0 == Some(Err::<(&'a str, &'a str), ErrorStatus>(e)),
        },
{
    if s.as_bytes().len() == 0 {
        return (None, s);
    }
    let (key, s1) = match find_equals(s.as_bytes()) {
        Some(i) => {
            proof {
                assert(crate::message::is_first_of(s.spec_bytes(), 0, i as int, 61));
            }
            let (k, rest) = split_ascii(s, i);
            (Some(k), rest)
        },
        None => (None, s),
    };
    let (val, s2) = match find_separator(s1.as_bytes()) {
        Some(j) => {
            proof {
                assert(is_first_separator(s1.spec_bytes(), j as int));
            }
            let (v, rest) = split_ascii(s1, j);
            (Some(v), rest)
        },
        None => (None, s1),
    };
    proof {
        let b = s.spec_bytes();
        let first = match crate::message::first_of(b, 0, 61) {
            Some(i) => (Some(b.subrange(0, i)), b.subrange(i, b.len() as int)),
            None => (None, b),
        };
        assert(s1.spec_bytes() == first.1);
        assert(key is Some == first.0 is Some);
        let second = match first_separator(first.1) {
            Some(j) => (Some(first.1.subrange(0, j)), first.1.subrange(j, first.1.len() as int)),
            None => (None, first.1),
        };
        assert(s2.spec_bytes() == second.1);
        assert(val is Some == second.0 is Some);
    }
    match (key, val) {
        (Some(k), Some(v)) => (Some(Ok((k, v))), s2),
        _ => (Some(Err(ErrorStatus::Server(ServerError::NotImplemented))), s2),
    }
}

/// Is `s` one of the names of the attributes that take a value?
pub open spec fn is_value_attribute(s: Seq<u8>) -> bool {
    s == "Domain".spec_bytes() || s == "Expires".spec_bytes() || s == "Max-Age".spec_bytes() || s
        == "Path".spec_bytes() || s == "SameSite".spec_bytes()
}

fn is_value_attribute_bytes(s: &[u8]) -> (r: bool)
    ensures
        r == is_value_attribute(s@),
{
    eq_bytes(s, "Domain".as_bytes()) || eq_bytes(s, "Expires".as_bytes()) || eq_bytes(s, "Max-Age".as_bytes())
        || eq_bytes(s, "Path".as_bytes()) || eq_bytes(s, "SameSite".as_bytes())
}

impl Cookie {
    /// Reads the attributes that follow the value of the cookie in `header`
    /// into it (see `spec_fill_out`), with the text left after reading.
    fn fill_out<'a>(self, header: &'a str) -> (r: (Result<Cookie, ErrorStatus>, &'a str))
        ensures
            r.1.spec_bytes() == spec_fill_out(self@, header.spec_bytes()).1,
            match spec_fill_out(self@, header.spec_bytes()).0 {
                Ok(c) => r.0 matches Ok(cookie) && cookie@ == c,
                Err(e) => r.0 == Err::<Cookie, ErrorStatus>(e),
            },
    {
        let mut c = self;
        let mut rest = header;
        loop
            invariant
                spec_fill_out(c@, rest.spec_bytes()) == spec_fill_out(self@, header.spec_bytes()),
            decreases rest.spec_bytes().len(),
        {
            let ghost s = rest.spec_bytes();
            let (key, after) = split_on_key(rest);
            let ext = match key {
                None => {
                    return (Ok(c), rest);
                },
                Some(ext) => ext,
            };
            proof {
                lemma_key_split_shortens(s);
            }
            let e = ext.as_bytes();
            if eq_bytes(e, "HttpOnly".as_bytes()) {
                c.http_only(true);
                rest = after;
            } else if eq_bytes(e, "Partitioned".as_bytes()) {
                c.partitioned(true);
                rest = after;
            } else if eq_bytes(e, "Secure".as_bytes()) {
                c.secure(true);
                rest = after;
            } else if is_value_attribute_bytes(e) {
                let (val, after_val) = split_on_val(after);
                match val {
                    Err(err) => {
                        proof {
                            lemma_value_after_key_refused(s);
                        }
                        return (Err(err), after_val);
                    },
                    Ok(_) => {
                        proof {
                            lemma_value_after_key_refused(s);
                        }
                        return unreached();
                    },
                }
            } else {
                return (Err(ErrorStatus::Server(ServerError::NotImplemented)), after);
            }
        }
    }
}

/// No attribute name is empty or starts with `=` or `;`.
proof fn lemma_names_first_bytes()
    ensures
        forall|k: int| 0 <= k < attribute_names().len() ==> (#[trigger] attribute_names()[k]).len() > 0
            && attribute_names()[k][0] != 61 && attribute_names()[k][0] != 59,
{
    reveal_strlit("Domain");
    reveal_strlit("Expires");
    reveal_strlit("HttpOnly");
    reveal_strlit("Max-Age");
    reveal_strlit("Partitioned");
    reveal_strlit("Path");
    reveal_strlit("SameSite");
    vstd::utf8::is_ascii_chars_encode_utf8("Domain"@);
    vstd::utf8::is_ascii_chars_encode_utf8("Expires"@);
    vstd::utf8::is_ascii_chars_encode_utf8("HttpOnly"@);
    vstd::utf8::is_ascii_chars_encode_utf8("Max-Age"@);
    vstd::utf8::is_ascii_chars_encode_utf8("Partitioned"@);
    vstd::utf8::is_ascii_chars_encode_utf8("Path"@);
    vstd::utf8::is_ascii_chars_encode_utf8("SameSite"@);
    assert("Domain".spec_bytes()[0] == 68);
    assert("Expires".spec_bytes()[0] == 69);
    assert("HttpOnly".spec_bytes()[0] == 72);
    assert("Max-Age".spec_bytes()[0] == 77);
    assert("Partitioned".spec_bytes()[0] == 80);
    assert("Path".spec_bytes()[0] == 80);
    assert("SameSite".spec_bytes()[0] == 83);
}

/// A key split takes at least one byte off: the text starts with a name,
/// which does not start with `=`.
proof fn lemma_key_split_shortens(s: Seq<u8>)
    requires
        spec_split_on_key(s).0 is Some,
    ensures
        spec_split_on_key(s).1.len() < s.len(),
{
    let i = crate::message::first_of(s, 0, 61)->Some_0;
    assert(crate::message::is_first_of(s, 0, i, 61));
    lemma_names_first_bytes();
    let names = attribute_names();
    let k = choose|k: int| 0 <= k < names.len() && starts_with(s, #[trigger] names[k]);
    assert(s.subrange(0, names[k].len() as int)[0] == s[0]);
    assert(i != 0);
}

/// The rest of a key split starts with `=`, which no attribute name starts
/// with, so a value split after it is refused.
proof fn lemma_value_after_key_refused(s: Seq<u8>)
    requires
        spec_split_on_key(s).0 is Some,
    ensures
        spec_split_on_val(spec_split_on_key(s).1).0 == Err::<Seq<u8>, ErrorStatus>(ErrorStatus::Client(ClientError::BadRequest)),
        spec_split_on_val(spec_split_on_key(s).1).1 == spec_split_on_key(s).1,
{
    let rest = spec_split_on_key(s).1;
    let i = crate::message::first_of(s, 0, 61)->Some_0;
    assert(crate::message::is_first_of(s, 0, i, 61));
    assert(rest[0] == 61);
    lemma_names_first_bytes();
    let names = attribute_names();
    assert forall|k: int| 0 <= k < names.len() implies !starts_with(rest, #[trigger] names[k]) by {
        if starts_with(rest, names[k]) {
            assert(rest.subrange(0, names[k].len() as int)[0] == rest[0]);
        }
    }
}

/// A text that starts with `;` holds no attribute to read: reading stops
/// at once, with the cookie as it is.
proof fn lemma_fill_out_at_separator(c: CookieView, s: Seq<u8>)
    requires
        s.len() > 0,
        s[0] == 59,
    ensures
        spec_fill_out(c, s) == (Ok::<CookieView, ErrorStatus>(c), s),
{
    lemma_names_first_bytes();
    let names = attribute_names();
    assert forall|k: int| 0 <= k < names.len() implies !starts_with(s, #[trigger] names[k]) by {
        if starts_with(s, names[k]) {
            assert(s.subrange(0, names[k].len() as int)[0] == s[0]);
        }
    }
}

/// When a key and a value are taken, what is left starts with the `; `
/// that ended the value, and is shorter than the text.
proof fn lemma_taken_rest(s: Seq<u8>)
    requires
        spec_take_key_val(s).0 matches Some(Ok(_)),
    ensures
        spec_take_key_val(s).1.len() > 0,
        spec_take_key_val(s).1[0] == 59,
        spec_take_key_val(s).1.len() < s.len(),
{
    let i = crate::message::first_of(s, 0, 61)->Some_0;
    assert(crate::message::is_first_of(s, 0, i, 61));
    let s1 = s.subrange(i, s.len() as int);
    let j = first_separator(s1)->Some_0;
    assert(is_first_separator(s1, j));
    assert(s1[0] == 61);
    assert(j != 0);
}

/// Reads the cookies of a `Cookie` header, `key=value` pairs with their
/// attributes, one after another. After a pair the text goes on at the
/// `; ` that ended its value, where no key can be taken as a whole pair
/// and read to the end, so the empty text gives no cookie and any other
/// text is not implemented.
pub fn cookies_from_header(header: &str) -> (r: Result<Vec<Cookie>, ErrorStatus>)
    ensures
        header.spec_bytes().len() == 0 ==> (r matches Ok(v) && v@.len() == 0),
        header.spec_bytes().len() > 0 ==> r == Err::<Vec<Cookie>, ErrorStatus>(
            ErrorStatus::Server(ServerError::NotImplemented),
        ),
{
    let mut cookies: Vec<Cookie> = Vec::new();
    let mut rest = header;
    loop
        invariant
            cookies@.len() == 0 ==> rest.spec_bytes() == header.spec_bytes(),
            cookies@.len() > 0 ==> rest.spec_bytes().len() > 0 && header.spec_bytes().len() > 0,
        decreases rest.spec_bytes().len(),
    {
        let ghost s = rest.spec_bytes();
        let (kv, after) = take_key_val(rest);
        match kv {
            None => {
                return Ok(cookies);
            },
            Some(Err(e)) => {
                return Err(e);
            },
            Some(Ok((k, v))) => {
                proof {
                    lemma_taken_rest(s);
                    lemma_text_of_bytes(k);
                    lemma_text_of_bytes(v);
                }
                let c = Cookie::new(k, v);
                proof {
                    lemma_fill_out_at_separator(c@, after.spec_bytes());
                }
                let (filled, after_attrs) = c.fill_out(after);
                match filled {
                    Ok(cookie) => {
                        cookies.push(cookie);
                        rest = after_attrs;
                    },
                    Err(e) => {
                        return Err(e);
                    },
                }
            },
        }
    }
}

/// The texts of cookies joined by `; `, as one header value.
pub open spec fn cookies_text(cs: Seq<CookieView>) -> Seq<char>
    decreases cs.len(),
{
    if cs.len() == 0 {
        Seq::empty()
    } else if cs.len() == 1 {
        cookie_text(cs[0])
    } else {
        cookies_text(cs.drop_last()) + "; "@ + cookie_text(cs.last())
    }
}

/// The views of a run of cookies.
pub open spec fn cookie_views(cs: Seq<Cookie>) -> Seq<CookieView> {
    cs.map_values(|c: Cookie| c@)
}

/// The header value that carries `cookies`: their texts joined by `; `.
pub fn cookies_to_header(cookies: &[Cookie]) -> (r: String)
    ensures
        r@ == cookies_text(cookie_views(cookies@)),
{
    let mut header = String::new();
    let mut i: usize = 0;
    let n = cookies.len();
    while i < n
        invariant
            n == cookies@.len(),
            i <= n,
            header@ == cookies_text(cookie_views(cookies@.take(i as int))),
        decreases n - i,
    {
        let ghost before = cookie_views(cookies@.take(i as int));
        let ghost after = cookie_views(cookies@.take(i as int + 1));
        assert(after.drop_last() =~= before);
        assert(after.last() == cookies@[i as int]@);
        if i > 0 {
            header.append("; ");
        }
        let text = cookies[i].to_string();
        header.append(text.as_str());
        i += 1;
    }
    assert(cookies@.take(n as int) =~= cookies@);
    header
}

/// One `Set-Cookie` header for each of `cookies`, in their order.
pub fn cookies_to_headers(cookies: &[Cookie]) -> (r: Vec<(&'static str, String)>)
    ensures
        r@.len() == cookies@.len(),
        forall|i: int|
            0 <= i < r@.len() ==> (#[trigger] r@[i]).0@ == "Set-Cookie"@ && r@[i].1@ == cookie_text(
                cookies@[i]@,
            ),
{
    let mut headers: Vec<(&'static str, String)> = Vec::new();
    let mut i: usize = 0;
    let n = cookies.len();
    while i < n
        invariant
            n == cookies@.len(),
            i <= n,
            headers@.len() == i,
            forall|k: int|
                0 <= k < i ==> (#[trigger] headers@[k]).0@ == "Set-Cookie"@ && headers@[k].1@ == cookie_text(
                    cookies@[k]@,
                ),
        decreases n - i,
    {
        headers.push(("Set-Cookie", cookies[i].to_string()));
        i += 1;
    }
    headers
}

/// A cookie with key `key` and value `val` and no attribute.
pub open spec fn bare_cookie(key: Seq<char>, val: Seq<char>) -> CookieView {
    CookieView {
        expires: None,
        max_age: None,
        http_only: false,
        partitioned: false,
        secure: false,
        path: None,
        domain: None,
        same_site: None,
        key,
        val,
    }
}

/// Does the header value `s` start with a whole key and value pair?
pub open spec fn names_pair(s: Seq<u8>) -> bool {
    spec_take_key_val(s).0 matches Some(Ok(_))
}

/// The cookie that the header value `s` names by its first key and value.
pub open spec fn header_cookie(s: Seq<u8>) -> CookieView {
    match spec_take_key_val(s).0 {
        Some(Ok((k, v))) => bare_cookie(decode_utf8(k), decode_utf8(v)),
        _ => bare_cookie(Seq::empty(), Seq::empty()),
    }
}

fn same_text(a: &Option<String>, b: &Option<String>) -> (r: bool)
    ensures
        r == (opt_text(*a) == opt_text(*b)),
{
    match (a, b) {
        (Some(x), Some(y)) => crate::bytes::str_eq(x.as_str(), y.as_str()),
        (None, None) => true,
        _ => false,
    }
}

impl Cookie {
    /// Do the two cookies hold the same key, value and attributes?
    pub fn same_as(&self, other: &Cookie) -> (r: bool)
        ensures
            r == (self@ == other@),
    {
        let same_age = match (self.max_age, other.max_age) {
            (Some(x), Some(y)) => x == y,
            (None, None) => true,
            _ => false,
        };
        let same_site = match (self.same_site, other.same_site) {
            (Some(x), Some(y)) => x == y,
            (None, None) => true,
            _ => false,
        };
        same_text(&self.expires, &other.expires) && same_age && self.http_only == other.http_only
            && self.partitioned == other.partitioned && self.secure == other.secure && same_text(
            &self.path,
            &other.path,
        ) && same_text(&self.domain, &other.domain) && same_site && crate::bytes::str_eq(
            self.key.as_str(),
            other.key.as_str(),
        ) && crate::bytes::str_eq(self.val.as_str(), other.val.as_str())
    }
}

/// Is a cookie with the view `c` among `cookies`?
fn holds_cookie(cookies: &Vec<Cookie>, c: &Cookie) -> (r: bool)
    ensures
        r == cookie_views(cookies@).contains(c@),
{
    let mut i: usize = 0;
    while i < cookies.len()
        invariant
            i <= cookies@.len(),
            forall|k: int| 0 <= k < i ==> cookies@[k]@ != c@,
        decreases cookies@.len() - i,
    {
        if cookies[i].same_as(c) {
            assert(cookie_views(cookies@)[i as int] == c@);
            return true;
        }
        i += 1;
    }
    assert(!cookie_views(cookies@).contains(c@)) by {
        if cookie_views(cookies@).contains(c@) {
            let k = choose|k: int| 0 <= k < cookie_views(cookies@).len() && cookie_views(cookies@)[k] == c@;
            assert(cookies@[k]@ == c@);
        }
    }
    false
}

/// Reads one cookie from each of several `Cookie` header values, each of
/// which must start with a whole key and value pair: the set of those
/// cookies, each once; no header value at all is not implemented.
pub fn cookies_from_headers(headers: &[String]) -> (r: Result<Vec<Cookie>, ErrorStatus>)
    requires
        forall|i: int| 0 <= i < headers@.len() ==> names_pair(encode_utf8(#[trigger] headers@[i]@)),
    ensures
        headers@.len() == 0 ==> r == Err::<Vec<Cookie>, ErrorStatus>(
            ErrorStatus::Server(ServerError::NotImplemented),
        ),
        headers@.len() > 0 ==> (r matches Ok(v) && cookie_views(v@).no_duplicates() && (forall|k: int|
            0 <= k < v@.len() ==> exists|i: int|
                0 <= i < headers@.len() && #[trigger] v@[k]@ == header_cookie(encode_utf8(#[trigger] headers@[i]@)))
            && (forall|i: int|
            0 <= i < headers@.len() ==> cookie_views(v@).contains(
                header_cookie(encode_utf8(#[trigger] headers@[i]@)),
            ))),
{
    if headers.len() == 0 {
        return Err(ErrorStatus::Server(ServerError::NotImplemented));
    }
    let mut cookies: Vec<Cookie> = Vec::new();
    let mut i: usize = 0;
    while i < headers.len()
        invariant
            i <= headers@.len(),
            forall|j: int| 0 <= j < headers@.len() ==> names_pair(encode_utf8(#[trigger] headers@[j]@)),
            cookie_views(cookies@).no_duplicates(),
            forall|k: int|
                0 <= k < cookies@.len() ==> exists|j: int|
                    0 <= j < i && #[trigger] cookies@[k]@ == header_cookie(encode_utf8(#[trigger] headers@[j]@)),
            forall|j: int|
                0 <= j < i ==> cookie_views(cookies@).contains(header_cookie(encode_utf8(#[trigger] headers@[j]@))),
        decreases headers@.len() - i,
    {
        let text = headers[i].as_str();
        let ghost b = encode_utf8(headers@[i as int]@);
        assert(text.spec_bytes() == b);
        let (kv, after) = take_key_val(text);
        match kv {
            Some(Ok((k, v))) => {
                proof {
                    lemma_taken_rest(b);
                    lemma_text_of_bytes(k);
                    lemma_text_of_bytes(v);
                }
                let c = Cookie::new(k, v);
                proof {
                    lemma_fill_out_at_separator(c@, after.spec_bytes());
                }
                let (filled, _) = c.fill_out(after);
                match filled {
                    Ok(cookie) => {
                        assert(cookie@ == header_cookie(b));
                        let ghost old_views = cookie_views(cookies@);
                        if !holds_cookie(&cookies, &cookie) {
                            cookies.push(cookie);
                            proof {
                                assert(cookie_views(cookies@) =~= old_views.push(header_cookie(b)));
                                assert(cookies@[cookies@.len() - 1]@ == header_cookie(encode_utf8(headers@[i as int]@)));
                                assert forall|j: int|
                                    0 <= j < i + 1 implies cookie_views(cookies@).contains(
                                    header_cookie(encode_utf8(#[trigger] headers@[j]@)),
                                ) by {
                                    if j < i {
                                        let x = header_cookie(encode_utf8(headers@[j]@));
                                        assert(old_views.contains(x));
                                        let idx = choose|idx: int| 0 <= idx < old_views.len() && old_views[idx] == x;
                                        assert(cookie_views(cookies@)[idx] == x);
                                    } else {
                                        assert(cookie_views(cookies@)[cookies@.len() - 1] == header_cookie(b));
                                    }
                                }
                            }
                        }
                    },
                    Err(_) => {
                        proof {
                            assert(false);
                        }
                    },
                }
            },
            _ => {
                proof {
                    assert(names_pair(b));
                    assert(false);
                }
            },
        }
        i += 1;
    }
    Ok(cookies)
}

} // verus!
