//! Response body encodings: the codings a server applies to a body, in
//! order, and the `Content-Encoding` header value that names them.
use vstd::prelude::*;
use vstd::string::StringSliceAdditionalSpecFns;
use crate::bytes::eq_bytes;
use crate::compress::{deflate_bytes, deflate_bytes_gzip, deflated, is_gzip_of};
use crate::cors::joined;
use crate::cors_config::joined_text;
use crate::inet::{parts_view, split_bytes, split_on};
use crate::status::{ClientError, ErrorStatus, ServerError};
use crate::trim::{lemma_trim_end_spaces, lemma_trim_start_spaces, spaces, trim, trim_bounds, trim_end, trim_start, ws_back, ws_front};
use vstd::utf8::encode_utf8;

verus! {

/// A content coding that a server applies.
#[derive(Debug, Clone, Copy, PartialEq, Eq, Hash, Structural)]
pub enum Encoding {
    Deflate,
    Gzip,
}

/// The gzip coding.
pub const GZIP: Encoding = Encoding::Gzip;

/// The deflate coding.
pub const DEFLATE: Encoding = Encoding::Deflate;

/// The coding named by the trimmed text `t`: `deflate` and `gzip` are
/// known; `br`, `zstd`, `dcb` and `dcz` are not implemented; any other name
/// cannot be processed.
pub open spec fn spec_encoding_of(t: Seq<u8>) -> Result<Encoding, ErrorStatus> {
    if t == "deflate".spec_bytes() {
        Ok(Encoding::Deflate)
    } else if t == "gzip".spec_bytes() {
        Ok(Encoding::Gzip)
    } else if t == "br".spec_bytes() || t == "zstd".spec_bytes() || t == "dcb".spec_bytes() || t == "dcz".spec_bytes() {
        Err(ErrorStatus::Server(ServerError::NotImplemented))
    } else {
        Err(ErrorStatus::Client(ClientError::UnprocessableContent))
    }
}

/// One encoding step: `out` is `data` encoded with `e`.
pub open spec fn encoded_by(e: Encoding, data: Seq<u8>, out: Seq<u8>) -> bool {
    match e {
        Encoding::Deflate => out == deflated(data),
        Encoding::Gzip => is_gzip_of(out, data),
    }
}

/// `out` is `body` encoded with each coding of `encs` in turn.
pub open spec fn encoded_in_turn(encs: Seq<Encoding>, body: Seq<u8>, out: Seq<u8>) -> bool
    decreases encs.len(),
{
    if encs.len() == 0 {
        out == body
    } else {
        exists|mid: Seq<u8>| encoded_in_turn(encs.drop_last(), body, mid) && encoded_by(encs.last(), mid, out)
    }
}

impl Encoding {
    /// The name of the coding.
    pub open spec fn spec_name(self) -> Seq<char> {
        match self {
            Encoding::Deflate => "deflate"@,
            Encoding::Gzip => "gzip"@,
        }
    }

    /// A coding's name reads back as that coding.
    pub proof fn law_name_round_trip(e: Encoding)
        ensures
            spec_encoding_of(vstd::utf8::encode_utf8(e.spec_name())) == Ok::<Encoding, ErrorStatus>(e),
    {
        reveal_strlit("deflate");
        reveal_strlit("gzip");
        crate::bytes::lemma_encode_injective(e.spec_name(), "deflate"@);
        crate::bytes::lemma_encode_injective(e.spec_name(), "gzip"@);
    }

    /// A coding's name, with any number of spaces before and after it,
    /// reads back as that coding: `from_str` trims them away.
    pub proof fn law_padded_name_round_trip(e: Encoding, before: nat, after: nat)
        ensures
            spec_encoding_of(trim(spaces(before) + encode_utf8(e.spec_name()) + spaces(after))) == Ok::<
                Encoding,
                ErrorStatus,
            >(e),
    {
        let n = encode_utf8(e.spec_name());
        lemma_name_bytes(e);
        Encoding::law_name_round_trip(e);
        reveal_strlit("deflate");
        reveal_strlit("gzip");
        vstd::utf8::is_ascii_chars_encode_utf8("deflate"@);
        vstd::utf8::is_ascii_chars_encode_utf8("gzip"@);
        let x = n + spaces(after);
        assert(spaces(before) + n + spaces(after) =~= spaces(before) + x);
        lemma_trim_start_spaces(before, x);
        assert(n.len() > 0 && (n[0] == 100u8 || n[0] == 103u8));
        assert(x[0] == n[0]);
        assert(ws_front(x) == 0);
        assert(trim_start(x) == x);
        lemma_trim_end_spaces(n, after);
    }

    pub fn as_str(&self) -> (r: &'static str)
        ensures
            r@ == self.spec_name(),
    {
        match self {
            Encoding::Deflate => "deflate",
            Encoding::Gzip => "gzip",
        }
    }

    /// Reads a coding name, trimmed of white space (see `spec_encoding_of`).
    pub fn from_str(s: &str) -> (r: Result<Encoding, ErrorStatus>)
        ensures
            r == spec_encoding_of(trim(s.spec_bytes())),
    {
        Encoding::from_bytes(s.as_bytes())
    }

    /// Reads a coding name given as bytes (see `from_str`).
    pub fn from_bytes(s: &[u8]) -> (r: Result<Encoding, ErrorStatus>)
        ensures
            r == spec_encoding_of(trim(s@)),
    {
        let (a, b) = trim_bounds(s);
        let t = &s[a..b];
        if eq_bytes(t, "deflate".as_bytes()) {
            Ok(Encoding::Deflate)
        } else if eq_bytes(t, "gzip".as_bytes()) {
            Ok(Encoding::Gzip)
        } else if eq_bytes(t, "br".as_bytes()) || eq_bytes(t, "zstd".as_bytes()) || eq_bytes(t, "dcb".as_bytes())
            || eq_bytes(t, "dcz".as_bytes()) {
            Err(ErrorStatus::Server(ServerError::NotImplemented))
        } else {
            Err(ErrorStatus::Client(ClientError::UnprocessableContent))
        }
    }

    /// Compresses `slice` with the coding.
    pub fn encode(&self, slice: &[u8]) -> (r: Vec<u8>)
        ensures
            encoded_by(*self, slice@, r@),
    {
        match self {
            Encoding::Deflate => deflate_bytes(slice),
            Encoding::Gzip => deflate_bytes_gzip(slice),
        }
    }
}

/// The codings a server applies to a body, in order.
#[derive(Debug, PartialEq, Eq, Hash, Clone)]
pub struct ContentEncoding {
    encodings: Vec<Encoding>,
}

impl View for ContentEncoding {
    type V = Seq<Encoding>;

    closed spec fn view(&self) -> Seq<Encoding> {
        self.encodings@
    }
}

/// Every comma separated part of `s` names a known coding.
pub open spec fn all_known(s: Seq<u8>) -> bool {
    forall|i: int| 0 <= i < split_on(s, 44).len() ==> #[trigger] spec_encoding_of(trim(split_on(s, 44)[i])) is Ok
}

/// The codings named by the comma separated parts of `s`.
pub open spec fn codings_of(s: Seq<u8>) -> Seq<Encoding> {
    split_on(s, 44).map_values(|p: Seq<u8>| spec_encoding_of(trim(p))->Ok_0)
}

/// The header value naming the codings `encs`: their names separated by
/// `, `.
pub open spec fn header_of(encs: Seq<Encoding>) -> Seq<u8> {
    joined(encs.map_values(|e: Encoding| vstd::utf8::encode_utf8(e.spec_name())), seq![44u8, 32])
}

/// The header value naming the codings `encs`, as text: their names
/// separated by `, `.
pub open spec fn header_text(encs: Seq<Encoding>) -> Seq<char> {
    joined_text(encs.map_values(|e: Encoding| e.spec_name()), seq![',', ' '])
}

/// The bytes of the header text are those of the header value.
proof fn lemma_header_text_bytes(encs: Seq<Encoding>)
    ensures
        encode_utf8(header_text(encs)) == header_of(encs),
    decreases encs.len(),
{
    let texts = encs.map_values(|e: Encoding| e.spec_name());
    let names = encs.map_values(|e: Encoding| encode_utf8(e.spec_name()));
    if encs.len() == 0 {
        assert(encode_utf8(header_text(encs)) =~= header_of(encs));
    } else if encs.len() == 1 {
        assert(header_text(encs) == texts[0]);
        assert(header_of(encs) == names[0]);
    } else {
        let front = encs.drop_last();
        lemma_header_text_bytes(front);
        assert(texts.drop_last() =~= front.map_values(|e: Encoding| e.spec_name()));
        assert(names.drop_last() =~= front.map_values(|e: Encoding| encode_utf8(e.spec_name())));
        assert(header_text(encs) == header_text(front) + seq![',', ' '] + texts.last());
        assert(header_of(encs) == header_of(front) + seq![44u8, 32] + names.last());
        crate::bytes::lemma_encode_append(header_text(front) + seq![',', ' '], texts.last());
        crate::bytes::lemma_encode_append(header_text(front), seq![',', ' ']);
        assert(encode_utf8(seq![',', ' ']) =~= seq![44u8, 32]) by {
            let sep = seq![',', ' '];
            assert(vstd::utf8::is_ascii_chars(sep));
            vstd::utf8::is_ascii_chars_encode_utf8(sep);
            assert(sep[0] as u8 == 44u8);
            assert(sep[1] as u8 == 32u8);
        }
    }
}

impl Default for ContentEncoding {
    /// No coding.
    fn default() -> (r: Self)
        ensures
            r@ == Seq::<Encoding>::empty(),
    {
        let encodings: Vec<Encoding> = Vec::new();
        ContentEncoding { encodings }
    }
}

impl ContentEncoding {
    /// The single coding `enc`.
    pub fn new(enc: Encoding) -> (r: Self)
        ensures
            r@ == seq![enc],
    {
        let mut encodings: Vec<Encoding> = Vec::new();
        encodings.push(enc);
        assert(encodings@ =~= seq![enc]);
        ContentEncoding { encodings }
    }

    /// Applies `enc` after the codings so far.
    pub fn encoding(&mut self, enc: Encoding) -> (r: &mut Self)
        ensures
            (*r)@ == old(self)@.push(enc),
            *final(self) == *final(r),
    {
        self.encodings.push(enc);
        self
    }

    /// applies encodings to the body
    pub fn encode(self, body: Vec<u8>) -> (r: Vec<u8>)
        ensures
            encoded_in_turn(self@, body@, r@),
    {
        let mut acc = body;
        let mut i: usize = 0;
        assert(self@.take(0) =~= Seq::<Encoding>::empty());
        while i < self.encodings.len()
            invariant
                0 <= i <= self.encodings@.len(),
                encoded_in_turn(self@.take(i as int), body@, acc@),
            decreases self.encodings@.len() - i,
        {
            let next = self.encodings[i].encode(acc.as_slice());
            proof {
                assert(self@.take(i + 1).drop_last() =~= self@.take(i as int));
                assert(self@.take(i + 1).last() == self@[i as int]);
                assert(encoded_in_turn(self@.take(i + 1), body@, next@));
            }
            acc = next;
            i += 1;
        }
        assert(self@.take(self@.len() as int) =~= self@);
        acc
    }

    /// this is generating a new content encoding header value from the read
    /// request bytes: every comma separated part must name a known coding
    pub fn from_request_header(s: &str) -> (r: Result<ContentEncoding, ErrorStatus>)
        requires
            all_known(s.spec_bytes()),
        ensures
            r matches Ok(c) && c@ == codings_of(s.spec_bytes()),
    {
        let parts = split_bytes(s.as_bytes(), 44);
        let ghost ps = parts_view(parts@);
        let mut out: Vec<Encoding> = Vec::new();
        let mut i: usize = 0;
        while i < parts.len()
            invariant
                0 <= i <= parts.len(),
                ps == parts_view(parts@),
                ps == split_on(s.spec_bytes(), 44),
                all_known(s.spec_bytes()),
                out@ =~= ps.take(i as int).map_values(|p: Seq<u8>| spec_encoding_of(trim(p))->Ok_0),
            decreases parts.len() - i,
        {
            assert(ps[i as int] == parts@[i as int]@);
            assert(spec_encoding_of(trim(split_on(s.spec_bytes(), 44)[i as int])) is Ok);
            let e = Encoding::from_bytes(parts[i].as_slice()).unwrap();
            out.push(e);
            i += 1;
        }
        assert(ps.take(parts@.len() as int) =~= ps);
        Ok(ContentEncoding { encodings: out })
    }

    /// The header value: the coding names separated by `, `.
    pub fn to_header(&self) -> (r: String)
        ensures
            r@ == header_text(self@),
    {
        let ghost names = self@.map_values(|e: Encoding| e.spec_name());
        let mut out = String::new();
        let mut i: usize = 0;
        proof {
            reveal_strlit(", ");
            assert(", "@ =~= seq![',', ' ']);
            assert(out@ =~= joined_text(names.take(0), seq![',', ' ']));
        }
        while i < self.encodings.len()
            invariant
                0 <= i <= self.encodings@.len(),
                names == self@.map_values(|e: Encoding| e.spec_name()),
                ", "@ == seq![',', ' '],
                out@ == joined_text(names.take(i as int), seq![',', ' ']),
            decreases self.encodings@.len() - i,
        {
            if i > 0 {
                out.append(", ");
            }
            out.append(self.encodings[i].as_str());
            proof {
                assert(names.take(i + 1).drop_last() =~= names.take(i as int));
                assert(names[i as int] == self@[i as int].spec_name());
                if i == 0 {
                    assert(names.take(1)[0] == names[0]);
                    assert(out@ =~= names[0]);
                }
                assert(out@ =~= joined_text(names.take(i + 1), seq![',', ' ']));
            }
            i += 1;
        }
        assert(names.take(self@.len() as int) =~= names);
        out
    }
}

/// The bytes of a coding's name, with the facts that its reading needs:
/// no comma, and no white space at either end, with or without a space in
/// front.
proof fn lemma_name_bytes(e: Encoding)
    ensures
        forall|k: int| 0 <= k < encode_utf8(e.spec_name()).len() ==> encode_utf8(e.spec_name())[k] != 44,
        trim(encode_utf8(e.spec_name())) == encode_utf8(e.spec_name()),
        trim(seq![32u8] + encode_utf8(e.spec_name())) == encode_utf8(e.spec_name()),
{
    reveal_strlit("deflate");
    reveal_strlit("gzip");
    vstd::utf8::is_ascii_chars_encode_utf8("deflate"@);
    vstd::utf8::is_ascii_chars_encode_utf8("gzip"@);
    let n = encode_utf8(e.spec_name());
    match e {
        Encoding::Deflate => {
            assert(n =~= seq![100u8, 101, 102, 108, 97, 116, 101]);
        },
        Encoding::Gzip => {
            assert(n =~= seq![103u8, 122, 105, 112]);
        },
    }
    assert(ws_front(n) == 0);
    assert(trim_start(n) == n);
    assert(ws_back(n) == 0);
    assert(trim_end(n) == n);
    let sn = seq![32u8] + n;
    assert(ws_front(sn) == 1);
    assert(sn.subrange(1, sn.len() as int) =~= n);
    assert(trim_start(sn) == n);
}

/// A header value written for codings reads back as those codings:
/// `from_request_header` of what `to_header` writes gives the same
/// codings, for any non-empty list of them (an empty list writes an empty
/// value, which names no coding).
pub proof fn law_header_round_trip(encs: Seq<Encoding>)
    requires
        encs.len() > 0,
    ensures
        all_known(encode_utf8(header_text(encs))),
        codings_of(encode_utf8(header_text(encs))) == encs,
{
    lemma_header_text_bytes(encs);
    lemma_header_bytes_round_trip(encs);
}

/// The header value bytes for a non-empty list of codings read back as
/// those codings.
proof fn lemma_header_bytes_round_trip(encs: Seq<Encoding>)
    requires
        encs.len() > 0,
    ensures
        all_known(header_of(encs)),
        codings_of(header_of(encs)) == encs,
    decreases encs.len(),
{
    let names = encs.map_values(|e: Encoding| encode_utf8(e.spec_name()));
    let last = encs.last();
    lemma_name_bytes(last);
    if encs.len() == 1 {
        assert(header_of(encs) == names[0]);
        crate::inet::lemma_split_whole(names[0], 44);
        Encoding::law_name_round_trip(last);
        assert(codings_of(header_of(encs)) =~= encs);
    } else {
        let front = encs.drop_last();
        lemma_header_bytes_round_trip(front);
        let fnames = front.map_values(|e: Encoding| encode_utf8(e.spec_name()));
        assert(names.drop_last() =~= fnames);
        assert(header_of(encs) == header_of(front) + seq![44u8, 32] + names.last());
        let y = seq![32u8] + names.last();
        assert(header_of(encs) =~= header_of(front) + seq![44u8] + y);
        crate::inet::lemma_split_concat(header_of(front), y, 44);
        assert forall|k: int| 0 <= k < y.len() implies y[k] != 44 by {
            if k > 0 {
                assert(y[k] == names.last()[k - 1]);
            }
        }
        crate::inet::lemma_split_whole(y, 44);
        Encoding::law_name_round_trip(last);
        let parts = split_on(header_of(encs), 44);
        assert(parts == split_on(header_of(front), 44) + seq![y]);
        assert forall|i: int| 0 <= i < parts.len() implies #[trigger] spec_encoding_of(trim(parts[i])) is Ok by {
            if i < split_on(header_of(front), 44).len() {
                assert(parts[i] == split_on(header_of(front), 44)[i]);
            }
        }
        assert(codings_of(header_of(encs)) =~= codings_of(header_of(front)).push(last));
        assert(encs =~= front.push(last));
    }
}

} // verus!
