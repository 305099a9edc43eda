//! Trimming of Unicode white space at both ends of UTF-8 text, as
//! `str::trim` does it, on bytes.
use vstd::prelude::*;

verus! {

/// The length of the UTF-8 encoded white space character (Unicode
/// `White_Space`) that `s` starts with, or 0 when it starts with none.
pub open spec fn ws_front(s: Seq<u8>) -> int {
    if s.len() >= 1 && ((9 <= s[0] <= 13) || s[0] == 32) {
        1
    } else if s.len() >= 2 && s[0] == 0xC2 && (s[1] == 0x85 || s[1] == 0xA0) {
        2
    } else if s.len() >= 3 && ((s[0] == 0xE1 && s[1] == 0x9A && s[2] == 0x80) || (s[0] == 0xE2 && s[1] == 0x80 && (
    (0x80 <= s[2] <= 0x8A) || s[2] == 0xA8 || s[2] == 0xA9 || s[2] == 0xAF)) || (s[0] == 0xE2 && s[1] == 0x81 && s[2]
        == 0x9F) || (s[0] == 0xE3 && s[1] == 0x80 && s[2] == 0x80)) {
        3
    } else {
        0
    }
}

/// The length of the UTF-8 encoded white space character that `s` ends
/// with, or 0 when it ends with none.
pub open spec fn ws_back(s: Seq<u8>) -> int {
    let n = s.len() as int;
    if n >= 1 && ((9 <= s[n - 1] <= 13) || s[n - 1] == 32) {
        1
    } else if n >= 2 && ws_front(s.subrange(n - 2, n)) == 2 {
        2
    } else if n >= 3 && ws_front(s.subrange(n - 3, n)) == 3 {
        3
    } else {
        0
    }
}

/// `s` without the white space at its start.
pub open spec fn trim_start(s: Seq<u8>) -> Seq<u8>
    decreases s.len(),
{
    let k = ws_front(s);
    if 0 < k <= s.len() {
        trim_start(s.subrange(k, s.len() as int))
    } else {
        s
    }
}

/// `s` without the white space at its end.
pub open spec fn trim_end(s: Seq<u8>) -> Seq<u8>
    decreases s.len(),
{
    let k = ws_back(s);
    if 0 < k <= s.len() {
        trim_end(s.subrange(0, s.len() - k))
    } else {
        s
    }
}

/// `s` without white space at either end.
pub open spec fn trim(s: Seq<u8>) -> Seq<u8> {
    trim_end(trim_start(s))
}

/// `n` ASCII spaces.
pub open spec fn spaces(n: nat) -> Seq<u8> {
    Seq::new(n, |k: int| 32u8)
}

/// Spaces in front are trimmed away.
pub proof fn lemma_trim_start_spaces(n: nat, x: Seq<u8>)
    ensures
        trim_start(spaces(n) + x) == trim_start(x),
    decreases n,
{
    if n > 0 {
        let s = spaces(n) + x;
        assert(s[0] == 32u8);
        assert(ws_front(s) == 1);
        assert(s.subrange(1, s.len() as int) =~= spaces((n - 1) as nat) + x);
        lemma_trim_start_spaces((n - 1) as nat, x);
    } else {
        assert(spaces(n) + x =~= x);
    }
}

/// Spaces at the end are trimmed away.
pub proof fn lemma_trim_end_spaces(x: Seq<u8>, n: nat)
    ensures
        trim_end(x + spaces(n)) == trim_end(x),
    decreases n,
{
    if n > 0 {
        let s = x + spaces(n);
        assert(s[s.len() - 1] == 32u8);
        assert(ws_back(s) == 1);
        assert(s.subrange(0, s.len() - 1) =~= x + spaces((n - 1) as nat));
        lemma_trim_end_spaces(x, (n - 1) as nat);
    } else {
        assert(x + spaces(n) =~= x);
    }
}

fn ws_front_len(s: &[u8], from: usize, to: usize) -> (r: usize)
    requires
        from <= to <= s.len(),
    ensures
        r == ws_front(s@.subrange(from as int, to as int)),
{
    let n = to - from;
    let ghost t = s@.subrange(from as int, to as int);
    if n >= 1 && ((9 <= s[from] && s[from] <= 13) || s[from] == 32) {
        assert(t[0] == s@[from as int]);
        1
    } else if n >= 2 && s[from] == 0xC2 && (s[from + 1] == 0x85 || s[from + 1] == 0xA0) {
        assert(t[0] == s@[from as int] && t[1] == s@[from + 1]);
        2
    } else if n >= 3 && ((s[from] == 0xE1 && s[from + 1] == 0x9A && s[from + 2] == 0x80) || (s[from] == 0xE2 && s[from
        + 1] == 0x80 && ((0x80 <= s[from + 2] && s[from + 2] <= 0x8A) || s[from + 2] == 0xA8 || s[from + 2] == 0xA9
        || s[from + 2] == 0xAF)) || (s[from] == 0xE2 && s[from + 1] == 0x81 && s[from + 2] == 0x9F) || (s[from]
        == 0xE3 && s[from + 1] == 0x80 && s[from + 2] == 0x80)) {
        assert(t[0] == s@[from as int] && t[1] == s@[from + 1] && t[2] == s@[from + 2]);
        3
    } else {
        proof {
            if n >= 1 {
                assert(t[0] == s@[from as int]);
            }
            if n >= 2 {
                assert(t[1] == s@[from + 1]);
            }
            if n >= 3 {
                assert(t[2] == s@[from + 2]);
            }
        }
        0
    }
}

fn ws_back_len(s: &[u8], from: usize, to: usize) -> (r: usize)
    requires
        from <= to <= s.len(),
    ensures
        r == ws_back(s@.subrange(from as int, to as int)),
{
    let n = to - from;
    let ghost t = s@.subrange(from as int, to as int);
    if n >= 1 && ((9 <= s[to - 1] && s[to - 1] <= 13) || s[to - 1] == 32) {
        assert(t[n - 1] == s@[to - 1]);
        1
    } else {
        proof {
            if n >= 1 {
                assert(t[n - 1] == s@[to - 1]);
            }
        }
        if n >= 2 && ws_front_len(s, to - 2, to) == 2 {
            assert(t.subrange(n - 2, n as int) =~= s@.subrange(to - 2, to as int));
            2
        } else {
            proof {
                if n >= 2 {
                    assert(t.subrange(n - 2, n as int) =~= s@.subrange(to - 2, to as int));
                }
            }
            if n >= 3 && ws_front_len(s, to - 3, to) == 3 {
                assert(t.subrange(n - 3, n as int) =~= s@.subrange(to - 3, to as int));
                3
            } else {
                proof {
                    if n >= 3 {
                        assert(t.subrange(n - 3, n as int) =~= s@.subrange(to - 3, to as int));
                    }
                }
                0
            }
        }
    }
}

/// The bounds of `s` without white space at either end (see `trim`).
pub fn trim_bounds(s: &[u8]) -> (r: (usize, usize))
    ensures
        r.0 <= r.1 <= s@.len(),
        s@.subrange(r.0 as int, r.1 as int) == trim(s@),
{
    let mut start: usize = 0;
    let len = s.len();
    assert(s@.subrange(0, len as int) =~= s@);
    loop
        invariant
            start <= len == s@.len(),
            trim_start(s@) == trim_start(s@.subrange(start as int, len as int)),
        ensures
            start <= len == s@.len(),
            trim_start(s@) == trim_start(s@.subrange(start as int, len as int)),
            ws_front(s@.subrange(start as int, len as int)) == 0,
        decreases len - start,
    {
        let k = ws_front_len(s, start, len);
        if k == 0 {
            break;
        }
        proof {
            let t = s@.subrange(start as int, len as int);
            assert(t.subrange(k as int, t.len() as int) =~= s@.subrange(start + k, len as int));
        }
        start = start + k;
    }
    let ghost front = s@.subrange(start as int, len as int);
    assert(trim_start(s@) == front);
    let mut end: usize = len;
    assert(front.subrange(0, front.len() as int) =~= front);
    loop
        invariant
            start <= end <= len == s@.len(),
            front == s@.subrange(start as int, len as int),
            trim_end(front) == trim_end(s@.subrange(start as int, end as int)),
        ensures
            start <= end <= len == s@.len(),
            trim_end(front) == trim_end(s@.subrange(start as int, end as int)),
            ws_back(s@.subrange(start as int, end as int)) == 0,
        decreases end - start,
    {
        let k = ws_back_len(s, start, end);
        if k == 0 {
            break;
        }
        proof {
            let t = s@.subrange(start as int, end as int);
            assert(t.subrange(0, t.len() - k) =~= s@.subrange(start as int, end - k));
        }
        end = end - k;
    }
    assert(trim_end(s@.subrange(start as int, end as int)) == s@.subrange(start as int, end as int));
    (start, end)
}

} // verus!
