//! Reading from a byte slice up to a delimiter or a count, with the
//! `embedded_io` reader of `&[u8]` doing the copying.
use vstd::prelude::*;
use core::convert::Infallible;

verus! {

/// The error of `embedded_io`'s `read_exact`, carried as is.
#[verifier::external_type_specification]
#[verifier::external_body]
#[verifier::reject_recursive_types(E)]
pub struct ExReadExactError<E>(embedded_io::ReadExactError<E>);

/// Why an extended read did not happen.
#[derive(Debug)]
pub enum ReadExtError<E> {
    DelimNotFound,
    BufTooSmall,
    Other(E),
}

/// `embedded_io::Read::read` for `&[u8]`: copies as many bytes as fit into
/// `buf` from the front of `src`, and moves `src` past them.
#[verifier::external_body]
fn slice_read(src: &mut &[u8], buf: &mut [u8]) -> (n: usize)
    ensures
        n == if old(buf)@.len() <= old(src)@.len() {
            old(buf)@.len()
        } else {
            old(src)@.len()
        },
        final(buf)@ == old(src)@.subrange(0, n as int) + old(buf)@.subrange(n as int, old(buf)@.len() as int),
        final(src)@ == old(src)@.subrange(n as int, old(src)@.len() as int),
{
    match embedded_io::Read::read(src, buf) {
        Ok(n) => n,
        Err(e) => match e {},
    }
}

/// `embedded_io::Read::read_exact` for `&[u8]`: when `src` holds enough
/// bytes, fills `buf` from its front and moves `src` past them; else
/// copies all of `src`, leaves it empty and fails.
#[verifier::external_body]
fn slice_read_exact(src: &mut &[u8], buf: &mut [u8]) -> (r: Result<(), embedded_io::ReadExactError<Infallible>>)
    ensures
        old(buf)@.len() <= old(src)@.len() ==> r is Ok,
        old(buf)@.len() <= old(src)@.len() ==> final(buf)@ == old(src)@.subrange(0, old(buf)@.len() as int),
        old(buf)@.len() <= old(src)@.len() ==> final(src)@ == old(src)@.subrange(
            old(buf)@.len() as int,
            old(src)@.len() as int,
        ),
        old(buf)@.len() > old(src)@.len() ==> r is Err,
        old(buf)@.len() > old(src)@.len() ==> final(buf)@ == old(src)@ + old(buf)@.subrange(
            old(src)@.len() as int,
            old(buf)@.len() as int,
        ),
        old(buf)@.len() > old(src)@.len() ==> final(src)@.len() == 0,
{
    embedded_io::Read::read_exact(src, buf)
}

/// The first index of `s` that holds `delim`, if any.
pub open spec fn position(s: Seq<u8>, delim: u8) -> Option<int> {
    crate::message::first_of(s, 0, delim)
}

/// The number of bytes that `read_until` copies, when it copies.
pub open spec fn until_count(src: Seq<u8>, buf_len: int, delim: u8) -> int {
    match position(src, delim) {
        Some(i) => i,
        None => if buf_len <= src.len() {
            buf_len
        } else {
            src.len() as int
        },
    }
}

/// Reads from `src` into `buf` up to the first `delim` (which stays in
/// `src`), or, without one, as much as fits; a buffer shorter than the
/// bytes before the delimiter is too small, and nothing is read.
pub fn read_until(src: &mut &[u8], buf: &mut [u8], delim: u8) -> (r: Result<
    usize,
    ReadExtError<embedded_io::ReadExactError<Infallible>>,
>)
    ensures
        (position(old(src)@, delim) matches Some(i) && old(buf)@.len() < i) ==> (r matches Err(
            ReadExtError::BufTooSmall,
        ) && final(src)@ == old(src)@ && final(buf)@ == old(buf)@),
        !(position(old(src)@, delim) matches Some(i) && old(buf)@.len() < i) ==> ({
            let n = until_count(old(src)@, old(buf)@.len() as int, delim);
            &&& r matches Ok(k) && k == n
            &&& final(buf)@ == old(src)@.subrange(0, n) + old(buf)@.subrange(n, old(buf)@.len() as int)
            &&& final(src)@ == old(src)@.subrange(n, old(src)@.len() as int)
        }),
{
    let s: &[u8] = *src;
    let mut i: usize = 0;
    while i < s.len()
        invariant
            i <= s@.len(),
            s@ == old(src)@,
            src@ == old(src)@,
            buf@ == old(buf)@,
            forall|k: int| 0 <= k < i ==> s@[k] != delim,
        decreases s@.len() - i,
    {
        if s[i] == delim {
            proof {
                assert(crate::message::is_first_of(s@, 0, i as int, delim));
                let j = choose|j: int| crate::message::is_first_of(s@, 0, j, delim);
                assert(j == i as int) by {
                    if j < i {
                        assert(s@[j] != delim);
                    } else if j > i {
                        assert(s@[i as int] == delim);
                    }
                }
            }
            if buf.len() < i {
                return Err(ReadExtError::BufTooSmall);
            }
            let ghost whole = buf@;
            let (head, _tail) = buf.split_at_mut(i);
            let res = slice_read_exact(src, head);
            proof {
                assert(res is Ok);
            }
            assert(buf@ =~= s@.subrange(0, i as int) + whole.subrange(i as int, whole.len() as int));
            return Ok(i);
        }
        i += 1;
    }
    proof {
        assert forall|j: int| !crate::message::is_first_of(s@, 0, j, delim) by {}
    }
    let n = slice_read(src, buf);
    Ok(n)
}

/// Reads exactly `range` bytes from `src` into the front of `buf`; a
/// buffer shorter than that is too small, and nothing is read.
pub fn read_to(src: &mut &[u8], buf: &mut [u8], range: usize) -> (r: Result<(), ReadExtError<Infallible>>)
    requires
        old(buf)@.len() < range || range <= old(src)@.len(),
    ensures
        old(buf)@.len() < range ==> (r matches Err(ReadExtError::BufTooSmall) && final(src)@ == old(src)@
            && final(buf)@ == old(buf)@),
        old(buf)@.len() >= range ==> (r is Ok && final(buf)@ == old(src)@.subrange(0, range as int) + old(
            buf,
        )@.subrange(range as int, old(buf)@.len() as int) && final(src)@ == old(src)@.subrange(
            range as int,
            old(src)@.len() as int,
        )),
{
    if buf.len() < range {
        return Err(ReadExtError::BufTooSmall);
    }
    let ghost whole = buf@;
    let ghost s = *src;
    let (head, _tail) = buf.split_at_mut(range);
    let res = slice_read_exact(src, head);
    proof {
        assert(res is Ok);
    }
    assert(buf@ =~= s@.subrange(0, range as int) + whole.subrange(range as int, whole.len() as int));
    Ok(())
}

} // verus!
