//! Conversions between header values and the types they carry, for users
//! to implement.
use vstd::prelude::*;
use crate::status::ErrorStatus;

verus! {

/// converts a header type into Self
pub trait FromHeader<H>: Sized {
    fn from_header(h: H) -> Self;
}

/// converts many headers into Self
pub trait FromHeaders<H>: Sized {
    fn from_headers(h: H) -> Self;
}

/// converts many headers into values of Self
pub trait IterFromHeaders<H>: Sized {
    fn iter_from_headers(h: H) -> Vec<Self>;
}

/// converts Self into a header type
pub trait IntoHeader<H>: Sized {
    fn into_header(self) -> Result<H, ErrorStatus>;
}

/// converts Self into many headers
pub trait IntoHeaders<H>: Sized {
    fn into_headers(self) -> Result<H, ErrorStatus>;
}

/// converts values of Self into a group of headers
pub trait IterIntoHeaders<H>: Sized {
    fn iter_into_headers(i: Vec<Self>) -> Result<H, ErrorStatus>;
}

} // verus!
