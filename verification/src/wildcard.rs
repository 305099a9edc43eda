//! A value that may be the glob `*`.
use vstd::prelude::*;

verus! {

/// Either the glob `*`, which matches anything, or a value.
#[derive(Debug, Clone, PartialEq, Eq, Hash)]
pub enum WildCardish<T> {
    /// *
    Glob,
    Value(T),
}

impl<T> Default for WildCardish<T> {
    fn default() -> (r: Self)
        ensures
            r is Glob,
    {
        WildCardish::Glob
    }
}

impl<T> WildCardish<T> {
    pub fn is_glob(&self) -> (r: bool)
        ensures
            r == (*self is Glob),
    {
        match self {
            WildCardish::Glob => true,
            WildCardish::Value(_) => false,
        }
    }

    pub fn as_ref(&self) -> (r: Option<&T>)
        ensures
            match *self {
                WildCardish::Glob => r is None,
                WildCardish::Value(t) => r == Some(&t),
            },
    {
        match self {
            WildCardish::Glob => None,
            WildCardish::Value(t) => Some(t),
        }
    }

    pub fn as_mut(&mut self) -> (r: Option<&mut T>)
        ensures
            match *old(self) {
                WildCardish::Glob => r is None && *final(self) == *old(self),
                WildCardish::Value(t) => r matches Some(v) && *v == t && *final(self) == WildCardish::Value(*final(v)),
            },
    {
        match self {
            WildCardish::Glob => None,
            WildCardish::Value(t) => Some(t),
        }
    }
}

} // verus!
