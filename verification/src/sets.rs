//! A set of byte strings, held in a `hashbrown::HashSet`.
use vstd::prelude::*;

verus! {

/// A set of byte strings, held in a `hashbrown::HashSet<Vec<u8>>`; the
/// order in which its items come out is the hash table's.
#[verifier::external_body]
pub struct ByteSet {
    set: hashbrown::HashSet<Vec<u8>>,
}

/// The byte strings that a set holds.
pub uninterp spec fn byte_set_contents(s: ByteSet) -> Set<Seq<u8>>;

/// The byte views of a list of byte buffers.
pub open spec fn bytes_views(v: Seq<Vec<u8>>) -> Seq<Seq<u8>> {
    v.map_values(|b: Vec<u8>| b@)
}

impl ByteSet {
    /// `HashSet::new`: an empty set.
    #[verifier::external_body]
    pub(crate) fn new() -> (r: ByteSet)
        ensures
            byte_set_contents(r) == Set::<Seq<u8>>::empty(),
    {
        ByteSet { set: hashbrown::HashSet::new() }
    }

    /// `HashSet::insert`: adds `v`; tells whether it was not there yet.
    #[verifier::external_body]
    pub(crate) fn insert(&mut self, v: Vec<u8>) -> (r: bool)
        ensures
            byte_set_contents(*final(self)) == byte_set_contents(*old(self)).insert(v@),
            r == !byte_set_contents(*old(self)).contains(v@),
    {
        self.set.insert(v)
    }

    /// `HashSet::contains`: is `v` in the set?
    #[verifier::external_body]
    pub(crate) fn contains(&self, v: &[u8]) -> (r: bool)
        ensures
            r == byte_set_contents(*self).contains(v@),
    {
        self.set.contains(v)
    }

    /// `HashSet::len`: the number of byte strings in the set.
    #[verifier::external_body]
    pub(crate) fn len(&self) -> (r: usize)
        ensures
            r == byte_set_contents(*self).len(),
    {
        self.set.len()
    }

    /// `HashSet::clear`: removes every byte string.
    #[verifier::external_body]
    pub(crate) fn clear(&mut self)
        ensures
            byte_set_contents(*final(self)) == Set::<Seq<u8>>::empty(),
    {
        self.set.clear()
    }

    /// `HashSet::iter`: the byte strings of the set, each once, in the hash
    /// table's order (which this contract leaves open).
    #[verifier::external_body]
    pub(crate) fn items(&self) -> (r: Vec<Vec<u8>>)
        ensures
            bytes_views(r@).no_duplicates(),
            bytes_views(r@).to_set() == byte_set_contents(*self),
    {
        self.set.iter().cloned().collect()
    }
}

impl ByteSet {
    /// A set that holds the bytes of each of `items`.
    pub fn of_strs(items: &[&str]) -> (r: ByteSet)
        ensures
            byte_set_contents(r) == crate::cors::str_names(items@),
    {
        let mut set = ByteSet::new();
        crate::cors::insert_strs(&mut set, items);
        assert(byte_set_contents(set) =~= crate::cors::str_names(items@));
        set
    }

    /// Does the set hold the byte string `v`?
    pub fn holds(&self, v: &[u8]) -> (r: bool)
        ensures
            r == byte_set_contents(*self).contains(v@),
    {
        self.contains(v)
    }

    /// The byte strings of the set, each once, in the hash table's order.
    pub fn to_vec(&self) -> (r: Vec<Vec<u8>>)
        ensures
            bytes_views(r@).no_duplicates(),
            bytes_views(r@).to_set() == byte_set_contents(*self),
    {
        self.items()
    }

    /// The number of byte strings in the set.
    pub fn count(&self) -> (r: usize)
        ensures
            r == byte_set_contents(*self).len(),
    {
        self.len()
    }
}

} // verus!
