//! The request target of a request line: a path and an optional query.
use vstd::prelude::*;
use crate::bytes::copy_range;

verus! {

/// The request target of a request line, split at its first `?` into the
/// path and the query.
#[derive(Debug, Clone, PartialEq, Eq)]
pub struct Resource {
    pub path: Vec<u8>,
    pub query: Option<Vec<u8>>,
}

/// The path and the query of a request target, as byte sequences.
pub struct ResourceView {
    pub path: Seq<u8>,
    pub query: Option<Seq<u8>>,
}

impl View for Resource {
    type V = ResourceView;

    open spec fn view(&self) -> ResourceView {
        ResourceView {
            path: self.path@,
            query: match self.query {
                Some(q) => Some(q@),
                None => None,
            },
        }
    }
}

/// The view of a request target read from `t`: what comes before the first
/// `?` is the path, what comes after it the query.
pub open spec fn spec_resource(t: Seq<u8>) -> ResourceView {
    if exists|j: int| 0 <= j < t.len() && t[j] == 63 {
        let j = choose|j: int| 0 <= j < t.len() && t[j] == 63 && forall|k: int| 0 <= k < j ==> t[k] != 63;
        ResourceView { path: t.subrange(0, j), query: Some(t.subrange(j + 1, t.len() as int)) }
    } else {
        ResourceView { path: t, query: None }
    }
}

impl Resource {
    /// Reads a request target; an empty target is refused.
    pub fn try_from_bytes(t: &[u8]) -> (r: Result<Resource, ()>)
        ensures
            match r {
                Ok(res) => t@.len() > 0 && res@ == spec_resource(t@),
                Err(_) => t@.len() == 0,
            },
    {
        if t.len() == 0 {
            return Err(());
        }
        let mut j: usize = 0;
        while j < t.len()
            invariant
                0 <= j <= t.len(),
                forall|k: int| 0 <= k < j ==> t@[k] != 63,
            decreases t.len() - j,
        {
            if t[j] == 63 {
                let path = copy_range(t, 0, j);
                let query = copy_range(t, j + 1, t.len());
                let res = Resource { path, query: Some(query) };
                proof {
                    let jj = choose|jj: int| 0 <= jj < t@.len() && t@[jj] == 63 && forall|k: int| 0 <= k < jj ==> t@[k] != 63;
                    assert(jj == j as int) by {
                        if jj < j {
                            assert(t@[jj] != 63);
                        } else if jj > j {
                            assert(t@[j as int] != 63);
                        }
                    }
                }
                return Ok(res);
            }
            j += 1;
        }
        let path = copy_range(t, 0, t.len());
        assert(t@.subrange(0, t@.len() as int) =~= t@);
        Ok(Resource { path, query: None })
    }

    /// Splits the resource into its path and its query.
    pub fn disassemble(self) -> (r: (Vec<u8>, Option<Vec<u8>>))
        ensures
            r.0 == self.path,
            r.1 == self.query,
    {
        (self.path, self.query)
    }

    /// The path of the resource.
    pub fn path(&self) -> (r: &[u8])
        ensures
            r@ == self.path@,
    {
        self.path.as_slice()
    }

    /// The query of the resource, where there is one.
    pub fn query(&self) -> (r: Option<&Vec<u8>>)
        ensures
            r == match self.query {
                Some(ref q) => Some(q),
                None => None::<&Vec<u8>>,
            },
    {
        self.query.as_ref()
    }
}

/// The user part of a URL authority: a user name and a password.
#[derive(Debug, Clone, Default, PartialEq, Eq, Hash)]
pub struct User {
    user: String,
    password: String,
}

impl User {
    /// The user name and the password, as text.
    pub closed spec fn parts(&self) -> (Seq<char>, Seq<char>) {
        (self.user@, self.password@)
    }

    pub fn new(user: String, password: String) -> (r: Self)
        ensures
            r.parts() == (user@, password@),
    {
        User { user, password }
    }

    /// The user name.
    pub fn user(&self) -> (r: &str)
        ensures
            r@ == self.parts().0,
    {
        self.user.as_str()
    }

    /// The password.
    pub fn password(&self) -> (r: &str)
        ensures
            r@ == self.parts().1,
    {
        self.password.as_str()
    }
}

} // verus!
