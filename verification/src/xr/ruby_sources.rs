use vstd::prelude::*;

use crate::text::str_chars;

verus! {

/// The repository whose Ruby sources are loaded.
pub const AIRBRAKE_ID: &'static str = "airbrake";

/// What the local clone of a repository is named after.
pub const PREFIX: &'static str = "_.popgit-slaesh-";

/// A GitHub repository, named by `owner/name`, or by one name that is both.
pub struct Github<'a>(pub &'a str);

/// The full name of the repository named `id`: `id` itself when it holds a
/// `/`, else `id/id`.
pub open spec fn full_id_of(id: Seq<char>) -> Seq<char> {
    if id.contains('/') {
        id
    } else {
        id + seq!['/'] + id
    }
}

impl<'a> Github<'a> {
    /// The name the repository is given.
    pub fn id(&self) -> (r: String)
        ensures
            r@ == self.0@,
    {
        self.0.to_owned()
    }

    /// The repository's full name.
    pub fn full_id(&self) -> (r: String)
        ensures
            r@ == full_id_of(self.0@),
    {
        let id = self.id();
        let cs = str_chars(id.as_str());
        let mut i: usize = 0;
        while i < cs.len()
            invariant
                cs@ == self.0@,
                id@ == self.0@,
                0 <= i <= cs@.len(),
                forall|j: int| 0 <= j < i ==> cs@[j] != '/',
            decreases cs@.len() - i,
        {
            if cs[i] == '/' {
                assert(self.0@[i as int] == '/');
                assert(self.0@.contains('/'));
                return id;
            }
            i = i + 1;
        }
        assert(!self.0@.contains('/'));
        proof {
            reveal_strlit("/");
        }
        let mut full = id.as_str().to_owned();
        full.append("/");
        full.append(id.as_str());
        full
    }

    /// The repository's address on GitHub.
    pub fn url(&self) -> (r: String)
        ensures
            r@ == "https://github.com/"@ + full_id_of(self.0@),
    {
        let mut r = "https://github.com/".to_owned();
        let f = self.full_id();
        r.append(f.as_str());
        r
    }

    /// Where the repository is cloned to.
    pub fn target(&self) -> (r: String)
        ensures
            r@ == PREFIX@ + full_id_of(self.0@),
    {
        let mut r = PREFIX.to_owned();
        let f = self.full_id();
        r.append(f.as_str());
        r
    }
}

} // verus!
