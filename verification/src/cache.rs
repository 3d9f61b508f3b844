//! The per-VM ephemeral key-value cache: one small file per key under the
//! VM's working directory.  The library computes the paths; reading and
//! writing the files is the caller's side.

use vstd::prelude::*;

verus! {

use vstd::string::StringExecFns;

#[derive(Debug)]
pub struct Cache {
    dir: String,
}

impl View for Cache {
    type V = Seq<char>;

    closed spec fn view(&self) -> Seq<char> {
        self.dir@
    }
}

impl Clone for Cache {
    fn clone(&self) -> (r: Self)
        ensures
            r@ == self@,
    {
        Cache { dir: self.dir.clone() }
    }
}

impl Cache {
    /// A cache rooted at the given directory.
    pub fn new(dir: &str) -> (r: Cache)
        ensures
            r@ == dir@,
    {
        Cache { dir: dir.to_owned() }
    }

    /// The file that holds the value of a key.
    pub fn path_for(&self, key: &str) -> (r: String)
        ensures
            r@ == self@ + "/"@ + key@,
    {
        let mut r = self.dir.clone();
        r.append("/");
        r.append(key);
        r
    }
}

} // verus!
