use vstd::prelude::*;

use crate::text::str_eq;

verus! {

/// A path relative to the asset root, without the slashes that may lead it.
pub open spec fn rel(p: Seq<char>) -> Seq<char>
    decreases p.len(),
{
    if p.len() > 0 && p[0] == '/' {
        rel(p.drop_first())
    } else {
        p
    }
}

/// What an entry list says of `key`: `None` when no entry has it, else the
/// contents of the first entry that has it (`None` for a file that cannot be
/// read as text).
pub open spec fn lookup(entries: Seq<(Seq<char>, Option<Seq<char>>)>, key: Seq<char>) -> Option<
    Option<Seq<char>>,
>
    decreases entries.len(),
{
    if entries.len() == 0 {
        None
    } else if entries[0].0 == key {
        Some(entries[0].1)
    } else {
        lookup(entries.drop_first(), key)
    }
}

pub open spec fn entry_view(e: (String, Option<String>)) -> (Seq<char>, Option<Seq<char>>) {
    (
        e.0@,
        match e.1 {
            Some(c) => Some(c@),
            None => None,
        },
    )
}

/// The file name served for the root path.
pub open spec fn index_document() -> Seq<char> {
    "index.html"@
}

pub open spec fn bad_request_document() -> Seq<char> {
    "badRequest.html"@
}

pub open spec fn not_found_document() -> Seq<char> {
    "notFound.html"@
}

/// The static files a server answers from, addressed by paths relative to
/// the asset root.
#[derive(Debug)]
pub struct AssetStore {
    files: Vec<(String, Option<String>)>,
}

/// Drops the slashes that lead a path.
fn trim_root(p: &str) -> (r: &str)
    ensures
        r@ == rel(p@),
{
    let n = p.unicode_len();
    let mut k: usize = 0;
    assert(p@.skip(0) =~= p@);
    while k < n && p.get_char(k) == '/'
        invariant
            n == p@.len(),
            k <= n,
            rel(p@) == rel(p@.skip(k as int)),
        decreases n - k,
    {
        proof {
            assert(p@.skip(k as int).drop_first() =~= p@.skip(k + 1));
        }
        k = k + 1;
    }
    let r = p.substring_char(k, n);
    proof {
        assert(r@ =~= p@.skip(k as int));
    }
    r
}

impl AssetStore {
    pub closed spec fn entries(&self) -> Seq<(Seq<char>, Option<Seq<char>>)> {
        self.files@.map_values(|e: (String, Option<String>)| entry_view(e))
    }

    /// What the store holds at `path`: `None` when nothing is there,
    /// `Some(None)` for a file that cannot be read as text.
    pub open spec fn spec_get(&self, path: Seq<char>) -> Option<Option<Seq<char>>> {
        lookup(self.entries(), rel(path))
    }

    pub open spec fn spec_exists(&self, path: Seq<char>) -> bool {
        self.spec_get(path) is Some
    }

    /// The text of the file at `path`, when there is one that can be read.
    pub open spec fn spec_read(&self, path: Seq<char>) -> Option<Seq<char>> {
        match self.spec_get(path) {
            Some(Some(c)) => Some(c),
            _ => None,
        }
    }

    /// Whether the three documents the server answers with by name can be
    /// read.
    pub open spec fn serves_documents(&self) -> bool {
        &&& self.spec_read(index_document()) is Some
        &&& self.spec_read(bad_request_document()) is Some
        &&& self.spec_read(not_found_document()) is Some
    }

    pub fn new() -> (r: AssetStore)
        ensures
            forall|p: Seq<char>| r.spec_get(p) is None,
    {
        let r = AssetStore { files: Vec::new() };
        assert(r.entries() =~= Seq::<(Seq<char>, Option<Seq<char>>)>::empty());
        r
    }

    fn put(&mut self, path: &str, contents: Option<String>)
        ensures
            forall|p: Seq<char>|
                #![auto]
                final(self).spec_get(p) == if rel(p) == rel(path@) {
                    Some(
                        match contents {
                            Some(c) => Some(c@),
                            None => None,
                        },
                    )
                } else {
                    old(self).spec_get(p)
                },
    {
        let key = trim_root(path).to_owned();
        let e = (key, contents);
        let ghost ev = entry_view(e);
        self.files.insert(0, e);
        proof {
            assert(self.entries() =~= seq![ev] + old(self).entries());
            assert(self.entries().drop_first() =~= old(self).entries());
        }
    }

    /// Puts a readable file with the given text at `path`, replacing what was
    /// there.
    pub fn add(&mut self, path: &str, contents: String)
        ensures
            forall|p: Seq<char>|
                #![auto]
                final(self).spec_get(p) == if rel(p) == rel(path@) {
                    Some(Some(contents@))
                } else {
                    old(self).spec_get(p)
                },
    {
        self.put(path, Some(contents));
    }

    /// Records that a file exists at `path` whose text cannot be read.
    pub fn add_unreadable(&mut self, path: &str)
        ensures
            forall|p: Seq<char>|
                #![auto]
                final(self).spec_get(p) == if rel(p) == rel(path@) {
                    Some(None)
                } else {
                    old(self).spec_get(p)
                },
    {
        self.put(path, None);
    }

    fn find(&self, path: &str) -> (r: Option<&Option<String>>)
        ensures
            match r {
                None => self.spec_get(path@) is None,
                Some(c) => self.spec_get(path@) == Some(
                    match c {
                        Some(s) => Some(s@),
                        None => None,
                    },
                ),
            },
    {
        let key = trim_root(path);
        let mut i: usize = 0;
        assert(self.entries().skip(0) =~= self.entries());
        while i < self.files.len()
            invariant
                key@ == rel(path@),
                i <= self.files@.len(),
                lookup(self.entries(), key@) == lookup(self.entries().skip(i as int), key@),
            decreases self.files@.len() - i,
        {
            proof {
                assert(self.entries().skip(i as int)[0] == entry_view(self.files@[i as int]));
                assert(self.entries().skip(i as int).drop_first() =~= self.entries().skip(i + 1));
            }
            if str_eq(self.files[i].0.as_str(), key) {
                return Some(&self.files[i].1);
            }
            i = i + 1;
        }
        None
    }

    pub fn contains(&self, path: &str) -> (r: bool)
        ensures
            r == self.spec_exists(path@),
    {
        self.find(path).is_some()
    }

    pub fn read_text(&self, path: &str) -> (r: Option<String>)
        ensures
            match r {
                Some(c) => self.spec_read(path@) == Some(c@),
                None => self.spec_read(path@) is None,
            },
    {
        match self.find(path) {
            Some(Some(c)) => Some(c.clone()),
            _ => None,
        }
    }

    /// Whether the documents the server answers with by name can be read.
    pub fn has_documents(&self) -> (r: bool)
        ensures
            r == self.serves_documents(),
    {
        self.read_text("index.html").is_some() && self.read_text("badRequest.html").is_some()
            && self.read_text("notFound.html").is_some()
    }
}

} // verus!
