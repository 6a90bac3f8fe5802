//! The content store: immutable texts addressed by the digest of their bytes.

use sha2::Digest;
use vstd::prelude::*;

use crate::error::Error;
use crate::strings::bytes_eq;

verus! {

/// Name for the SHA-512 digest of a text's UTF-8 bytes.
pub uninterp spec fn sha512_of(s: Seq<char>) -> Seq<u8>;

/// Relies on `sha2::Sha512::digest`: the 64-byte digest of the text's bytes,
/// which depends on those bytes alone.
#[verifier::external_body]
fn sha512(s: &str) -> (r: Vec<u8>)
    ensures
        r@ == sha512_of(s@),
        r@.len() == 64,
{
    sha2::Sha512::digest(s.as_bytes()).to_vec()
}

/// The store after writing `c` into `m`: unchanged when a text with the same
/// hash is already there.
pub open spec fn stored(m: Map<Seq<u8>, Seq<char>>, c: Seq<char>) -> Map<Seq<u8>, Seq<char>> {
    if m.contains_key(sha512_of(c)) {
        m
    } else {
        m.insert(sha512_of(c), c)
    }
}

/// The hash under which a text is stored.
pub fn text_hash(contents: &String) -> (r: Vec<u8>)
    ensures
        r@ == sha512_of(contents@),
{
    sha512(contents.as_str())
}

/// One stored text and its hash.
pub struct TextEntry {
    hash: Vec<u8>,
    contents: String,
}

/// Write-once storage of texts, deduplicated by hash.
pub struct TextStore {
    entries: Vec<TextEntry>,
    contents: Ghost<Map<Seq<u8>, Seq<char>>>,
}

impl View for TextStore {
    type V = Map<Seq<u8>, Seq<char>>;

    closed spec fn view(&self) -> Map<Seq<u8>, Seq<char>> {
        self.contents@
    }
}

impl TextStore {
    /// Every entry is keyed by its own hash, no hash occurs twice, and the
    /// entries are exactly the map that the store stands for.
    pub closed spec fn wf(&self) -> bool {
        &&& forall|i: int|
            0 <= i < self.entries@.len() ==> #[trigger] self.entries@[i].hash@ == sha512_of(
                self.entries@[i].contents@,
            )
        &&& forall|i: int, j: int|
            0 <= i < self.entries@.len() && 0 <= j < self.entries@.len() && i != j
                ==> #[trigger] self.entries@[i].hash@ != #[trigger] self.entries@[j].hash@
        &&& forall|i: int|
            0 <= i < self.entries@.len() ==> self.contents@.contains_key(
                #[trigger] self.entries@[i].hash@,
            ) && self.contents@[self.entries@[i].hash@] == self.entries@[i].contents@
        &&& forall|h: Seq<u8>|
            #[trigger] self.contents@.contains_key(h) ==> exists|i: int|
                0 <= i < self.entries@.len() && #[trigger] self.entries@[i].hash@ == h
    }

    /// Every stored text sits under its own hash.
    pub proof fn lemma_keyed_by_hash(&self)
        requires
            self.wf(),
        ensures
            forall|k: Seq<u8>| #[trigger] self@.contains_key(k) ==> k == sha512_of(self@[k]),
    {
        assert forall|k: Seq<u8>| #[trigger] self@.contains_key(k) implies k == sha512_of(self@[k]) by {
            let i = choose|i: int| 0 <= i < self.entries@.len() && #[trigger] self.entries@[i].hash@ == k;
            assert(self.entries@[i].hash@ == k);
        }
    }

    /// An empty store.
    pub fn new() -> (r: TextStore)
        ensures
            r.wf(),
            r@ == Map::<Seq<u8>, Seq<char>>::empty(),
    {
        TextStore { entries: Vec::new(), contents: Ghost(Map::empty()) }
    }

    /// The number of distinct texts stored.
    pub fn len(&self) -> (r: usize)
        requires
            self.wf(),
        ensures
            r == self@.dom().len(),
    {
        proof {
            self.lemma_len();
        }
        self.entries.len()
    }

    proof fn lemma_len(&self)
        requires
            self.wf(),
        ensures
            self@.dom().len() == self.entries@.len(),
        decreases self.entries@.len(),
    {
        let hs = self.entries@.map_values(|e: TextEntry| e.hash@);
        assert forall|i: int, j: int| 0 <= i < hs.len() && 0 <= j < hs.len() && i != j implies hs[i] != hs[j] by {
            assert(self.entries@[i].hash@ != self.entries@[j].hash@);
        }
        assert(hs.no_duplicates());
        assert forall|h: Seq<u8>| self@.dom().contains(h) <==> hs.to_set().contains(h) by {
            if self@.dom().contains(h) {
                let i = choose|i: int| 0 <= i < self.entries@.len() && #[trigger] self.entries@[i].hash@ == h;
                assert(hs[i] == h);
            }
            if hs.to_set().contains(h) {
                let i = choose|i: int| 0 <= i < hs.len() && hs[i] == h;
                assert(self.entries@[i].hash@ == h);
            }
        }
        assert(self@.dom() =~= hs.to_set());
        hs.unique_seq_to_set();
    }

    fn index_of(&self, hash: &Vec<u8>) -> (r: Option<usize>)
        requires
            self.wf(),
        ensures
            match r {
                Some(i) => i < self.entries@.len() && self.entries@[i as int].hash@ == hash@,
                None => !self@.contains_key(hash@),
            },
    {
        let mut i: usize = 0;
        while i < self.entries.len()
            invariant
                self.wf(),
                i <= self.entries@.len(),
                forall|k: int| 0 <= k < i ==> self.entries@[k].hash@ != hash@,
            decreases self.entries@.len() - i,
        {
            if bytes_eq(&self.entries[i].hash, hash) {
                return Some(i);
            }
            i = i + 1;
        }
        None
    }

    /// Stores `contents` unless a text with the same hash is already there,
    /// and returns the hash.
    pub fn put(&mut self, contents: String) -> (r: Vec<u8>)
        requires
            old(self).wf(),
        ensures
            final(self).wf(),
            r@ == sha512_of(contents@),
            final(self)@ == stored(old(self)@, contents@),
    {
        let hash = text_hash(&contents);
        match self.index_of(&hash) {
            Some(_) => {},
            None => {
                let ghost h = hash@;
                let ghost c = contents@;
                let entry = TextEntry { hash: hash.clone(), contents };
                self.entries.push(entry);
                self.contents = Ghost(self.contents@.insert(h, c));
                assert forall|g: Seq<u8>| #[trigger] self.contents@.contains_key(g) implies exists|i: int|
                    0 <= i < self.entries@.len() && #[trigger] self.entries@[i].hash@ == g by {
                    if g != h {
                        let i = choose|i: int| 0 <= i < old(self).entries@.len() && #[trigger] old(self).entries@[i].hash@ == g;
                        assert(self.entries@[i].hash@ == g);
                    } else {
                        assert(self.entries@[self.entries@.len() - 1].hash@ == g);
                    }
                }
            },
        }
        hash
    }

    /// The text stored under `hash`.
    pub fn get(&self, hash: &Vec<u8>) -> (r: Result<String, Error>)
        requires
            self.wf(),
        ensures
            match r {
                Ok(s) => self@.contains_key(hash@) && s@ == self@[hash@],
                Err(e) => !self@.contains_key(hash@) && e == Error::NotFound,
            },
    {
        match self.index_of(hash) {
            Some(i) => Ok(self.entries[i].contents.clone()),
            None => Err(Error::NotFound),
        }
    }

    /// The text stored under `hash` when `wanted` holds, and nothing otherwise.
    pub fn get_if(&self, wanted: bool, hash: &Vec<u8>) -> (r: Result<Option<String>, Error>)
        requires
            self.wf(),
        ensures
            !wanted ==> r == Ok::<Option<String>, Error>(None),
            wanted ==> match r {
                Ok(Some(s)) => self@.contains_key(hash@) && s@ == self@[hash@],
                Ok(None) => false,
                Err(e) => !self@.contains_key(hash@) && e == Error::NotFound,
            },
    {
        if wanted {
            match self.get(hash) {
                Ok(s) => Ok(Some(s)),
                Err(e) => Err(e),
            }
        } else {
            Ok(None)
        }
    }
}

/// Writing a text that is already stored returns the same hash as the first
/// write and leaves the store, and so its size, unchanged.
pub proof fn lemma_put_idempotent(m: Map<Seq<u8>, Seq<char>>, c: Seq<char>)
    ensures
        stored(stored(m, c), c) == stored(m, c),
        stored(stored(m, c), c).dom().len() == stored(m, c).dom().len(),
{
}

} // verus!
