use vstd::prelude::*;
use vstd::string::*;
use vstd::bytes::spec_u64_to_le_bytes;
use vstd::utf8::encode_utf8;
use crate::document::{parse_document, parse_profile, Json};
use crate::model::{strs, Error, Profile};
use crate::store::Profiles;

verus! {

#[verifier::external_type_specification]
#[verifier::external_body]
pub struct ExBincodeErrorKind(bincode::ErrorKind);

#[verifier::external_type_specification]
#[verifier::external_body]
pub struct ExBatch(sled::Batch);

/// The key of the profile index in the key-value backend.
pub const INDEX_KEY: &'static str = "profiles";

/// The encoding of the profile index, as bincode writes a list of strings
/// with its default functions: the number of paths as an 8-byte
/// little-endian integer, then each path as its UTF-8 length, 8 bytes
/// little-endian, followed by its UTF-8 bytes.
pub open spec fn index_encoding(paths: Seq<Seq<char>>) -> Seq<u8> {
    spec_u64_to_le_bytes(paths.len() as u64) + index_entries(paths)
}

/// The encoded paths, one after another, each prefixed by its length.
pub open spec fn index_entries(paths: Seq<Seq<char>>) -> Seq<u8>
    decreases paths.len(),
{
    if paths.len() == 0 {
        Seq::empty()
    } else {
        let last = encode_utf8(paths.last());
        index_entries(paths.drop_last()) + spec_u64_to_le_bytes(last.len() as u64) + last
    }
}

/// The list of path strings that bincode reads from some bytes, or `None`
/// when they hold no such list.
pub uninterp spec fn index_decoding(bytes: Seq<u8>) -> Option<Seq<Seq<char>>>;

/// The writes a batch holds: for each key, the value to set, or `None` for
/// a removal.
pub uninterp spec fn batch_writes(b: sled::Batch) -> Map<Seq<u8>, Option<Seq<u8>>>;

/// Relies on bincode::serialize (fixed-width integers, length-prefixed
/// UTF-8 strings): it encodes the list, and bincode::deserialize reads the
/// same list back from what it wrote. On a list of strings it does not
/// fail: the length of a sequence is always known, the default options set
/// no size limit, and writing into a `Vec` does not fail.
#[verifier::external_body]
fn encode_paths(paths: &Vec<String>) -> (r: Result<Vec<u8>, Box<bincode::ErrorKind>>)
    ensures
        r is Ok,
        r matches Ok(b) ==> b@ == index_encoding(strs(*paths)) && index_decoding(b@) == Some(
            strs(*paths),
        ),
{
    bincode::serialize(paths)
}

/// Relies on bincode::deserialize: it reads a list of strings, and fails
/// on bytes that hold none.
#[verifier::external_body]
fn decode_paths(bytes: &[u8]) -> (r: Result<Vec<String>, Box<bincode::ErrorKind>>)
    ensures
        match index_decoding(bytes@) {
            Some(p) => (r matches Ok(v) && strs(v) == p),
            None => r is Err,
        },
{
    bincode::deserialize(bytes)
}

/// Relies on sled::Batch::insert: it records that `key` is to be set to
/// `value`, replacing any write of that key recorded before.
#[verifier::external_body]
fn batch_insert(batch: &mut sled::Batch, key: &str, value: Vec<u8>)
    ensures
        batch_writes(*final(batch)) == batch_writes(*old(batch)).insert(
            key.spec_bytes(),
            Some(value@),
        ),
{
    batch.insert(key, value);
}

fn index_error(e: Box<bincode::ErrorKind>) -> (r: Error)
    ensures
        r is SerializationError,
{
    Error::SerializationError(String::from_str("malformed profile index"))
}

/// Reads the stored index. No stored index means no profiles; an index
/// that does not decode is an error.
pub fn decode_index(stored: Option<Vec<u8>>) -> (r: Result<Vec<String>, Error>)
    ensures
        stored is None ==> (r matches Ok(v) && v@.len() == 0),
        stored matches Some(b) ==> match index_decoding(b@) {
            Some(p) => (r matches Ok(v) && strs(v) == p),
            None => (r matches Err(e) && e is SerializationError),
        },
{
    match stored {
        None => Ok(Vec::new()),
        Some(b) => match decode_paths(b.as_slice()) {
            Ok(v) => Ok(v),
            Err(e) => Err(index_error(e)),
        },
    }
}

/// What a successful load from `paths` and their documents holds: every
/// listed path, each with what its document describes.
pub open spec fn loaded_from(paths: Seq<Seq<char>>, docs: Seq<Json>, m: Map<Seq<char>, crate::model::ProfileModel>) -> bool {
    &&& forall|i: int| 0 <= i < paths.len() ==> #[trigger] m.contains_key(paths[i])
    &&& forall|k: Seq<char>| #[trigger] m.contains_key(k) ==> exists|i: int|
        0 <= i < paths.len() && paths[i] == k && m[k].path == k && Some(m[k].body) == parse_document(docs[i])
}

impl Profiles {
    /// The encoded index of the store: the list of its paths.
    pub fn index_bytes(&self) -> (r: Result<Vec<u8>, Error>)
        requires
            self.wf(),
        ensures
            r is Ok,
            r matches Ok(b) ==> b@ == index_encoding(self.path_seq()) && index_decoding(b@) == Some(
                self.path_seq(),
            ),
            r matches Err(e) ==> e is SerializationError,
    {
        let paths = self.paths();
        match encode_paths(&paths) {
            Ok(b) => Ok(b),
            Err(e) => Err(index_error(e)),
        }
    }

    /// Records the index rewrite in `batch`: the stored paths, each once,
    /// encoded so that they decode back to the same list. The sidecar files
    /// are written by the caller, from `crate::document::render_profile`.
    pub fn sync(&self, batch: &mut sled::Batch) -> (r: Result<(), Error>)
        requires
            self.wf(),
        ensures
            r is Ok,
            batch_writes(*final(batch)) == batch_writes(*old(batch)).insert(
                INDEX_KEY.spec_bytes(),
                Some(index_encoding(self.path_seq())),
            ),
            index_decoding(index_encoding(self.path_seq())) == Some(self.path_seq()),
            crate::model::distinct(self.path_seq()),
            forall|k: Seq<char>| #[trigger] self@.contains_key(k) <==> self.path_seq().contains(k),
    {
        let b = self.index_bytes()?;
        batch_insert(batch, INDEX_KEY, b);
        proof {
            assert forall|k: Seq<char>| #[trigger] self@.contains_key(k) <==> self.path_seq().contains(k) by {
                self.lemma_path_seq(k);
            }
            self.lemma_path_seq(Seq::empty());
        }
        Ok(())
    }

    /// Builds the store from the listed paths and the documents read from
    /// them, in the same order. Loading fails as a whole on the first
    /// document that does not describe a profile.
    pub fn load(paths: Vec<String>, docs: Vec<Json>) -> (r: Result<Profiles, Error>)
        requires
            paths.len() == docs.len(),
        ensures
            r is Err <==> exists|i: int| 0 <= i < docs.len() && (#[trigger] parse_document(docs@[i])) is None,
            r matches Err(e) ==> e is SerializationError,
            r matches Ok(s) ==> s.wf() && loaded_from(strs(paths), docs@, s@),
    {
        let mut loaded: Vec<Profile> = Vec::new();
        let mut i: usize = 0;
        while i < paths.len()
            invariant
                paths.len() == docs.len(),
                i <= paths.len(),
                loaded.len() == i,
                forall|j: int| 0 <= j < i ==> (#[trigger] loaded@[j])@.path == paths@[j]@,
                forall|j: int| 0 <= j < i ==> Some((#[trigger] loaded@[j])@.body) == parse_document(docs@[j]),
                forall|j: int| 0 <= j < i ==> (#[trigger] loaded@[j]).wf(),
            decreases paths.len() - i,
        {
            match parse_profile(&docs[i], paths[i].clone()) {
                Ok(p) => loaded.push(p),
                Err(e) => {
                    return Err(e);
                },
            }
            i = i + 1;
        }
        let s = Profiles::init(loaded);
        proof {
            assert forall|j: int| 0 <= j < docs.len() implies (#[trigger] parse_document(docs@[j])) is Some by {
                assert(Some(loaded@[j]@.body) == parse_document(docs@[j]));
            }
            {
                assert forall|k: Seq<char>| #[trigger] s@.contains_key(k) implies exists|j: int|
                    0 <= j < strs(paths).len() && strs(paths)[j] == k && s@[k].path == k && Some(s@[k].body)
                        == parse_document(docs@[j]) by {
                    let j = choose|j: int| 0 <= j < loaded.len() && loaded@[j]@ == s@[k];
                    s.lemma_keys_are_paths(k);
                    assert(strs(paths)[j] == k);
                }
                assert forall|j: int| 0 <= j < strs(paths).len() implies #[trigger] s@.contains_key(strs(paths)[j]) by {
                    assert(s@.contains_key(loaded@[j].path@));
                }
            }
        }
        Ok(s)
    }
}

/// Store round trip: write a store out, its index (as `sync` records it,
/// decoding back to the stored paths) and each path's document describing
/// that profile, then read the index back and load the documents of the
/// paths it lists; the loaded store holds, at each path of the written
/// store, a profile equal to the one written.
pub proof fn law_store_round_trip(
    s: Profiles,
    x: Seq<char>,
    paths: Seq<Seq<char>>,
    docs: Seq<Json>,
    reloaded: Map<Seq<char>, crate::model::ProfileModel>,
)
    requires
        s.wf(),
        s@.contains_key(x),
        index_decoding(index_encoding(s.path_seq())) == Some(s.path_seq()),
        index_decoding(index_encoding(s.path_seq())) == Some(paths),
        docs.len() == paths.len(),
        forall|i: int| 0 <= i < docs.len() ==> #[trigger] parse_document(docs[i]) == Some(s@[paths[i]].body),
        loaded_from(paths, docs, reloaded),
    ensures
        reloaded.contains_key(x),
        reloaded[x] == s@[x],
{
    assert(paths == s.path_seq());
    s.lemma_path_seq(x);
    let i = choose|i: int| 0 <= i < paths.len() && paths[i] == x;
    assert(reloaded.contains_key(paths[i]));
    let j = choose|j: int| 0 <= j < paths.len() && paths[j] == x && reloaded[x].path == x
        && Some(reloaded[x].body) == parse_document(docs[j]);
    assert(parse_document(docs[j]) == Some(s@[paths[j]].body));
    s.lemma_keys_are_paths(x);
}

} // verus!
