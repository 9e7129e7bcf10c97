//! Content-derived identifiers.
//!
//! A `ContentId` is the library's own view of a content identifier: the
//! payload codec tag, the hash algorithm tag, and the digest bytes.  It is
//! immutable once computed and compared by byte equality.  Hashing and the
//! canonical text rendering are delegated to the `cid` and
//! `multihash-codetable` crates through trusted wrappers; everything the
//! ledger decides about identifiers happens on the plain fields.
use multihash_codetable::MultihashDigest;
use vstd::prelude::*;

verus! {

/// Multicodec tag for DAG-CBOR payloads, the codec every stored payload is
/// tagged with.
pub const DAG_CBOR: u64 = 0x71;

/// Multicodec tag for the SHA2-256 hash algorithm.
pub const SHA2_256: u64 = 0x12;

/// Number of bytes in a SHA2-256 digest.
pub const SHA2_256_LEN: usize = 32;

/// The mathematical value of a `ContentId`.
#[verifier::ext_equal]
pub ghost struct IdView {
    pub codec: u64,
    pub hash_alg: u64,
    pub digest: Seq<u8>,
}

/// A content identifier: hash-algorithm tag, payload codec tag, and digest
/// bytes.  Equality is field-for-field byte equality.
pub struct ContentId {
    pub codec: u64,
    pub hash_alg: u64,
    pub digest: Vec<u8>,
}

impl View for ContentId {
    type V = IdView;

    open spec fn view(&self) -> IdView {
        IdView { codec: self.codec, hash_alg: self.hash_alg, digest: self.digest@ }
    }
}

impl Clone for ContentId {
    fn clone(&self) -> (r: Self)
        ensures
            r@ == self@,
    {
        let r = ContentId {
            codec: self.codec,
            hash_alg: self.hash_alg,
            digest: clone_bytes(&self.digest),
        };
        proof {
            assert(r@ =~= self@);
        }
        r
    }
}

/// A byte-for-byte copy of a byte vector.
pub fn clone_bytes(v: &Vec<u8>) -> (r: Vec<u8>)
    ensures
        r@ == v@,
{
    let mut r: Vec<u8> = Vec::new();
    let mut i: usize = 0;
    while i < v.len()
        invariant
            i <= v@.len(),
            r@ == v@.take(i as int),
        decreases v@.len() - i,
    {
        r.push(v[i]);
        proof {
            assert(v@.take(i as int).push(v@[i as int]) =~= v@.take(i as int + 1));
        }
        i += 1;
    }
    proof {
        assert(v@.take(v@.len() as int) =~= v@);
    }
    r
}

impl ContentId {
    /// A digest short enough to be wrapped as a multihash.
    pub open spec fn wf(&self) -> bool {
        self.digest@.len() <= 64
    }

    /// Byte equality of identifiers, the equality the ledger keys on.
    pub fn same_id(&self, other: &ContentId) -> (r: bool)
        ensures
            r == (self@ == other@),
    {
        let r = self.codec == other.codec && self.hash_alg == other.hash_alg
            && bytes_eq(&self.digest, &other.digest);
        if r {
            assert(self@ =~= other@);
        }
        r
    }
}

/// Byte-for-byte equality of two byte vectors.
pub fn bytes_eq(a: &Vec<u8>, b: &Vec<u8>) -> (r: bool)
    ensures
        r == (a@ == b@),
{
    if a.len() != b.len() {
        return false;
    }
    let mut i: usize = 0;
    while i < a.len()
        invariant
            0 <= i <= a.len(),
            a.len() == b.len(),
            forall|j: int| 0 <= j < i ==> a@[j] == b@[j],
        decreases a.len() - i,
    {
        if a[i] != b[i] {
            return false;
        }
        i += 1;
    }
    proof {
        assert(a@ =~= b@);
    }
    true
}

/// The SHA2-256 digest of a byte sequence.  It is a function of the bytes
/// alone, the property the whole content-addressing scheme rests on.
pub uninterp spec fn sha256_of(data: Seq<u8>) -> Seq<u8>;

/// The canonical text rendering of a version-1 content identifier with the
/// given codec tag, hash-algorithm tag and digest.  The rendering is a
/// function of the three components alone.
pub uninterp spec fn id_text_of(codec: u64, hash_alg: u64, digest: Seq<u8>) -> Seq<char>;

/// What parsing a text identifier yields: the identifier's components, or
/// nothing for text that is not a well-formed identifier.
pub uninterp spec fn id_parse_of(s: Seq<char>) -> Option<IdView>;

/// Relies on `multihash_codetable::Code::Sha2_256.digest`: the SHA2-256
/// digest of the input bytes, always 32 bytes long, a function of the input
/// alone.
#[verifier::external_body]
pub fn sha256_digest(data: &Vec<u8>) -> (r: Vec<u8>)
    ensures
        r@ == sha256_of(data@),
        r@.len() == SHA2_256_LEN,
{
    multihash_codetable::Code::Sha2_256.digest(data.as_slice()).digest().to_vec()
}

/// Relies on `cid::Cid::new_v1` and its `Display` impl: a version-1
/// identifier renders as the multibase text of its binary form, which
/// determines and is determined by (codec, hash algorithm, digest); and on
/// `cid::Cid::try_from(&str)`, which parses that canonical text back to the
/// identical identifier.
#[verifier::external_body]
pub fn id_to_text(id: &ContentId) -> (r: String)
    requires
        id.wf(),
    ensures
        r@ == id_text_of(id.codec, id.hash_alg, id.digest@),
        id_parse_of(r@) == Some(id@),
{
    let mh = cid::multihash::Multihash::<64>::wrap(id.hash_alg, id.digest.as_slice()).unwrap();
    cid::Cid::new_v1(id.codec, mh).to_string()
}

/// Relies on `cid::Cid::try_from(&str)` and the accessors `codec`, `hash`:
/// parsing either fails or yields an identifier whose components are a
/// function of the text alone.
#[verifier::external_body]
pub fn id_from_text(s: &str) -> (r: Option<ContentId>)
    ensures
        match r {
            Some(id) => id_parse_of(s@) == Some(id@) && id.wf(),
            None => id_parse_of(s@) is None,
        },
{
    match cid::Cid::try_from(s) {
        Ok(c) => Some(
            ContentId {
                codec: c.codec(),
                hash_alg: c.hash().code(),
                digest: c.hash().digest().to_vec(),
            },
        ),
        Err(_) => None,
    }
}

} // verus!
