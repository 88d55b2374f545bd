use vstd::prelude::*;
use vstd::string::StrSliceExecFns;

verus! {

// ---------------------------------------------------------------------------
// Substring search (used for codec selection on MIME type strings)
// ---------------------------------------------------------------------------

/// The pattern `pat` occurs in `s` starting at position `i`.
pub open spec fn matches_at(s: Seq<char>, pat: Seq<char>, i: int) -> bool {
    0 <= i && i + pat.len() <= s.len() && s.subrange(i, i + pat.len()) == pat
}

/// The pattern `pat` occurs somewhere in `s`.
pub open spec fn has_substring(s: Seq<char>, pat: Seq<char>) -> bool {
    exists|i: int| matches_at(s, pat, i)
}

/// Substring search: returns whether `pat` occurs in `s`.
pub fn str_contains(s: &str, pat: &str) -> (r: bool)
    ensures
        r == has_substring(s@, pat@),
{
    let n = s.unicode_len();
    let m = pat.unicode_len();
    if m > n {
        assert(forall|i: int| !matches_at(s@, pat@, i));
        return false;
    }
    let mut i: usize = 0;
    while i <= n - m
        invariant
            m <= n <= usize::MAX,
            n == s@.len(),
            m == pat@.len(),
            i <= n - m + 1,
            forall|k: int| 0 <= k < i ==> !matches_at(s@, pat@, k),
        decreases n - m + 1 - i,
    {
        let mut j: usize = 0;
        let mut all_eq = true;
        while j < m
            invariant
                m <= n <= usize::MAX,
                n == s@.len(),
                m == pat@.len(),
                i <= n - m,
                j <= m,
                all_eq <==> (forall|l: int| 0 <= l < j ==> s@[i + l] == pat@[l]),
            decreases m - j,
        {
            if s.get_char(i + j) != pat.get_char(j) {
                assert(!(s@[i + j as int] == pat@[j as int]));
                all_eq = false;
                j = m;
            } else {
                assert(s@[i + j as int] == pat@[j as int]);
                j = j + 1;
            }
        }
        if all_eq {
            assert(s@.subrange(i as int, i + pat@.len()) =~= pat@);
            assert(matches_at(s@, pat@, i as int));
            return true;
        }
        assert(!matches_at(s@, pat@, i as int));
        i = i + 1;
    }
    assert forall|k: int| !matches_at(s@, pat@, k) by {
        if 0 <= k <= n - m {
            assert(!matches_at(s@, pat@, k));
        }
    }
    false
}

// ---------------------------------------------------------------------------
// MIME inference (trusted lookup into the mime database)
// ---------------------------------------------------------------------------

/// What the MIME database associates with a path: a fixed, deterministic
/// lookup keyed by the path's extension.
pub uninterp spec fn mime_lookup_of(path: Seq<char>) -> Option<Seq<char>>;

/// Relies on mime_db::lookup: a pure lookup in a fixed compile-time table,
/// keyed by the extension of the given path; a function of the path alone.
#[verifier::external_body]
fn lookup_mime(path: &str) -> (r: Option<String>)
    ensures
        match r {
            Some(m) => mime_lookup_of(path@) == Some(m@),
            None => mime_lookup_of(path@) is None,
        },
{
    mime_db::lookup(path).map(|s| s.to_owned())
}

/// The MIME type inferred for a key: the database's answer, or the generic
/// octet-stream type when the database has none.
pub open spec fn spec_mime_of(path: Seq<char>) -> Seq<char> {
    match mime_lookup_of(path) {
        Some(m) => m,
        None => "application/octet-stream"@,
    }
}

/// Infers a MIME type for a key, defaulting to `application/octet-stream`.
pub fn infer_mime(path: &str) -> (r: String)
    ensures
        r@ == spec_mime_of(path@),
{
    match lookup_mime(path) {
        Some(m) => m,
        None => "application/octet-stream".to_owned(),
    }
}

// ---------------------------------------------------------------------------
// The two codecs (trusted transforms)
// ---------------------------------------------------------------------------

/// What the generic lossless forward transform produces on the given bytes.
pub uninterp spec fn zstd_encode_of(data: Seq<u8>) -> Seq<u8>;

/// What the generic lossless inverse transform produces: the original bytes
/// for a valid compressed frame, nothing otherwise.
pub uninterp spec fn zstd_decode_of(data: Seq<u8>) -> Option<Seq<u8>>;

/// What the lossy image transform produces: the re-encoded image for bytes
/// that decode as a recognized image, nothing otherwise.
pub uninterp spec fn webp_of(data: Seq<u8>) -> Option<Seq<u8>>;

/// Relies on zstd::stream::encode_all at the default level: deterministic
/// compression of the input bytes, which decode_all reverses exactly (zstd
/// is lossless). Reading from a slice and writing to a vector leave it no
/// failure source, so encoding always succeeds.
#[verifier::external_body]
fn zstd_compress(data: &Vec<u8>) -> (c: Vec<u8>)
    ensures
        c@ == zstd_encode_of(data@),
        zstd_decode_of(c@) == Some(data@),
{
    zstd::stream::encode_all(data.as_slice(), 0).expect("zstd encoding failed")
}

/// Relies on zstd::stream::decode_all: deterministic decompression that
/// succeeds exactly on valid zstd frames (reading from a slice cannot fail
/// for any other reason).
#[verifier::external_body]
fn zstd_decompress(data: &Vec<u8>) -> (r: Result<Vec<u8>, String>)
    ensures
        r matches Ok(v) ==> zstd_decode_of(data@) == Some(v@),
        r is Err ==> zstd_decode_of(data@) is None,
{
    zstd::stream::decode_all(data.as_slice()).map_err(|e| e.to_string())
}

/// Relies on image::load_from_memory (best-effort format detection and
/// decode) and webp::Encoder::encode_simple (lossy re-encoding at quality
/// 65): both are deterministic in the input bytes, and the chain fails
/// exactly when the bytes cannot be decoded as a supported image.
#[verifier::external_body]
fn webp_transcode(data: &Vec<u8>) -> (r: Result<Vec<u8>, String>)
    ensures
        r matches Ok(w) ==> webp_of(data@) == Some(w@),
        r is Err ==> webp_of(data@) is None,
{
    let image = image::load_from_memory(data.as_slice()).map_err(|e| e.to_string())?;
    let encoder = webp::Encoder::from_image(&image).map_err(|e| e.to_string())?;
    match encoder.encode_simple(false, 65u8.into()) {
        Ok(mem) => Ok(mem.to_vec()),
        Err(e) => Err(format!("{:?}", e)),
    }
}

// ---------------------------------------------------------------------------
// Codec selection and the Compression capability
// ---------------------------------------------------------------------------

/// The codec set: a lossy image transcoder for image content, a generic
/// lossless compressor for everything else.
pub enum Compressor {
    Zstd,
    Webp,
}

impl Compressor {
    /// The codec selected for a MIME type: the image codec exactly when the
    /// type denotes an image.
    pub open spec fn spec_for(mime: Seq<char>) -> Compressor {
        if has_substring(mime, "image"@) {
            Compressor::Webp
        } else {
            Compressor::Zstd
        }
    }

    /// Selects the codec for a MIME type.
    pub fn new(mime: &str) -> (r: Compressor)
        ensures
            r == Compressor::spec_for(mime@),
    {
        if str_contains(mime, "image") {
            Compressor::Webp
        } else {
            Compressor::Zstd
        }
    }
}

/// A paired forward/inverse byte transform. The forward transform either
/// rewrites the bytes or rejects them; the inverse recovers, from any
/// successful forward result, the bytes a reader is owed (`spec_recovered`):
/// the original input for a lossless codec, the transcoded form for the
/// lossy one.
pub trait Compression: Sized {
    /// The forward transform, or none where the codec rejects the input.
    spec fn spec_forward(&self, data: Seq<u8>) -> Option<Seq<u8>>;

    /// The inverse transform, or none where the bytes are not a valid
    /// transformed form.
    spec fn spec_inverse(&self, data: Seq<u8>) -> Option<Seq<u8>>;

    /// What a reader recovers after a successful forward transform of `data`.
    spec fn spec_recovered(&self, data: Seq<u8>) -> Seq<u8>;

    /// Applies the forward transform. Both codecs' forward transforms are
    /// deterministic in the bytes alone, so success is owed exactly where
    /// the transform is defined.
    fn compress(&self, data: &Vec<u8>) -> (r: Result<Vec<u8>, String>)
        ensures
            r matches Ok(c) ==> self.spec_forward(data@) == Some(c@)
                && self.spec_inverse(c@) == Some(self.spec_recovered(data@)),
            r is Ok <==> self.spec_forward(data@) is Some,
    ;

    /// Applies the inverse transform. Both codecs' inverses are deterministic
    /// in the bytes alone, so success is owed exactly where the inverse is
    /// defined.
    fn decompress(&self, data: &Vec<u8>) -> (r: Result<Vec<u8>, String>)
        ensures
            r matches Ok(v) ==> self.spec_inverse(data@) == Some(v@),
            r is Ok <==> self.spec_inverse(data@) is Some,
    ;
}

impl Compression for Compressor {
    open spec fn spec_forward(&self, data: Seq<u8>) -> Option<Seq<u8>> {
        match self {
            Compressor::Zstd => Some(zstd_encode_of(data)),
            Compressor::Webp => webp_of(data),
        }
    }

    open spec fn spec_inverse(&self, data: Seq<u8>) -> Option<Seq<u8>> {
        match self {
            Compressor::Zstd => zstd_decode_of(data),
            Compressor::Webp => Some(data),
        }
    }

    open spec fn spec_recovered(&self, data: Seq<u8>) -> Seq<u8> {
        match self {
            Compressor::Zstd => data,
            Compressor::Webp => webp_of(data)->Some_0,
        }
    }

    fn compress(&self, data: &Vec<u8>) -> (r: Result<Vec<u8>, String>) {
        match self {
            Compressor::Zstd => Ok(zstd_compress(data)),
            Compressor::Webp => webp_transcode(data),
        }
    }

    fn decompress(&self, data: &Vec<u8>) -> (r: Result<Vec<u8>, String>) {
        match self {
            Compressor::Zstd => zstd_decompress(data),
            Compressor::Webp => {
                let copy = clone_bytes(data);
                Ok(copy)
            },
        }
    }
}

/// An owned copy of a byte vector.
pub fn clone_bytes(v: &Vec<u8>) -> (r: Vec<u8>)
    ensures
        r@ == v@,
{
    let r = v.clone();
    proof {
        assert(r@ =~= v@);
    }
    r
}

} // verus!
