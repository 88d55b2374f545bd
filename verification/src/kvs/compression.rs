use vstd::prelude::*;

use crate::compression::{
    infer_mime, spec_mime_of, webp_of, zstd_encode_of, Compression, Compressor,
};
use crate::kvs::{Kvs, KvsError};

verus! {

/// The codec chosen for a key: selected from the MIME type inferred from the
/// key, the same way on every operation.
pub open spec fn codec_for(key: Seq<char>) -> Compressor {
    Compressor::spec_for(spec_mime_of(key))
}

/// Whether the key's inferred MIME type denotes an image.
pub open spec fn is_image_key(key: Seq<char>) -> bool {
    codec_for(key) is Webp
}

/// The forward transform applied to a value before it is stored at `key`.
pub open spec fn codec_forward(key: Seq<char>, value: Seq<u8>) -> Option<Seq<u8>> {
    codec_for(key).spec_forward(value)
}

/// The inverse transform applied to the bytes loaded from `key`.
pub open spec fn codec_inverse(key: Seq<char>, stored: Seq<u8>) -> Option<Seq<u8>> {
    codec_for(key).spec_inverse(stored)
}

/// What a read recovers after a successful write of `value` at `key`: the
/// value itself under the lossless codec, its transcoded form under the
/// lossy image codec.
pub open spec fn recovered_of(key: Seq<char>, value: Seq<u8>) -> Seq<u8> {
    codec_for(key).spec_recovered(value)
}

/// A decorator that transparently rewrites stored bytes through the codec
/// chosen from the key: values are transformed on insert and expanded on
/// get; remove passes through untouched.
pub struct CompressionKvs<T> {
    inner: T,
}

impl<T: Kvs> CompressionKvs<T> {
    /// Wraps the given store.
    pub fn new(inner: T) -> (r: Self)
        ensures
            r.contents() == inner.contents(),
            r.reliable() == inner.reliable(),
    {
        CompressionKvs { inner }
    }
}

impl<T: Kvs> Kvs for CompressionKvs<T> {
    closed spec fn contents(&self) -> Map<Seq<char>, Seq<u8>> {
        self.inner.contents()
    }

    closed spec fn reliable(&self) -> bool {
        self.inner.reliable()
    }

    open spec fn stored_form(key: Seq<char>, value: Seq<u8>) -> Option<Seq<u8>> {
        match codec_forward(key, value) {
            Some(c) => T::stored_form(key, c),
            None => None,
        }
    }

    open spec fn presented_form(key: Seq<char>, stored: Seq<u8>) -> Option<Seq<u8>> {
        match T::presented_form(key, stored) {
            Some(p) => codec_inverse(key, p),
            None => None,
        }
    }

    open spec fn admits(key: Seq<char>, value: Seq<u8>) -> bool {
        match codec_forward(key, value) {
            Some(c) => T::admits(key, c),
            None => false,
        }
    }

    fn get(&self, key: &str) -> (r: Result<Option<Vec<u8>>, KvsError>) {
        match self.inner.get(key) {
            Err(e) => Err(e),
            Ok(None) => Ok(None),
            Ok(Some(value)) => {
                let mime = infer_mime(key);
                let comp = Compressor::new(mime.as_str());
                match comp.decompress(&value) {
                    Ok(out) => Ok(Some(out)),
                    Err(m) => Err(KvsError::Io(m)),
                }
            },
        }
    }

    fn insert(&mut self, key: &str, value: Vec<u8>) -> (r: Result<Option<Vec<u8>>, KvsError>)
        ensures
            r is Ok ==> (codec_forward(key@, value@) matches Some(c)
                && T::stored_form(key@, c) matches Some(s)
                && final(self).contents() == old(self).contents().insert(key@, s)
                && codec_inverse(key@, c) == Some(recovered_of(key@, value@))
                && (T::presented_form(key@, s) == Some(c)
                    ==> Self::presented_form(key@, s) == Some(recovered_of(key@, value@)))),
    {
        let mime = infer_mime(key);
        let comp = Compressor::new(mime.as_str());
        match comp.compress(&value) {
            Err(m) => Err(KvsError::Io(m)),
            Ok(c) => self.inner.insert(key, c),
        }
    }

    fn remove(&mut self, key: &str) -> (r: Result<Option<Vec<u8>>, KvsError>) {
        self.inner.remove(key)
    }
}

/// Round trip (generic): at a key whose inferred MIME type is not an image
/// type, the forward transform is the lossless compressor and its inverse
/// recovers the written bytes exactly, so a get after a successful insert
/// returns the inserted value itself.
pub proof fn lemma_round_trip_generic(key: Seq<char>, value: Seq<u8>)
    requires
        !is_image_key(key),
    ensures
        codec_forward(key, value) == Some(zstd_encode_of(value)),
        recovered_of(key, value) == value,
{
}

/// Round trip (image): at a key whose inferred MIME type is an image type,
/// the stored form of decodable image bytes is their transcoded form `w`, a
/// get returns exactly `w` (not the original upload), and the inverse is the
/// identity, so repeated gets present the same bytes every time.
pub proof fn lemma_round_trip_image(key: Seq<char>, value: Seq<u8>, w: Seq<u8>)
    requires
        is_image_key(key),
        webp_of(value) == Some(w),
    ensures
        codec_forward(key, value) == Some(w),
        recovered_of(key, value) == w,
        codec_inverse(key, w) == Some(w),
{
}

/// Overwrite: writing `s1` and then `s2` at the same key is the same as
/// writing `s2` alone; after the first write the key holds `s1`, so the
/// second write reports `s1` (the first value's stored form) as the previous
/// entry, and any later read goes by `s2` alone.
pub proof fn lemma_overwrite(m: Map<Seq<char>, Seq<u8>>, key: Seq<char>, s1: Seq<u8>, s2: Seq<u8>)
    ensures
        m.insert(key, s1).contains_key(key),
        m.insert(key, s1)[key] == s1,
        m.insert(key, s1).insert(key, s2) == m.insert(key, s2),
{
    assert(m.insert(key, s1).insert(key, s2) =~= m.insert(key, s2));
}

} // verus!
