use vstd::prelude::*;
use vstd::string::StringExecFns;

pub mod compression;
pub mod concurrency;
pub mod memory;

verus! {

/// The error taxonomy of the store: an I/O or codec failure carrying its
/// message, or a free-form failure (used for actor-communication problems
/// and anything without a dedicated kind).
#[derive(Debug)]
pub enum KvsError {
    Io(String),
    Other(String),
}

impl KvsError {
    /// A human-readable description, in place of a `Display` impl.
    pub fn message(&self) -> (r: String)
        ensures
            r@ == self.spec_message(),
    {
        match self {
            KvsError::Io(e) => "io error; ".to_owned().concat(e.as_str()),
            KvsError::Other(e) => "other error; ".to_owned().concat(e.as_str()),
        }
    }

    pub open spec fn spec_message(&self) -> Seq<char> {
        match self {
            KvsError::Io(e) => "io error; "@ + e@,
            KvsError::Other(e) => "other error; "@ + e@,
        }
    }
}

/// The storage capability: a uniform get/insert/remove interface over keyed
/// byte sequences, implemented by backends and by decorators wrapping another
/// implementer.
///
/// `contents` is the stored map. An implementer may rewrite values on the way
/// in (`stored_form`, none where it rejects the value) and on the way out
/// (`presented_form`, none where the stored bytes are unreadable); a plain
/// backend stores and presents values unchanged. `reliable` says that the
/// store's own machinery does not fail: reads and removes then succeed, and
/// inserts succeed on the inputs `admits` accepts.
pub trait Kvs: Sized {
    /// The stored byte sequences, keyed by key.
    spec fn contents(&self) -> Map<Seq<char>, Seq<u8>>;

    /// Whether operations on this store are owed success.
    spec fn reliable(&self) -> bool;

    /// The bytes an insert of `value` at `key` lays down, or none where the
    /// store rejects the value.
    spec fn stored_form(key: Seq<char>, value: Seq<u8>) -> Option<Seq<u8>>;

    /// The bytes a get presents for the bytes stored at `key`, or none where
    /// they are unreadable.
    spec fn presented_form(key: Seq<char>, stored: Seq<u8>) -> Option<Seq<u8>>;

    /// The inserts that a reliable store is owed to accept.
    spec fn admits(key: Seq<char>, value: Seq<u8>) -> bool;

    /// Returns the value presented for `key`, or none if the key is absent;
    /// no side effects.
    fn get(&self, key: &str) -> (r: Result<Option<Vec<u8>>, KvsError>)
        ensures
            r matches Ok(Some(v)) ==> self.contents().contains_key(key@)
                && Self::presented_form(key@, self.contents()[key@]) == Some(v@),
            r matches Ok(None) ==> !self.contents().contains_key(key@),
            self.reliable() && (self.contents().contains_key(key@)
                ==> Self::presented_form(key@, self.contents()[key@]) is Some) ==> r is Ok,
    ;

    /// Replaces (or creates) the entry for `key`; returns the previously
    /// stored bytes if the key was present, otherwise none.
    fn insert(&mut self, key: &str, value: Vec<u8>) -> (r: Result<Option<Vec<u8>>, KvsError>)
        ensures
            r is Ok ==> (Self::stored_form(key@, value@) matches Some(s)
                && final(self).contents() == old(self).contents().insert(key@, s)),
            r matches Ok(Some(p)) ==> old(self).contents().contains_key(key@)
                && p@ == old(self).contents()[key@],
            r matches Ok(None) ==> !old(self).contents().contains_key(key@),
            r is Err ==> final(self).contents() == old(self).contents(),
            old(self).reliable() && Self::admits(key@, value@) ==> r is Ok,
            final(self).reliable() == old(self).reliable(),
    ;

    /// Deletes the entry for `key` if present; returns the removed stored
    /// bytes, or none if the key was absent (which is not an error).
    fn remove(&mut self, key: &str) -> (r: Result<Option<Vec<u8>>, KvsError>)
        ensures
            r is Ok ==> final(self).contents() == old(self).contents().remove(key@),
            r matches Ok(Some(p)) ==> old(self).contents().contains_key(key@)
                && p@ == old(self).contents()[key@],
            r matches Ok(None) ==> !old(self).contents().contains_key(key@),
            r is Err ==> final(self).contents() == old(self).contents(),
            old(self).reliable() ==> r is Ok,
            final(self).reliable() == old(self).reliable(),
    ;
}

} // verus!
