use vstd::prelude::*;

use crate::kvs::KvsError;

verus! {

/// Builds the application state around a storage capability; routing,
/// serving and marshaling stay with the HTTP front end.
pub struct AppBuilder;

/// A storage capability together with the route root it is mounted under.
pub struct AppBuilderBuf<T> {
    pub kvs: T,
    pub root: String,
}

impl AppBuilder {
    /// Pairs the store with the default route root.
    pub fn new<T>(kvs: T) -> (r: AppBuilderBuf<T>)
        ensures
            r.kvs == kvs,
            r.root@ == "/"@,
    {
        AppBuilderBuf { kvs, root: "/".to_owned() }
    }
}

/// The front end's decision for a read: the bytes on success, 404 where the
/// key is absent, 500 where the store or the transport failed (no detail
/// leaks across the boundary).
pub fn get_response(r: Result<Option<Vec<u8>>, KvsError>) -> (out: Result<Vec<u8>, u16>)
    ensures
        r matches Ok(Some(v)) ==> out == Result::<Vec<u8>, u16>::Ok(v),
        r matches Ok(None) ==> out == Result::<Vec<u8>, u16>::Err(404u16),
        r is Err ==> out == Result::<Vec<u8>, u16>::Err(500u16),
{
    match r {
        Ok(Some(v)) => Ok(v),
        Ok(None) => Err(404u16),
        Err(_) => Err(500u16),
    }
}

/// The front end's decision for a write or delete: plain success, or 500
/// where the store or the transport failed.
pub fn write_response(r: &Result<Option<Vec<u8>>, KvsError>) -> (out: Result<(), u16>)
    ensures
        r is Ok ==> out == Result::<(), u16>::Ok(()),
        r is Err ==> out == Result::<(), u16>::Err(500u16),
{
    match r {
        Ok(_) => Ok(()),
        Err(_) => Err(500u16),
    }
}

} // verus!
