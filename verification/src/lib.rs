//! A key-value store built from three orthogonal pieces around a pluggable
//! backend: a uniform get/insert/remove capability, a decorator that
//! transparently compresses stored values through a codec chosen from the
//! key's inferred content type (lossless for generic content, lossy for
//! images), and the command dispatch of a single-owner runner that serves
//! any number of concurrent callers in arrival order.

pub mod compression;
pub mod http;
pub mod kvs;
