//! A verified core of an ORC stripe reader: schema resolution against an
//! Arrow-style output field tree, stripe assembly with stream demultiplexing,
//! and resumable batch decoders for nested columns.
use vstd::prelude::*;
use std::sync::Arc;

pub mod column;
pub mod decoder;
pub mod error;
pub mod field;
pub mod proto;
pub mod pull;
pub mod schema;
pub mod stripe;

verus! {

/// Relies on std's `Arc::clone`: the returned handle refers to the same shared value.
#[verifier::external_body]
pub(crate) fn share<T>(a: &Arc<T>) -> (r: Arc<T>)
    ensures
        r == *a,
{
    a.clone()
}

/// A value-preserving copy of a vector of plain values.
pub fn copy_values<T: Copy>(v: &Vec<T>) -> (r: Vec<T>)
    ensures
        r@ == v@,
{
    let mut out: Vec<T> = Vec::new();
    let mut i: usize = 0;
    while i < v.len()
        invariant
            i <= v@.len(),
            out@ == v@.take(i as int),
        decreases v@.len() - i,
    {
        out.push(v[i]);
        proof {
            assert(out@ =~= v@.take(i + 1 as int));
        }
        i = i + 1;
    }
    proof {
        assert(out@ =~= v@);
    }
    out
}

/// A copy of `v[start .. start + len]`.
pub fn copy_range<T: Copy>(v: &Vec<T>, start: usize, len: usize) -> (r: Vec<T>)
    requires
        start + len <= v@.len(),
    ensures
        r@ == v@.subrange(start as int, start as int + len as int),
{
    let vl: usize = v.len();
    let mut out: Vec<T> = Vec::new();
    let mut i: usize = 0;
    while i < len
        invariant
            i <= len,
            vl == v@.len(),
            start + len <= vl,
            out@ == v@.subrange(start as int, start as int + i as int),
        decreases len - i,
    {
        out.push(v[start + i]);
        proof {
            assert(out@ =~= v@.subrange(start as int, start as int + (i + 1) as int));
        }
        i = i + 1;
    }
    out
}

} // verus!
