//! How results are handed across the C boundary: a status code, and what
//! is written to the caller's output slot (nothing on failure).
//!
//! Status codes: `0` success, `1` nothing found, `-1` failure.

use vstd::prelude::*;
use crate::buffer::TryxBuffer;

verus! {

/// A lookup's outcome as plain values: `None` for an error, otherwise
/// the row found, if any.
pub open spec fn lookup_view<E>(r: Result<Option<Vec<u8>>, E>) -> Option<Option<Seq<u8>>> {
    match r {
        Ok(Some(v)) => Some(Some(v@)),
        Ok(None) => Some(None),
        Err(_) => None,
    }
}

/// The status and output buffer (`None`: nothing written; `Some(None)`:
/// the null buffer) a lookup with outcome `r` hands across the boundary.
pub open spec fn lookup_status(r: Option<Option<Seq<u8>>>) -> (i32, Option<Option<Seq<u8>>>) {
    match r {
        Some(Some(v)) => (0i32, Some(Some(v))),
        Some(None) => (1i32, Some(None)),
        None => (-1i32, None),
    }
}

/// The buffer views of an optional output.
pub open spec fn output_view(o: Option<TryxBuffer>) -> Option<Option<Seq<u8>>> {
    match o {
        Some(b) => Some(b@),
        None => None,
    }
}

/// The status and output buffer of a lookup: `0` with the bytes when
/// found, `1` with the null buffer when not, `-1` with no output on error.
pub fn lookup_outcome<E>(r: Result<Option<Vec<u8>>, E>) -> (o: (i32, Option<TryxBuffer>))
    ensures
        (o.0, output_view(o.1)) == lookup_status(lookup_view(r)),
        match r {
            Ok(Some(v)) => o.0 == 0 && (o.1 matches Some(b) && b@ == Some(v@)),
            Ok(None) => o.0 == 1 && (o.1 matches Some(b) && b@ is None),
            Err(_) => o.0 == -1 && o.1 is None,
        },
{
    match r {
        Ok(Some(v)) => (0, Some(TryxBuffer::from_vec(v))),
        Ok(None) => (1, Some(TryxBuffer::null())),
        Err(_) => (-1, None),
    }
}

/// The status and output buffer of the generic call: `0` with the reply's
/// bytes, or with the null buffer when there is no reply; `-1` with no
/// output on error.
pub fn call_outcome<E>(r: Result<Option<Vec<u8>>, E>) -> (o: (i32, Option<TryxBuffer>))
    ensures
        match r {
            Ok(Some(v)) => o.0 == 0 && (o.1 matches Some(b) && b@ == Some(v@)),
            Ok(None) => o.0 == 0 && (o.1 matches Some(b) && b@ is None),
            Err(_) => o.0 == -1 && o.1 is None,
        },
{
    match r {
        Ok(Some(v)) => (0, Some(TryxBuffer::from_vec(v))),
        Ok(None) => (0, Some(TryxBuffer::null())),
        Err(_) => (-1, None),
    }
}

/// The status of an operation with no output.
pub fn unit_outcome<E>(r: Result<(), E>) -> (code: i32)
    ensures
        code == (if r is Ok { 0i32 } else { -1i32 }),
{
    match r {
        Ok(()) => 0,
        Err(_) => -1,
    }
}

/// The status and output value of an operation that yields one value.
pub fn value_outcome<T, E>(r: Result<T, E>) -> (o: (i32, Option<T>))
    ensures
        match r {
            Ok(v) => o.0 == 0 && o.1 == Some(v),
            Err(_) => o.0 == -1 && o.1 is None,
        },
{
    match r {
        Ok(v) => (0, Some(v)),
        Err(_) => (-1, None),
    }
}

/// The status and output of a yes/no question, the answer written as `1`
/// or `0`.
pub fn flag_outcome<E>(r: Result<bool, E>) -> (o: (i32, Option<i32>))
    ensures
        match r {
            Ok(b) => o.0 == 0 && o.1 == Some(if b { 1i32 } else { 0i32 }),
            Err(_) => o.0 == -1 && o.1 is None,
        },
{
    match r {
        Ok(b) => (0, Some(if b { 1 } else { 0 })),
        Err(_) => (-1, None),
    }
}

} // verus!
