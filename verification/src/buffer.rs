//! Owned byte buffers handed across the C boundary.

use vstd::prelude::*;

verus! {

/// A byte buffer given to the caller of the store: either null (no data)
/// or an owned run of bytes.
pub struct TryxBuffer {
    data: Option<Vec<u8>>,
}

impl View for TryxBuffer {
    type V = Option<Seq<u8>>;

    closed spec fn view(&self) -> Option<Seq<u8>> {
        match self.data {
            Some(v) => Some(v@),
            None => None,
        }
    }
}

impl TryxBuffer {
    /// The null buffer, which carries no data.
    pub fn null() -> (buf: Self)
        ensures
            buf@ == None::<Seq<u8>>,
    {
        TryxBuffer { data: None }
    }

    /// A buffer that takes ownership of the bytes of `v`.
    pub fn from_vec(v: Vec<u8>) -> (buf: Self)
        ensures
            buf@ == Some(v@),
    {
        TryxBuffer { data: Some(v) }
    }

    /// Whether this is the null buffer.
    pub fn is_null(&self) -> (b: bool)
        ensures
            b <==> self@ is None,
    {
        self.data.is_none()
    }

    /// The number of bytes the buffer holds (zero for the null buffer).
    pub fn len(&self) -> (n: usize)
        ensures
            n == match self@ {
                Some(s) => s.len(),
                None => 0,
            },
    {
        match &self.data {
            Some(v) => v.len(),
            None => 0,
        }
    }

    /// Gives back the bytes, or `None` for the null buffer.
    pub fn into_bytes(self) -> (r: Option<Vec<u8>>)
        ensures
            match r {
                Some(v) => self@ == Some(v@),
                None => self@ is None,
            },
    {
        self.data
    }
}

} // verus!
