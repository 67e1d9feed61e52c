use vstd::prelude::*;
use vstd::slice::{slice_subrange, slice_to_vec};

verus! {

/// The bytes of `data` from position `ptr` on: what is still to be read.
pub open spec fn unread_of(data: Seq<u8>, ptr: int) -> Seq<u8> {
    data.subrange(ptr, data.len() as int)
}

/// A buffer of serialized objects: writes append the encoding of an object,
/// reads decode the object at the read position and move past it.
pub struct Buffer {
    pub data: Vec<u8>,
    pub ptr: usize,
}

impl Buffer {
    /// The bytes still to be read.
    pub open spec fn unread(&self) -> Seq<u8> {
        unread_of(self.data@, self.ptr as int)
    }

    /// An empty buffer.
    pub fn new() -> (buffer: Self)
        ensures
            buffer.data@ == Seq::<u8>::empty(),
            buffer.ptr == 0,
    {
        Buffer { data: Vec::new(), ptr: 0 }
    }

    /// A buffer holding a copy of `data`, to be read from the start.
    pub fn from(data: &[u8]) -> (buffer: Self)
        ensures
            buffer.data@ == data@,
            buffer.ptr == 0,
    {
        Buffer { data: slice_to_vec(data), ptr: 0 }
    }

    /// Set the position ptr to the beginning of the buffer.
    pub fn head(&mut self)
        ensures
            final(self).data@ == old(self).data@,
            final(self).ptr == 0,
            final(self).unread() == old(self).data@,
    {
        self.ptr = 0;
        assert(self.data@.subrange(0, self.data@.len() as int) =~= self.data@);
    }

    /// The bytes from the read position on, from which the next object is
    /// decoded.
    pub fn unread_bytes(&self) -> (bytes: &[u8])
        requires
            self.ptr <= self.data@.len(),
        ensures
            bytes@ == self.unread(),
    {
        slice_subrange(self.data.as_slice(), self.ptr, self.data.len())
    }

    /// Move the read position past an object of `nb_bytes` bytes.
    pub fn advance(&mut self, nb_bytes: u64)
        requires
            old(self).ptr + nb_bytes <= usize::MAX,
        ensures
            final(self).data@ == old(self).data@,
            final(self).ptr == old(self).ptr + nb_bytes,
    {
        self.ptr = self.ptr + nb_bytes as usize;
    }

    /// Append the encoding of an object; the read position is unchanged.
    pub fn write_bytes(&mut self, bytes: &[u8])
        ensures
            final(self).data@ == old(self).data@ + bytes@,
            final(self).ptr == old(self).ptr,
            old(self).ptr <= old(self).data@.len() ==> final(self).unread() == old(self).unread()
                + bytes@,
    {
        self.data.extend_from_slice(bytes);
        assert(self.data@ =~= old(self).data@ + bytes@);
        assert(old(self).ptr <= old(self).data@.len() ==> self.unread() =~= old(self).unread()
            + bytes@);
    }
}

/// Law: reads return what was written, first in, first out. Appending
/// `bytes` behind the unread part leaves that part in front, and once it has
/// been read past, exactly `bytes` remain.
pub proof fn law_reads_follow_writes(data: Seq<u8>, ptr: int, bytes: Seq<u8>)
    requires
        0 <= ptr <= data.len(),
    ensures
        unread_of(data + bytes, ptr) == unread_of(data, ptr) + bytes,
        unread_of(data + bytes, ptr + unread_of(data, ptr).len()) == bytes,
{
    assert(unread_of(data + bytes, ptr) =~= unread_of(data, ptr) + bytes);
    assert(unread_of(data + bytes, ptr + unread_of(data, ptr).len()) =~= bytes);
}

} // verus!
