//! RIFF chunk writing: chunks are opened with a zero size field and patched
//! with their real size when they are finished.
use vstd::prelude::*;

use crate::bits::le32;
use crate::error::Error;
use crate::io::{lemma_overwrite_append, overwrite, ByteCursor};

verus! {

/// The padding byte that follows a chunk body of odd length.
pub open spec fn riff_pad(size: int) -> Seq<u8> {
    if size % 2 == 1 {
        seq![0u8]
    } else {
        Seq::empty()
    }
}

/// Where an open chunk keeps its size field and where its body starts.
#[derive(Clone, Copy, Debug, PartialEq, Eq)]
pub struct ChunkHandle {
    size_offset: u64,
    size_data_start: u64,
}

impl ChunkHandle {
    /// The body starts right after the four-byte size field.
    #[verifier::type_invariant]
    closed spec fn wf(self) -> bool {
        self.size_offset + 4 == self.size_data_start
    }

    pub closed spec fn spec_size_offset(self) -> int {
        self.size_offset as int
    }

    pub closed spec fn spec_size_data_start(self) -> int {
        self.size_data_start as int
    }

    pub fn size_offset(self) -> (r: u64)
        ensures
            r == self.spec_size_offset(),
    {
        self.size_offset
    }

    pub fn size_data_start(self) -> (r: u64)
        ensures
            r == self.spec_size_data_start(),
            r == self.spec_size_offset() + 4,
    {
        proof {
            use_type_invariant(&self);
        }
        self.size_data_start
    }
}

/// A RIFF writer over an in-memory cursor.
#[derive(Debug)]
pub struct RiffWriter {
    inner: ByteCursor,
}

impl RiffWriter {
    /// The cursor written to.
    pub closed spec fn cursor(&self) -> ByteCursor {
        self.inner
    }

    pub fn new(inner: ByteCursor) -> (r: Self)
        ensures
            r.cursor() == inner,
    {
        RiffWriter { inner }
    }

    pub fn into_inner(self) -> (r: ByteCursor)
        ensures
            r == self.cursor(),
    {
        self.inner
    }

    pub fn get_ref(&self) -> (r: &ByteCursor)
        ensures
            *r == self.cursor(),
    {
        &self.inner
    }

    pub fn get_mut(&mut self) -> (r: &mut ByteCursor)
        ensures
            *r == old(self).cursor(),
            final(self).cursor() == *final(r),
    {
        &mut self.inner
    }

    /// The current write position.
    pub fn position(&self) -> (r: Result<u64, Error>)
        ensures
            r == Ok::<u64, Error>(self.cursor().pos() as u64),
    {
        Ok(self.inner.position())
    }

    /// Writes `buf` at the position, as `ByteCursor::write_all`.
    pub fn write_all(&mut self, buf: &[u8]) -> (r: Result<(), Error>)
        ensures
            r is Ok <==> old(self).cursor().pos() + buf@.len() <= usize::MAX,
            r is Ok ==> final(self).cursor().bytes() == overwrite(
                old(self).cursor().bytes(),
                old(self).cursor().pos(),
                buf@,
            ) && final(self).cursor().pos() == old(self).cursor().pos() + buf@.len(),
            r is Err ==> *final(self) == *old(self),
    {
        self.inner.write_all(buf)
    }

    pub fn flush(&mut self) -> (r: Result<(), Error>)
        ensures
            r is Ok,
            *final(self) == *old(self),
    {
        self.inner.flush()
    }

    /// Moves the write position to `pos`.
    pub fn seek_to(&mut self, pos: u64)
        ensures
            final(self).cursor().bytes() == old(self).cursor().bytes(),
            final(self).cursor().pos() == pos,
    {
        self.inner.seek_to(pos)
    }

    /// Opens a chunk: writes `id` and a zero size field. Fails, changing
    /// nothing, when the eight bytes would not be addressable.
    pub fn start_chunk(&mut self, id: [u8; 4]) -> (r: Result<ChunkHandle, Error>)
        ensures
            r is Ok <==> old(self).cursor().pos() + 8 <= usize::MAX,
            r is Ok ==> {
                let p = old(self).cursor().pos();
                &&& final(self).cursor().bytes() == overwrite(
                    old(self).cursor().bytes(),
                    p,
                    id@ + le32(0),
                )
                &&& final(self).cursor().pos() == p + 8
                &&& r->Ok_0.spec_size_offset() == p + 4
                &&& r->Ok_0.spec_size_data_start() == p + 8
            },
            r is Err ==> *final(self) == *old(self),
    {
        let p = self.inner.position();
        if p > (usize::MAX - 8) as u64 {
            return Err(Error::Io("chunk header exceeds addressable memory"));
        }
        let ghost b0 = self.inner.bytes();
        self.inner.write_all(&id)?;
        let size_offset = self.inner.position();
        let zero: [u8; 4] = [0u8; 4];
        proof {
            assert(zero@ =~= le32(0)) by {
                assert((0u32 >> 8u32) as u8 == 0 && (0u32 >> 16u32) as u8 == 0 && (0u32 >> 24u32) as u8 == 0
                    && 0u32 as u8 == 0) by (bit_vector);
            }
        }
        self.inner.write_all(&zero)?;
        let size_data_start = self.inner.position();
        proof {
            lemma_overwrite_append(b0, p as int, id@, le32(0));
        }
        Ok(ChunkHandle { size_offset, size_data_start })
    }

    /// Opens the top-level `RIFF` chunk with the given form type.
    pub fn start_riff(&mut self, form_type: [u8; 4]) -> (r: Result<ChunkHandle, Error>)
        ensures
            r is Ok <==> old(self).cursor().pos() + 12 <= usize::MAX,
            r is Ok ==> {
                let p = old(self).cursor().pos();
                &&& final(self).cursor().bytes() == overwrite(
                    old(self).cursor().bytes(),
                    p,
                    seq![0x52u8, 0x49u8, 0x46u8, 0x46u8] + le32(0) + form_type@,
                )
                &&& final(self).cursor().pos() == p + 12
                &&& r->Ok_0.spec_size_offset() == p + 4
                &&& r->Ok_0.spec_size_data_start() == p + 8
            },
            r is Err ==> *final(self) == *old(self),
    {
        let id: [u8; 4] = [0x52u8, 0x49u8, 0x46u8, 0x46u8];
        proof {
            assert(id@ =~= seq![0x52u8, 0x49u8, 0x46u8, 0x46u8]);
        }
        self.start_container_chunk(id, form_type)
    }

    /// Opens a `LIST` chunk with the given list type.
    pub fn start_list(&mut self, list_type: [u8; 4]) -> (r: Result<ChunkHandle, Error>)
        ensures
            r is Ok <==> old(self).cursor().pos() + 12 <= usize::MAX,
            r is Ok ==> {
                let p = old(self).cursor().pos();
                &&& final(self).cursor().bytes() == overwrite(
                    old(self).cursor().bytes(),
                    p,
                    seq![0x4cu8, 0x49u8, 0x53u8, 0x54u8] + le32(0) + list_type@,
                )
                &&& final(self).cursor().pos() == p + 12
                &&& r->Ok_0.spec_size_offset() == p + 4
                &&& r->Ok_0.spec_size_data_start() == p + 8
            },
            r is Err ==> *final(self) == *old(self),
    {
        let id: [u8; 4] = [0x4cu8, 0x49u8, 0x53u8, 0x54u8];
        proof {
            assert(id@ =~= seq![0x4cu8, 0x49u8, 0x53u8, 0x54u8]);
        }
        self.start_container_chunk(id, list_type)
    }

    /// Closes the chunk of `handle`: the size of everything written since its
    /// body started is patched into its size field, and a zero byte pads an
    /// odd-sized body. Returns that size.
    pub fn finish_chunk(&mut self, handle: ChunkHandle) -> (r: Result<u32, Error>)
        ensures
            ({
                let end = old(self).cursor().pos();
                let size = end - handle.spec_size_data_start();
                r is Ok <==> (0 <= size <= u32::MAX && end + size % 2 <= usize::MAX)
            }),
            r is Ok ==> {
                let end = old(self).cursor().pos();
                let size = r->Ok_0;
                let patched = overwrite(
                    old(self).cursor().bytes(),
                    handle.spec_size_offset(),
                    le32(size),
                );
                &&& size == end - handle.spec_size_data_start()
                &&& size % 2 == 1 ==> final(self).cursor().bytes() == overwrite(
                    patched,
                    end,
                    riff_pad(size as int),
                )
                &&& size % 2 == 0 ==> final(self).cursor().bytes() == patched
                &&& final(self).cursor().pos() == end + riff_pad(size as int).len()
            },
            r is Err ==> *final(self) == *old(self),
            r is Err ==> r->Err_0 matches Error::Io(_),
    {
        proof {
            use_type_invariant(&handle);
        }
        let end = self.inner.position();
        if end < handle.size_data_start {
            return Err(Error::Io("chunk end precedes chunk data start"));
        }
        let size = end - handle.size_data_start;
        if size > u32::MAX as u64 {
            return Err(Error::Io("chunk size exceeds 32-bit RIFF limit"));
        }
        proof {
            assert(size & 1 == size % 2) by (bit_vector);
        }
        if end > usize::MAX as u64 || (size & 1 == 1 && end == usize::MAX as u64) {
            return Err(Error::Io("chunk padding exceeds addressable memory"));
        }
        let size_u32 = size as u32;
        self.inner.seek_to(handle.size_offset);
        let bytes: [u8; 4] = [
            size_u32 as u8,
            (size_u32 >> 8) as u8,
            (size_u32 >> 16) as u8,
            (size_u32 >> 24) as u8,
        ];
        proof {
            assert(bytes@ =~= le32(size_u32));
        }
        self.inner.write_all(&bytes)?;
        self.inner.seek_to(end);
        if size & 1 == 1 {
            let pad: [u8; 1] = [0u8];
            proof {
                assert(pad@ =~= riff_pad(size as int));
            }
            self.inner.write_all(&pad)?;
        }
        Ok(size_u32)
    }

    fn start_container_chunk(&mut self, id: [u8; 4], kind: [u8; 4]) -> (r: Result<
        ChunkHandle,
        Error,
    >)
        ensures
            r is Ok <==> old(self).cursor().pos() + 12 <= usize::MAX,
            r is Ok ==> {
                let p = old(self).cursor().pos();
                &&& final(self).cursor().bytes() == overwrite(
                    old(self).cursor().bytes(),
                    p,
                    id@ + le32(0) + kind@,
                )
                &&& final(self).cursor().pos() == p + 12
                &&& r->Ok_0.spec_size_offset() == p + 4
                &&& r->Ok_0.spec_size_data_start() == p + 8
            },
            r is Err ==> *final(self) == *old(self),
    {
        let p = self.inner.position();
        if p > (usize::MAX - 12) as u64 {
            return Err(Error::Io("chunk header exceeds addressable memory"));
        }
        let ghost b0 = self.inner.bytes();
        let handle = self.start_chunk(id)?;
        self.inner.write_all(&kind)?;
        proof {
            lemma_overwrite_append(b0, p as int, id@ + le32(0), kind@);
        }
        Ok(handle)
    }
}

} // verus!
