use vstd::prelude::*;

use crate::inode::{node_attr, with_node_fields, Errno, FileAttr, FileKind, ObjectId, FILE_PERM};
use crate::store::blob_content;

verus! {

/// The bytes of `data` from `offset` on, at most `size` of them.
pub open spec fn read_window(data: Seq<u8>, offset: int, size: int) -> Seq<u8> {
    let end = if offset + size < data.len() { offset + size } else { data.len() as int };
    data.subrange(offset, end)
}

/// A read from an offset within the content returns as many bytes as fit
/// both the request and what is left of the content, `min(size, L - offset)`
/// for content of length `L`, and they are the content's bytes from `offset`
/// on.
pub proof fn lemma_read_bounds(data: Seq<u8>, offset: int, size: int)
    requires
        0 <= offset <= data.len(),
        0 <= size,
    ensures
        read_window(data, offset, size).len() == (if size < data.len() - offset {
            size
        } else {
            data.len() - offset
        }),
        forall|i: int|
            0 <= i < read_window(data, offset, size).len() ==> #[trigger] read_window(
                data,
                offset,
                size,
            )[i] == data[offset + i],
{
}

/// Git blobs are represented as files
pub struct Blob {
    pub oid: ObjectId,
    pub size: u64,
    /// The content, held from `open` until `release`.
    pub data: Option<Vec<u8>>,
}

impl Blob {
    /// A closed file node for the blob `oid` of `size` bytes.
    pub fn new(oid: ObjectId, size: u64) -> (r: Blob)
        ensures
            r.oid@ == oid@,
            r.size == size,
            r.data.is_none(),
    {
        Blob { oid, size, data: None }
    }

    /// The blob's attributes: its length, the file kind and mode 0644.
    pub fn getattr(&self, attr: FileAttr) -> (r: FileAttr)
        ensures
            r == with_node_fields(attr, self.size, FileKind::RegularFile, FILE_PERM),
            r.blocks == crate::inode::blocks_for(r.size as nat),
    {
        node_attr(attr, self.size, FileKind::RegularFile, FILE_PERM)
    }

    /// Take the content that the store returned for this blob, unless content
    /// is held already: then nothing changes.
    pub fn load(&mut self, content: Option<Vec<u8>>) -> (r: Result<(), Errno>)
        ensures
            final(self).oid == old(self).oid,
            final(self).size == old(self).size,
            old(self).data.is_some() ==> r == Ok::<(), Errno>(()) && final(self).data
                == old(self).data,
            old(self).data.is_none() ==> match content {
                Some(c) => r == Ok::<(), Errno>(()) && final(self).data == Some(c),
                None => r == Err::<(), Errno>(Errno::Io) && final(self).data.is_none(),
            },
    {
        if self.data.is_some() {
            return Ok(());
        }
        match content {
            Some(c) => {
                self.data = Some(c);
                Ok(())
            },
            None => Err(Errno::Io),
        }
    }

    /// Open the file: fetch its content from the store unless it is held
    /// already. Fails with `Io` where the store cannot deliver the blob.
    pub fn open(&mut self, repo: &git2::Repository) -> (r: Result<(), Errno>)
        ensures
            final(self).oid == old(self).oid,
            final(self).size == old(self).size,
            old(self).data.is_some() ==> r is Ok && final(self).data == old(self).data,
            r is Ok <==> final(self).data.is_some(),
            r is Err ==> r == Err::<(), Errno>(Errno::Io),
    {
        if self.data.is_some() {
            return Ok(());
        }
        let content = blob_content(repo, &self.oid);
        self.load(content)
    }

    /// Up to `size` bytes of the held content from `offset` on. Fails with
    /// `InvalidArgument` where the file is not open or `offset` lies past the
    /// end of the content.
    pub fn read(&self, offset: u64, size: u32) -> (r: Result<Vec<u8>, Errno>)
        ensures
            match self.data {
                Some(d) if offset <= d@.len() => r is Ok && r.unwrap()@ == read_window(
                    d@,
                    offset as int,
                    size as int,
                ),
                _ => r == Err::<Vec<u8>, Errno>(Errno::InvalidArgument),
            },
    {
        match &self.data {
            Some(d) => {
                if offset > d.len() as u64 {
                    return Err(Errno::InvalidArgument);
                }
                let start = offset as usize;
                let end: usize = if (size as usize) < d.len() - start {
                    start + size as usize
                } else {
                    d.len()
                };
                let mut out: Vec<u8> = Vec::new();
                let mut i: usize = start;
                while i < end
                    invariant
                        start <= i <= end <= d@.len(),
                        out@ == d@.subrange(start as int, i as int),
                    decreases end - i,
                {
                    out.push(d[i]);
                    i = i + 1;
                    assert(out@ =~= d@.subrange(start as int, i as int));
                }
                Ok(out)
            },
            None => Err(Errno::InvalidArgument),
        }
    }

    /// Drop the held content. Succeeds whether or not the file was open.
    pub fn release(&mut self)
        ensures
            final(self).oid == old(self).oid,
            final(self).size == old(self).size,
            final(self).data.is_none(),
    {
        self.data = None;
    }
}

} // verus!
