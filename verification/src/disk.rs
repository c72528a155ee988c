use vstd::prelude::*;

verus! {

/// How a faulty region of a disk misbehaves when it is read.
#[derive(Debug, Clone, Copy, PartialEq, Eq, Structural)]
pub enum FaultKind {
    /// The designated unreadable-region signal: the streaming copy reports
    /// it as a bad sector carrying the byte offset reached so far.
    BadRegion,
    /// Any other read failure; surfaced as a plain I/O error.
    Other,
}

/// A faulty region of a disk: every read that reaches byte `offset` or
/// beyond fails with the given kind.
#[derive(Debug, Clone, Copy, PartialEq, Eq, Structural)]
pub struct DiskFault {
    pub offset: u64,
    pub kind: FaultKind,
}

/// The model of a disk: a vector of bytes, plus an optional faulty region.
/// Reads below the fault offset succeed and return the stored bytes; reads
/// that reach the fault fail. Writes never fail and extend the disk when
/// they run past its current end.
pub struct MemDisk {
    pub data: Vec<u8>,
    pub fault: Option<DiskFault>,
}

/// Capacity and usage summary of one disk, as reported by a descriptor
/// resolver.
#[derive(Debug, Clone, Copy, PartialEq, Eq, Structural)]
pub struct DiskInfo {
    pub total_size: u64,
    pub used_space: u64,
    pub sector_size: u32,
}

impl DiskInfo {
    pub open spec fn wf(&self) -> bool {
        &&& self.used_space <= self.total_size
        &&& self.sector_size > 0
    }
}

/// What a read of `len` bytes starting at `pos` returns: the stored bytes
/// from `pos` up to `pos + len`, cut short at the end of the disk; empty
/// at or past the end.
pub open spec fn read_window(data: Seq<u8>, pos: int, len: int) -> Seq<u8> {
    if pos >= data.len() {
        Seq::empty()
    } else if pos + len <= data.len() {
        data.subrange(pos, pos + len)
    } else {
        data.subrange(pos, data.len() as int)
    }
}

/// The disk contents after writing bytes `b` at position `pos`
/// (`pos <= data.len()`): the old prefix, then `b`, then whatever old
/// bytes lie beyond the written window.
pub open spec fn write_window(data: Seq<u8>, pos: int, b: Seq<u8>) -> Seq<u8> {
    if pos + b.len() <= data.len() {
        data.take(pos) + b + data.skip(pos + b.len())
    } else {
        data.take(pos) + b
    }
}

impl MemDisk {
    /// A fault, when present, lies within the stored bytes: a device
    /// cannot have a bad region beyond its own capacity.
    pub open spec fn wf(&self) -> bool {
        match self.fault {
            Some(f) => f.offset < self.data@.len(),
            None => true,
        }
    }

    /// Whether a read of `len` bytes at `pos` reaches the faulty region.
    pub open spec fn read_fires(&self, pos: int, len: int) -> bool {
        len > 0 && match self.fault {
            Some(f) => pos + len > f.offset,
            None => false,
        }
    }

    pub fn new(data: Vec<u8>) -> (r: MemDisk)
        ensures
            r.data == data,
            r.fault is None,
            r.wf(),
    {
        MemDisk { data, fault: None }
    }

    pub fn with_fault(data: Vec<u8>, offset: u64, kind: FaultKind) -> (r: MemDisk)
        requires
            offset < data@.len(),
        ensures
            r.data == data,
            r.fault == Some(DiskFault { offset, kind }),
            r.wf(),
    {
        MemDisk { data, fault: Some(DiskFault { offset, kind }) }
    }

    pub fn len(&self) -> (r: u64)
        ensures
            r == self.data@.len(),
    {
        self.data.len() as u64
    }

    /// Read up to `len` bytes starting at `pos`. Fails when the request
    /// reaches the faulty region; otherwise returns the bytes in the
    /// window, which is empty at or past the end of the disk and short
    /// when the end cuts it off.
    pub fn read_at(&self, pos: u64, len: u64) -> (r: Result<Vec<u8>, FaultKind>)
        ensures
            match r {
                Ok(b) => !self.read_fires(pos as int, len as int)
                    && b@ == read_window(self.data@, pos as int, len as int),
                Err(k) => self.read_fires(pos as int, len as int)
                    && (self.fault matches Some(f) && f.kind == k),
            },
    {
        if len > 0 {
            if let Some(f) = self.fault {
                if pos > f.offset || len > f.offset - pos {
                    return Err(f.kind);
                }
            }
        }
        let dlen: usize = self.data.len();
        let mut out: Vec<u8> = Vec::new();
        if len == 0 || pos >= dlen as u64 {
            assert(out@ =~= read_window(self.data@, pos as int, len as int));
            return Ok(out);
        }
        let start: usize = pos as usize;
        let remaining: usize = dlen - start;
        let take: usize = if len < remaining as u64 { len as usize } else { remaining };
        let mut i: usize = 0;
        while i < take
            invariant
                start + take <= dlen,
                dlen == self.data@.len(),
                i <= take,
                out@ == self.data@.subrange(start as int, start + i),
            decreases take - i,
        {
            out.push(self.data[start + i]);
            assert(out@ =~= self.data@.subrange(start as int, start + i + 1));
            i = i + 1;
        }
        assert(out@ =~= read_window(self.data@, pos as int, len as int));
        Ok(out)
    }

    /// Write the bytes of `b` at position `pos`, overwriting what is there
    /// and extending the disk when the window runs past its end. Writes do
    /// not consult the fault model.
    pub fn write_at(&mut self, pos: u64, b: &Vec<u8>)
        requires
            pos <= old(self).data@.len(),
        ensures
            final(self).data@ == write_window(old(self).data@, pos as int, b@),
            final(self).fault == old(self).fault,
    {
        let dl0: usize = self.data.len();
        let start: usize = pos as usize;
        let blen: usize = b.len();
        let mut i: usize = 0;
        while i < blen
            invariant
                i <= blen,
                blen == b@.len(),
                start == pos,
                start <= old(self).data@.len(),
                self.fault == old(self).fault,
                self.data@.len() == if start + i <= old(self).data@.len() {
                    old(self).data@.len() as int
                } else {
                    start + i
                },
                self.data@ == (old(self).data@.take(start as int) + b@.take(i as int)
                    + (if start + i <= old(self).data@.len() {
                        old(self).data@.skip(start + i)
                    } else {
                        Seq::<u8>::empty()
                    })),
            decreases blen - i,
        {
            let dlen_now: usize = self.data.len();
            let idx: usize = start + i;
            if idx < dlen_now {
                self.data[idx] = b[i];
            } else {
                self.data.push(b[i]);
            }
            assert(self.data@ =~= old(self).data@.take(start as int) + b@.take(i + 1)
                + (if start + i + 1 <= old(self).data@.len() {
                    old(self).data@.skip(start + i + 1)
                } else {
                    Seq::<u8>::empty()
                }));
            i = i + 1;
        }
        assert(self.data@ =~= write_window(old(self).data@, pos as int, b@));
    }
}

} // verus!
