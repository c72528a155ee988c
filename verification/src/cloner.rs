use crate::disk::{read_window, write_window, DiskFault, DiskInfo, FaultKind, MemDisk};
use crate::errors::CloneError;
use crate::table::{rescale_table, table_overflows, table_scaled, ScaleFactor, TABLE_OFFSET,
    TABLE_SIZE};
use vstd::arithmetic::div_mod::{lemma_fundamental_div_mod, lemma_fundamental_div_mod_converse};
use vstd::prelude::*;

verus! {

/// The strategy a cloner applies.
#[derive(Debug, Clone, Copy, PartialEq, Eq, Structural)]
pub enum CloneMode {
    /// Copies the disk sector by sector, over its full extent.
    SectorBySector,
    /// Copies only the leading used bytes.
    SmartClone,
    /// Copies the used bytes, then rescales the partition table to fit the
    /// destination capacity.
    AutoFit,
}

/// Completion of `current` out of `total` bytes as an integer percentage:
/// `floor(current * 100 / total)`, clamped to 100, and 0 when the target
/// is zero bytes.
pub open spec fn percent_of(current: int, total: int) -> int {
    if total <= 0 {
        0
    } else if current * 100 / total > 100 {
        100
    } else {
        current * 100 / total
    }
}

/// Whether a streaming copy toward `total` bytes reaches the faulty
/// region of the source.
pub open spec fn copy_fires(source: MemDisk, total: int) -> bool {
    match source.fault {
        Some(f) => f.offset < total,
        None => false,
    }
}

/// Bytes already copied when a streaming read first reaches byte `off`:
/// the copy proceeds in full chunks, so this is `off` rounded down to a
/// multiple of the chunk size.
pub open spec fn fail_point(off: int, chunk: int) -> int {
    chunk * (off / chunk)
}

/// How many bytes a streaming copy toward `total` transfers: up to the
/// faulty region when one is in the way, otherwise the whole source, cut
/// off at `total`.
pub open spec fn copied_bytes(source: MemDisk, total: int, chunk: int) -> int {
    if copy_fires(source, total) {
        match source.fault {
            Some(f) => fail_point(f.offset as int, chunk),
            None => 0,
        }
    } else if source.data@.len() < total {
        source.data@.len() as int
    } else {
        total
    }
}

/// The error a streaming copy reports when it hits the faulty region: the
/// designated bad-region signal becomes a bad-sector error carrying the
/// bytes copied so far; anything else is a plain I/O error.
pub open spec fn copy_error(source: MemDisk, total: int, chunk: int) -> CloneError {
    match source.fault {
        Some(f) => match f.kind {
            FaultKind::BadRegion => CloneError::BadSector(fail_point(f.offset as int, chunk) as u64),
            FaultKind::Other => CloneError::Io,
        },
        None => CloneError::Io,
    }
}

/// What a streaming copy returns.
pub open spec fn stream_result(source: MemDisk, total: int, chunk: int) -> Result<(), CloneError> {
    if copy_fires(source, total) {
        Err(copy_error(source, total, chunk))
    } else {
        Ok(())
    }
}

/// A destination whose first `n` bytes have been replaced by the first
/// `n` bytes of the source, extended when the source prefix runs past its
/// old end; bytes beyond `n` are untouched.
pub open spec fn copy_image(dst: Seq<u8>, src: Seq<u8>, n: int) -> Seq<u8> {
    if n >= dst.len() {
        src.take(n)
    } else {
        src.take(n) + dst.skip(n)
    }
}

/// The destination contents a streaming copy leaves behind.
pub open spec fn stream_data(d0: Seq<u8>, source: MemDisk, total: int, chunk: int) -> Seq<u8> {
    copy_image(d0, source.data@, copied_bytes(source, total, chunk))
}

/// The progress value a streaming copy leaves behind: the percentage of
/// the bytes it managed to transfer, or the previous value when it never
/// transferred any.
pub open spec fn stream_progress(p0: int, source: MemDisk, total: int, chunk: int) -> int {
    let n = copied_bytes(source, total, chunk);
    if n > 0 {
        percent_of(n, total)
    } else {
        p0
    }
}

/// Whether reading the 64-byte partition table reaches the faulty region
/// of the destination.
pub open spec fn table_read_fires(fault: Option<DiskFault>) -> bool {
    match fault {
        Some(f) => f.offset < TABLE_OFFSET + TABLE_SIZE,
        None => false,
    }
}

/// Why a partition-table rescale fails, or `None` when it succeeds: a
/// faulty table region is an I/O error; a disk too short to hold the
/// table, or a scaled length that overflows its field, is an invalid
/// layout.
pub open spec fn adjust_outcome(data: Seq<u8>, fault: Option<DiskFault>, num: int, den: int)
    -> Option<CloneError> {
    if table_read_fires(fault) {
        Some(CloneError::Io)
    } else if data.len() < TABLE_OFFSET + TABLE_SIZE {
        Some(CloneError::InvalidLayout)
    } else if table_overflows(
        data.subrange(TABLE_OFFSET as int, TABLE_OFFSET + TABLE_SIZE),
        num,
        den,
    ) {
        Some(CloneError::InvalidLayout)
    } else {
        None
    }
}

/// The disk contents after a successful rescale: only the 64 bytes of the
/// table change, to its scaled image.
pub open spec fn adjusted_data(data: Seq<u8>, num: int, den: int) -> Seq<u8> {
    data.take(TABLE_OFFSET as int)
        + table_scaled(data.subrange(TABLE_OFFSET as int, TABLE_OFFSET + TABLE_SIZE), num, den)
        + data.skip(TABLE_OFFSET + TABLE_SIZE)
}

/// A finished target is reported as exactly one hundred percent.
pub proof fn lemma_percent_complete(total: int)
    requires
        total > 0,
    ensures
        percent_of(total, total) == 100,
{
    vstd::arithmetic::div_mod::lemma_div_multiples_vanish(100, total);
}

/// A full copy leaves the same destination whatever the chunk size, and
/// its first `total` bytes equal the source's first `total` bytes.
pub proof fn lemma_copy_chunk_invariant(
    d0: Seq<u8>,
    source: MemDisk,
    total: int,
    c1: int,
    c2: int,
)
    requires
        source.wf(),
        !copy_fires(source, total),
        0 <= total,
        c1 >= 1,
        c2 >= 1,
    ensures
        stream_data(d0, source, total, c1) == stream_data(d0, source, total, c2),
        total <= source.data@.len() ==> stream_data(d0, source, total, c1).take(total)
            == source.data@.take(total),
{
    if total <= source.data@.len() {
        assert(stream_data(d0, source, total, c1).take(total) =~= source.data@.take(total));
    }
}

/// Aimed at `used` bytes, a faultless copy of a large enough source
/// transfers exactly `used` bytes, reports one hundred percent of them,
/// and never touches a destination byte at or beyond `used`.
pub proof fn lemma_used_only_copies_exactly(
    d0: Seq<u8>,
    p0: int,
    source: MemDisk,
    used: int,
    chunk: int,
)
    requires
        source.wf(),
        source.fault is None,
        chunk >= 1,
        0 < used <= source.data@.len(),
    ensures
        copied_bytes(source, used, chunk) == used,
        stream_data(d0, source, used, chunk).take(used) == source.data@.take(used),
        forall|j: int|
            used <= j < d0.len() ==> #[trigger] stream_data(d0, source, used, chunk)[j] == d0[j],
        stream_progress(p0, source, used, chunk) == 100,
{
    assert(stream_data(d0, source, used, chunk).take(used) =~= source.data@.take(used));
    lemma_percent_complete(used);
}

/// When the streaming copy hits the designated bad region, the error it
/// returns carries exactly the number of bytes already copied.
pub proof fn lemma_bad_sector_reports_copied(source: MemDisk, total: int, chunk: int)
    requires
        source.wf(),
        chunk >= 1,
        source.fault matches Some(f) && f.kind == FaultKind::BadRegion && f.offset < total,
    ensures
        stream_result(source, total, chunk) == Err::<(), CloneError>(
            CloneError::BadSector(copied_bytes(source, total, chunk) as u64),
        ),
{
}

/// Overwriting one more chunk extends the copied prefix by that chunk.
proof fn lemma_copy_image_step(d0: Seq<u8>, s: Seq<u8>, c: int, n: int)
    requires
        0 <= c,
        0 <= n,
        c + n <= s.len(),
    ensures
        write_window(copy_image(d0, s, c), c, s.subrange(c, c + n)) == copy_image(d0, s, c + n),
{
    assert(write_window(copy_image(d0, s, c), c, s.subrange(c, c + n))
        =~= copy_image(d0, s, c + n));
}

/// Clones a source disk to a destination disk under a fixed strategy,
/// streaming in chunks of `buffer_size` bytes and publishing its progress
/// as an integer percentage between 0 and 100.
pub struct DiskCloner {
    pub buffer_size: usize,
    pub mode: CloneMode,
    pub progress: u64,
}

impl DiskCloner {
    pub open spec fn wf(&self) -> bool {
        &&& self.buffer_size >= 1
        &&& self.progress <= 100
    }

    pub fn new(mode: CloneMode) -> (r: DiskCloner)
        ensures
            r.mode == mode,
            r.buffer_size == 1024 * 1024,
            r.progress == 0,
            r.wf(),
    {
        DiskCloner {
            buffer_size: 1024 * 1024,  // 1 MiB chunks
            mode,
            progress: 0,
        }
    }

    /// The last stored progress value, as an integer percentage 0..=100.
    pub fn get_progress(&self) -> (r: u64)
        ensures
            r == self.progress,
    {
        self.progress
    }

    /// Store completion of `current` out of `total` bytes as a
    /// percentage.
    pub fn update_progress(&mut self, current: u64, total: u64)
        ensures
            final(self).progress == percent_of(current as int, total as int),
            final(self).progress <= 100,
            final(self).mode == old(self).mode,
            final(self).buffer_size == old(self).buffer_size,
    {
        if total == 0 {
            self.progress = 0;
        } else {
            let raw: u128 = (current as u128) * 100 / (total as u128);
            if raw > 100 {
                self.progress = 100;
            } else {
                self.progress = raw as u64;
            }
        }
    }

    /// Describe a disk. The used-space figure is a degenerate placeholder
    /// equal to the total capacity: a real deployment would substitute a
    /// filesystem-aware resolver without touching any caller.
    pub fn get_disk_info(&self, disk: &MemDisk) -> (r: DiskInfo)
        ensures
            r.total_size == disk.data@.len(),
            r.used_space == disk.data@.len(),
            r.sector_size == 512,
            r.wf(),
    {
        let len = disk.len();
        DiskInfo { total_size: len, used_space: len, sector_size: 512 }
    }

    /// The shared streaming primitive: copy the first `total_size` bytes
    /// of the source to the start of the destination, in chunks of
    /// `buffer_size` bytes, updating progress after every chunk. Reading
    /// zero bytes early is a clean end of stream; a read that reaches the
    /// source's faulty region surfaces as a bad-sector error carrying the
    /// bytes copied so far, or as an I/O error for any other fault kind.
    /// The destination's first `copied` bytes equal the source's first
    /// `copied` bytes whatever the chunk size; bytes beyond are untouched.
    pub fn clone_sector_by_sector(
        &mut self,
        source: &MemDisk,
        dest: &mut MemDisk,
        total_size: u64,
    ) -> (r: Result<(), CloneError>)
        requires
            old(self).wf(),
            source.wf(),
        ensures
            final(self).wf(),
            final(self).mode == old(self).mode,
            final(self).buffer_size == old(self).buffer_size,
            final(dest).fault == old(dest).fault,
            r == stream_result(*source, total_size as int, old(self).buffer_size as int),
            final(dest).data@ == stream_data(
                old(dest).data@,
                *source,
                total_size as int,
                old(self).buffer_size as int,
            ),
            final(self).progress == stream_progress(
                old(self).progress as int,
                *source,
                total_size as int,
                old(self).buffer_size as int,
            ),
    {
        let chunk: usize = self.buffer_size;
        let ghost chunki = chunk as int;
        let ghost totali = total_size as int;
        let ghost d0 = old(dest).data@;
        let ghost s = source.data@;
        let mut bytes_copied: u64 = 0;
        let mut done: bool = false;
        proof {
            assert(copy_image(d0, s, 0) =~= d0);
        }
        while bytes_copied < total_size && !done
            invariant
                self.wf(),
                self.mode == old(self).mode,
                self.buffer_size == old(self).buffer_size,
                source.wf(),
                dest.fault == old(dest).fault,
                chunk == old(self).buffer_size,
                chunk >= 1,
                chunki == chunk as int,
                totali == total_size as int,
                d0 == old(dest).data@,
                s == source.data@,
                bytes_copied <= total_size,
                bytes_copied <= s.len(),
                dest.data@ == copy_image(d0, s, bytes_copied as int),
                self.progress == if bytes_copied > 0 {
                    percent_of(bytes_copied as int, totali)
                } else {
                    old(self).progress as int
                },
                copy_fires(*source, totali) ==> (source.fault matches Some(f)
                    && bytes_copied <= f.offset && bytes_copied as int % chunki == 0),
                done ==> (bytes_copied == s.len() && source.fault is None
                    && bytes_copied < total_size),
            decreases total_size - bytes_copied, (if done { 0int } else { 1int }),
        {
            let to_read: u64 = if (chunk as u64) < total_size - bytes_copied {
                chunk as u64
            } else {
                total_size - bytes_copied
            };
            match source.read_at(bytes_copied, to_read) {
                Err(k) => {
                    proof {
                        let foff = match source.fault {
                            Some(f) => f.offset as int,
                            None => 0int,
                        };
                        assert(source.fault is Some);
                        assert(bytes_copied + to_read > foff);
                        assert(foff < totali);
                        assert(copy_fires(*source, totali));
                        let q = bytes_copied as int / chunki;
                        lemma_fundamental_div_mod(bytes_copied as int, chunki);
                        assert(bytes_copied as int == chunki * q);
                        lemma_fundamental_div_mod_converse(
                            foff,
                            chunki,
                            q,
                            foff - bytes_copied as int,
                        );
                        assert(foff / chunki == q);
                        assert(fail_point(foff, chunki) == bytes_copied as int);
                    }
                    match k {
                        FaultKind::BadRegion => {
                            return Err(CloneError::BadSector(bytes_copied));
                        },
                        FaultKind::Other => {
                            return Err(CloneError::Io);
                        },
                    }
                },
                Ok(buf) => {
                    let n: usize = buf.len();
                    if n == 0 {
                        proof {
                            assert(bytes_copied >= s.len());
                            if source.fault is Some {
                                assert(source.read_fires(bytes_copied as int, to_read as int));
                            }
                        }
                        done = true;
                    } else {
                        proof {
                            assert(buf@ == read_window(s, bytes_copied as int, to_read as int));
                            assert(bytes_copied < s.len());
                            assert(buf@ == s.subrange(
                                bytes_copied as int,
                                bytes_copied + n,
                            ));
                            assert(dest.data@.len() >= bytes_copied);
                            lemma_copy_image_step(d0, s, bytes_copied as int, n as int);
                            if copy_fires(*source, totali) {
                                let foff = match source.fault {
                                    Some(f) => f.offset as int,
                                    None => 0int,
                                };
                                assert(bytes_copied + to_read <= foff);
                                assert(to_read == chunk);
                                assert(n == to_read);
                                let q = bytes_copied as int / chunki;
                                lemma_fundamental_div_mod(bytes_copied as int, chunki);
                                assert(bytes_copied as int == chunki * q);
                                assert((q + 1) * chunki == q * chunki + chunki
                                    && chunki * q == q * chunki) by (nonlinear_arith);
                                lemma_fundamental_div_mod_converse(
                                    bytes_copied as int + chunki,
                                    chunki,
                                    q + 1,
                                    0,
                                );
                            }
                        }
                        dest.write_at(bytes_copied, &buf);
                        bytes_copied = bytes_copied + n as u64;
                        self.update_progress(bytes_copied, total_size);
                    }
                },
            }
        }
        proof {
            assert(!copy_fires(*source, totali));
            assert(bytes_copied as int == copied_bytes(*source, totali, chunki));
        }
        Ok(())
    }

    /// Copy only the leading `used_space` bytes of the source: the shared
    /// streaming primitive aimed at the used extent.
    pub fn smart_clone(
        &mut self,
        source: &MemDisk,
        dest: &mut MemDisk,
        source_info: &DiskInfo,
    ) -> (r: Result<(), CloneError>)
        requires
            old(self).wf(),
            source.wf(),
        ensures
            final(self).wf(),
            final(self).mode == old(self).mode,
            final(self).buffer_size == old(self).buffer_size,
            final(dest).fault == old(dest).fault,
            r == stream_result(*source, source_info.used_space as int, old(self).buffer_size as int),
            final(dest).data@ == stream_data(
                old(dest).data@,
                *source,
                source_info.used_space as int,
                old(self).buffer_size as int,
            ),
            final(self).progress == stream_progress(
                old(self).progress as int,
                *source,
                source_info.used_space as int,
                old(self).buffer_size as int,
            ),
    {
        self.clone_sector_by_sector(source, dest, source_info.used_space)
    }

    /// Rescale the destination's partition table in place by `factor`:
    /// read the 64-byte table, scale every non-empty entry's length, and
    /// write the table back at the same offset. Start sectors, type codes
    /// and empty entries are kept bit-for-bit. Fails without modifying
    /// anything when the table region is missing or faulty, or when a
    /// scaled length overflows its 32-bit field.
    pub fn adjust_partition_table(
        &self,
        dest: &mut MemDisk,
        factor: ScaleFactor,
    ) -> (r: Result<(), CloneError>)
        requires
            factor.wf(),
        ensures
            final(dest).fault == old(dest).fault,
            match adjust_outcome(
                old(dest).data@,
                old(dest).fault,
                factor.num as int,
                factor.den as int,
            ) {
                Some(e) => r == Err::<(), CloneError>(e) && final(dest).data@ == old(dest).data@,
                None => r == Ok::<(), CloneError>(()) && final(dest).data@ == adjusted_data(
                    old(dest).data@,
                    factor.num as int,
                    factor.den as int,
                ),
            },
    {
        match dest.read_at(TABLE_OFFSET, TABLE_SIZE) {
            Err(_) => Err(CloneError::Io),
            Ok(t) => {
                if t.len() < 64 {
                    return Err(CloneError::InvalidLayout);
                }
                proof {
                    assert(dest.data@.len() >= TABLE_OFFSET + TABLE_SIZE);
                    assert(t@ == dest.data@.subrange(
                        TABLE_OFFSET as int,
                        TABLE_OFFSET + TABLE_SIZE,
                    ));
                }
                match rescale_table(&t, &factor) {
                    None => Err(CloneError::InvalidLayout),
                    Some(new_table) => {
                        proof {
                            crate::table::lemma_table_scaled_entry(
                                t@,
                                factor.num as int,
                                factor.den as int,
                                0,
                            );
                            assert(new_table@.len() == 64);
                        }
                        dest.write_at(TABLE_OFFSET, &new_table);
                        proof {
                            assert(dest.data@ =~= adjusted_data(
                                old(dest).data@,
                                factor.num as int,
                                factor.den as int,
                            ));
                        }
                        Ok(())
                    },
                }
            },
        }
    }

    /// Copy the used bytes, then rescale the destination's partition
    /// table by the exact ratio of destination capacity to source
    /// capacity. A source with zero capacity admits no meaningful scale
    /// factor and is rejected as an invalid layout before any byte moves.
    pub fn auto_fit_clone(
        &mut self,
        source: &MemDisk,
        dest: &mut MemDisk,
        source_info: &DiskInfo,
        dest_info: &DiskInfo,
    ) -> (r: Result<(), CloneError>)
        requires
            old(self).wf(),
            source.wf(),
        ensures
            final(self).wf(),
            final(self).mode == old(self).mode,
            final(self).buffer_size == old(self).buffer_size,
            final(dest).fault == old(dest).fault,
            source_info.total_size == 0 ==> (r == Err::<(), CloneError>(CloneError::InvalidLayout)
                && final(dest).data@ == old(dest).data@
                && final(self).progress == old(self).progress),
            source_info.total_size > 0 ==> ({
                let chunk = old(self).buffer_size as int;
                let total = source_info.used_space as int;
                let num = dest_info.total_size as int;
                let den = source_info.total_size as int;
                let d1 = stream_data(old(dest).data@, *source, total, chunk);
                &&& final(self).progress == stream_progress(
                    old(self).progress as int,
                    *source,
                    total,
                    chunk,
                )
                &&& if copy_fires(*source, total) {
                    r == Err::<(), CloneError>(copy_error(*source, total, chunk))
                        && final(dest).data@ == d1
                } else {
                    match adjust_outcome(d1, old(dest).fault, num, den) {
                        Some(e) => r == Err::<(), CloneError>(e) && final(dest).data@ == d1,
                        None => r == Ok::<(), CloneError>(()) && final(dest).data@
                            == adjusted_data(d1, num, den),
                    }
                }
            }),
    {
        if source_info.total_size == 0 {
            return Err(CloneError::InvalidLayout);
        }
        // The exact ratio of the capacities.
        let scale_factor = ScaleFactor::new(dest_info.total_size, source_info.total_size);
        match self.smart_clone(source, dest, source_info) {
            Err(e) => Err(e),
            Ok(()) => self.adjust_partition_table(dest, scale_factor),
        }
    }

    /// Run one clone: resolve both descriptors, refuse a source larger
    /// than the destination under any full-extent mode before touching a
    /// byte, then dispatch to the strategy of `self.mode`.
    pub fn clone_disk(&mut self, source: &MemDisk, dest: &mut MemDisk) -> (r: Result<
        (),
        CloneError,
    >)
        requires
            old(self).wf(),
            source.wf(),
        ensures
            final(self).wf(),
            final(self).mode == old(self).mode,
            final(self).buffer_size == old(self).buffer_size,
            final(dest).fault == old(dest).fault,
            ({
                let chunk = old(self).buffer_size as int;
                let st = source.data@.len() as int;
                let dt = old(dest).data@.len() as int;
                let d1 = stream_data(old(dest).data@, *source, st, chunk);
                if st > dt && old(self).mode != CloneMode::SmartClone {
                    &&& r == Err::<(), CloneError>(CloneError::DiskSizeMismatch)
                    &&& final(dest).data@ == old(dest).data@
                    &&& final(self).progress == old(self).progress
                } else if old(self).mode == CloneMode::AutoFit && st == 0 {
                    &&& r == Err::<(), CloneError>(CloneError::InvalidLayout)
                    &&& final(dest).data@ == old(dest).data@
                    &&& final(self).progress == old(self).progress
                } else {
                    &&& final(self).progress == stream_progress(
                        old(self).progress as int,
                        *source,
                        st,
                        chunk,
                    )
                    &&& if copy_fires(*source, st) {
                        r == Err::<(), CloneError>(copy_error(*source, st, chunk))
                            && final(dest).data@ == d1
                    } else if old(self).mode == CloneMode::AutoFit {
                        match adjust_outcome(d1, old(dest).fault, dt, st) {
                            Some(e) => r == Err::<(), CloneError>(e) && final(dest).data@ == d1,
                            None => r == Ok::<(), CloneError>(()) && final(dest).data@
                                == adjusted_data(d1, dt, st),
                        }
                    } else {
                        r == Ok::<(), CloneError>(()) && final(dest).data@ == d1
                    }
                }
            }),
    {
        let source_info = self.get_disk_info(source);
        let dest_info = self.get_disk_info(dest);

        // Pre-flight size check: every mode but SmartClone copies the full
        // extent and needs the destination to be at least as large.
        if source_info.total_size > dest_info.total_size && self.mode != CloneMode::SmartClone {
            return Err(CloneError::DiskSizeMismatch);
        }

        match self.mode {
            CloneMode::SectorBySector => {
                self.clone_sector_by_sector(source, dest, source_info.total_size)
            },
            CloneMode::SmartClone => self.smart_clone(source, dest, &source_info),
            CloneMode::AutoFit => self.auto_fit_clone(source, dest, &source_info, &dest_info),
        }
    }
}

} // verus!
