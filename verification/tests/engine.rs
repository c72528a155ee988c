use disk_backup::cloner::{CloneMode, DiskCloner};
use disk_backup::disk::{DiskInfo, FaultKind, MemDisk};
use disk_backup::errors::CloneError;
use disk_backup::table::{read_le32, rescale_table, scale_length, ScaleFactor};

const TABLE_OFFSET: usize = 0x1BE;

/// A disk image of `size` zero bytes with one partition entry: type code
/// `ptype` and little-endian length `length` in table slot `slot`.
fn disk_with_entry(size: usize, slot: usize, ptype: u8, length: u32) -> Vec<u8> {
    let mut data = vec![0u8; size];
    let base = TABLE_OFFSET + 16 * slot;
    data[base + 4] = ptype;
    let le = length.to_le_bytes();
    data[base + 12] = le[0];
    data[base + 13] = le[1];
    data[base + 14] = le[2];
    data[base + 15] = le[3];
    data
}

fn entry_length(data: &[u8], slot: usize) -> u32 {
    let base = TABLE_OFFSET + 16 * slot;
    u32::from_le_bytes([
        data[base + 12],
        data[base + 13],
        data[base + 14],
        data[base + 15],
    ])
}

#[test]
fn new_cloner_defaults() {
    let c = DiskCloner::new(CloneMode::SmartClone);
    assert_eq!(c.get_progress(), 0);
    assert_eq!(c.buffer_size, 1024 * 1024);
}

#[test]
fn progress_exact_values() {
    let mut c = DiskCloner::new(CloneMode::SectorBySector);
    c.update_progress(50, 200);
    assert_eq!(c.get_progress(), 25);
    c.update_progress(10, 10);
    assert_eq!(c.get_progress(), 100);
    c.update_progress(0, 10);
    assert_eq!(c.get_progress(), 0);
    c.update_progress(1, 3);
    assert_eq!(c.get_progress(), 33);
    c.update_progress(5, 0);
    assert_eq!(c.get_progress(), 0);
    // Clamped to the 0..=100 range even past the target.
    c.update_progress(7, 3);
    assert_eq!(c.get_progress(), 100);
}

#[test]
fn full_copy_is_chunk_size_invariant() {
    let src_bytes: Vec<u8> = (0..100u8).collect();
    let mut results: Vec<Vec<u8>> = Vec::new();
    for chunk in [1usize, 7, 13, 100, 1000] {
        let mut c = DiskCloner::new(CloneMode::SectorBySector);
        c.buffer_size = chunk;
        let src = MemDisk::new(src_bytes.clone());
        let mut dst = MemDisk::new(vec![0xEEu8; 100]);
        let r = c.clone_sector_by_sector(&src, &mut dst, 100);
        assert!(r.is_ok());
        assert_eq!(&dst.data[..100], &src_bytes[..]);
        results.push(dst.data);
    }
    for r in &results {
        assert_eq!(r, &results[0]);
    }
}

#[test]
fn used_only_copies_exactly_used_space() {
    let src_bytes: Vec<u8> = (1..=10u8).collect();
    let mut c = DiskCloner::new(CloneMode::SmartClone);
    c.buffer_size = 4;
    let src = MemDisk::new(src_bytes.clone());
    let mut dst = MemDisk::new(vec![0xEEu8; 10]);
    let info = DiskInfo { total_size: 10, used_space: 6, sector_size: 512 };
    let r = c.smart_clone(&src, &mut dst, &info);
    assert!(r.is_ok());
    assert_eq!(&dst.data[..6], &src_bytes[..6]);
    // Bytes at and beyond used_space are never touched.
    assert_eq!(&dst.data[6..], &[0xEEu8; 4][..]);
    // Progress reads 100% of used_space at completion.
    assert_eq!(c.get_progress(), 100);
}

#[test]
fn preflight_rejects_larger_source_without_writing() {
    for mode in [CloneMode::SectorBySector, CloneMode::AutoFit] {
        let mut c = DiskCloner::new(mode);
        let src = MemDisk::new(vec![1u8; 10]);
        let mut dst = MemDisk::new(vec![9u8; 5]);
        let r = c.clone_disk(&src, &mut dst);
        assert_eq!(r, Err(CloneError::DiskSizeMismatch));
        // Zero writes to the destination, and no progress recorded.
        assert_eq!(dst.data, vec![9u8; 5]);
        assert_eq!(c.get_progress(), 0);
    }
}

#[test]
fn smart_clone_skips_preflight_size_check() {
    let mut c = DiskCloner::new(CloneMode::SmartClone);
    let src = MemDisk::new(vec![3u8; 10]);
    let mut dst = MemDisk::new(vec![0u8; 5]);
    let r = c.clone_disk(&src, &mut dst);
    assert!(r.is_ok());
    assert_eq!(dst.data, vec![3u8; 10]);
}

#[test]
fn rescale_factor_one_changes_nothing() {
    let c = DiskCloner::new(CloneMode::AutoFit);
    let data = disk_with_entry(1024, 0, 0x83, 1000);
    let mut dst = MemDisk::new(data.clone());
    let r = c.adjust_partition_table(&mut dst, ScaleFactor::new(1, 1));
    assert!(r.is_ok());
    assert_eq!(dst.data, data);
}

#[test]
fn rescale_never_touches_empty_entries() {
    let c = DiskCloner::new(CloneMode::AutoFit);
    // Type code 0 marks an empty entry: its length field stays, whatever
    // the factor.
    let data = disk_with_entry(1024, 1, 0x00, 7777);
    let mut dst = MemDisk::new(data.clone());
    let r = c.adjust_partition_table(&mut dst, ScaleFactor::new(5, 1));
    assert!(r.is_ok());
    assert_eq!(dst.data, data);
}

#[test]
fn rescale_exact_values() {
    let c = DiskCloner::new(CloneMode::AutoFit);

    let mut dst = MemDisk::new(disk_with_entry(1024, 0, 0x83, 1000));
    assert!(c.adjust_partition_table(&mut dst, ScaleFactor::new(2, 1)).is_ok());
    assert_eq!(entry_length(&dst.data, 0), 2000);

    let mut dst = MemDisk::new(disk_with_entry(1024, 0, 0x83, 1000));
    assert!(c.adjust_partition_table(&mut dst, ScaleFactor::new(1, 2)).is_ok());
    assert_eq!(entry_length(&dst.data, 0), 500);

    // Truncation toward zero for fractional results.
    let mut dst = MemDisk::new(disk_with_entry(1024, 0, 0x83, 3));
    assert!(c.adjust_partition_table(&mut dst, ScaleFactor::new(1, 2)).is_ok());
    assert_eq!(entry_length(&dst.data, 0), 1);
}

#[test]
fn rescale_keeps_start_sector_and_type() {
    let c = DiskCloner::new(CloneMode::AutoFit);
    let mut data = disk_with_entry(1024, 0, 0x83, 1000);
    let base = TABLE_OFFSET;
    // A start sector of 2048, little-endian, at entry bytes 8..12.
    data[base + 8] = 0x00;
    data[base + 9] = 0x08;
    let mut dst = MemDisk::new(data);
    assert!(c.adjust_partition_table(&mut dst, ScaleFactor::new(3, 1)).is_ok());
    assert_eq!(dst.data[base + 4], 0x83);
    assert_eq!(
        u32::from_le_bytes([
            dst.data[base + 8],
            dst.data[base + 9],
            dst.data[base + 10],
            dst.data[base + 11],
        ]),
        2048
    );
    assert_eq!(entry_length(&dst.data, 0), 3000);
}

#[test]
fn rescale_overflow_is_invalid_layout() {
    let c = DiskCloner::new(CloneMode::AutoFit);
    let data = disk_with_entry(1024, 0, 0x83, u32::MAX - 1);
    let mut dst = MemDisk::new(data.clone());
    let r = c.adjust_partition_table(&mut dst, ScaleFactor::new(2, 1));
    assert_eq!(r, Err(CloneError::InvalidLayout));
    // Rejected, not wrapped: the destination is left as it was.
    assert_eq!(dst.data, data);

    let table: Vec<u8> = data[TABLE_OFFSET..TABLE_OFFSET + 64].to_vec();
    assert_eq!(rescale_table(&table, &ScaleFactor::new(2, 1)), None);
}

#[test]
fn rescale_near_max_without_overflow() {
    // The largest length that survives doubling.
    let len = u32::MAX / 2;
    let c = DiskCloner::new(CloneMode::AutoFit);
    let mut dst = MemDisk::new(disk_with_entry(1024, 0, 0x83, len));
    assert!(c.adjust_partition_table(&mut dst, ScaleFactor::new(2, 1)).is_ok());
    assert_eq!(entry_length(&dst.data, 0), len * 2);
}

#[test]
fn rescale_on_short_disk_is_invalid_layout() {
    let c = DiskCloner::new(CloneMode::AutoFit);
    let mut dst = MemDisk::new(vec![0u8; 100]);
    let r = c.adjust_partition_table(&mut dst, ScaleFactor::new(1, 1));
    assert_eq!(r, Err(CloneError::InvalidLayout));
    assert_eq!(dst.data, vec![0u8; 100]);
}

#[test]
fn bad_sector_reports_bytes_already_copied() {
    let mut c = DiskCloner::new(CloneMode::SectorBySector);
    c.buffer_size = 2;
    let src = MemDisk::with_fault(vec![9u8; 10], 5, FaultKind::BadRegion);
    let mut dst = MemDisk::new(Vec::new());
    let r = c.clone_sector_by_sector(&src, &mut dst, 10);
    // Two full 2-byte chunks fit below offset 5; the third read hits it.
    assert_eq!(r, Err(CloneError::BadSector(4)));
    assert_eq!(dst.data, vec![9u8; 4]);
}

#[test]
fn bad_sector_at_start_reports_zero() {
    let mut c = DiskCloner::new(CloneMode::SectorBySector);
    let src = MemDisk::with_fault(vec![9u8; 10], 0, FaultKind::BadRegion);
    let mut dst = MemDisk::new(Vec::new());
    let r = c.clone_sector_by_sector(&src, &mut dst, 10);
    assert_eq!(r, Err(CloneError::BadSector(0)));
    assert_eq!(dst.data, Vec::<u8>::new());
}

#[test]
fn other_read_fault_is_io_error() {
    let mut c = DiskCloner::new(CloneMode::SectorBySector);
    c.buffer_size = 2;
    let src = MemDisk::with_fault(vec![9u8; 10], 5, FaultKind::Other);
    let mut dst = MemDisk::new(Vec::new());
    let r = c.clone_sector_by_sector(&src, &mut dst, 10);
    assert_eq!(r, Err(CloneError::Io));
}

#[test]
fn early_end_of_stream_is_clean() {
    let mut c = DiskCloner::new(CloneMode::SectorBySector);
    let src = MemDisk::new(vec![5u8, 6u8, 7u8]);
    let mut dst = MemDisk::new(Vec::new());
    let r = c.clone_sector_by_sector(&src, &mut dst, 10);
    assert!(r.is_ok());
    assert_eq!(dst.data, vec![5u8, 6u8, 7u8]);
    assert_eq!(c.get_progress(), 30);
}

#[test]
fn empty_source_full_copy() {
    let mut c = DiskCloner::new(CloneMode::SectorBySector);
    let src = MemDisk::new(Vec::new());
    let mut dst = MemDisk::new(Vec::new());
    let r = c.clone_disk(&src, &mut dst);
    assert!(r.is_ok());
    assert_eq!(dst.data, Vec::<u8>::new());
    assert_eq!(c.get_progress(), 0);
}

#[test]
fn auto_fit_on_empty_source_is_invalid_layout() {
    let mut c = DiskCloner::new(CloneMode::AutoFit);
    let src = MemDisk::new(Vec::new());
    let mut dst = MemDisk::new(vec![4u8; 600]);
    let r = c.clone_disk(&src, &mut dst);
    assert_eq!(r, Err(CloneError::InvalidLayout));
    assert_eq!(dst.data, vec![4u8; 600]);
}

#[test]
fn auto_fit_scales_by_capacity_ratio() {
    // Source of 1024 bytes with one 100-sector partition; destination of
    // 2048 bytes: the ratio is exactly 2.
    let src_data = disk_with_entry(1024, 0, 0x83, 100);
    let mut c = DiskCloner::new(CloneMode::AutoFit);
    let src = MemDisk::new(src_data.clone());
    let mut dst = MemDisk::new(vec![0xAAu8; 2048]);
    let r = c.clone_disk(&src, &mut dst);
    assert!(r.is_ok());
    assert_eq!(entry_length(&dst.data, 0), 200);
    // Everything but the length field matches the source image.
    let mut expected = src_data;
    let le = 200u32.to_le_bytes();
    expected[TABLE_OFFSET + 12..TABLE_OFFSET + 16].copy_from_slice(&le);
    assert_eq!(&dst.data[..1024], &expected[..]);
    // The destination's own tail was never touched.
    assert_eq!(&dst.data[1024..], &[0xAAu8; 1024][..]);
    assert_eq!(c.get_progress(), 100);
}

#[test]
fn read_le32_exact() {
    let bytes = vec![0x78u8, 0x56, 0x34, 0x12];
    assert_eq!(read_le32(&bytes, 0), 0x1234_5678);
}

#[test]
fn scale_length_exact() {
    assert_eq!(scale_length(1000, &ScaleFactor::new(2, 1)), Some(2000));
    assert_eq!(scale_length(1000, &ScaleFactor::new(1, 2)), Some(500));
    assert_eq!(scale_length(3, &ScaleFactor::new(1, 2)), Some(1));
    assert_eq!(scale_length(u32::MAX - 1, &ScaleFactor::new(2, 1)), None);
}

#[test]
fn end_to_end_ten_mib_full_copy() {
    let size = 10 * 1024 * 1024;
    let mut src_data = Vec::with_capacity(size);
    for i in 0..size {
        src_data.push((i % 256) as u8);
    }
    let mut c = DiskCloner::new(CloneMode::SectorBySector);
    assert_eq!(c.buffer_size, 1024 * 1024);
    let src = MemDisk::new(src_data.clone());
    let mut dst = MemDisk::new(vec![0u8; size]);
    let r = c.clone_disk(&src, &mut dst);
    assert!(r.is_ok());
    assert_eq!(dst.data, src_data);
    assert_eq!(c.get_progress(), 100);
}
