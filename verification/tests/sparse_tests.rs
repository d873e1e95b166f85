use pawflash::errors::FlashError;
use pawflash::sparse::{
    build_split_chunks, check_splittable, split_for_download, split_raw_for_download,
    ChunkHeaderInfo, SparseChunkType, SplitPiece, is_all_zero, is_sparse_magic, plan_sparse_image, wrap_sizes, ChunkError,
    ChunkKind, RunScanner, SparseChunk, SparseFileHeader, SparsePlanError, CRYPT_FOOTER_OFFSET,
    SPARSE_BLOCK_SIZE, SPARSE_CHUNK_HEADER_LEN, SPARSE_FILE_HEADER_LEN, SPARSE_HEADER_MAGIC,
};

#[test]
fn sparse_magic_constant_is_correct() {
    assert_eq!(
        android_sparse_image::HEADER_MAGIC,
        0xED26_FF3A,
        "sparse magic constant should match known value"
    );
    assert_eq!(SPARSE_HEADER_MAGIC, android_sparse_image::HEADER_MAGIC);
    assert_eq!(SPARSE_FILE_HEADER_LEN, android_sparse_image::FILE_HEADER_BYTES_LEN);
    assert_eq!(SPARSE_CHUNK_HEADER_LEN, android_sparse_image::CHUNK_HEADER_BYTES_LEN);
    assert_eq!(SPARSE_BLOCK_SIZE, android_sparse_image::DEFAULT_BLOCKSIZE);
}

#[test]
fn zero_partition_yields_zero_blocks() {
    assert!(
        u64::from(android_sparse_image::DEFAULT_BLOCKSIZE) > 0,
        "block size must be positive",
    );
    let s = wrap_sizes(0, 0, 0, u64::from(SPARSE_BLOCK_SIZE));
    assert!(s.erase_only);
}

#[test]
fn is_sparse_image_detects_magic() {
    let magic = 0xED26_FF3Au32.to_le_bytes();
    assert!(is_sparse_magic(&magic));
}

#[test]
fn is_sparse_image_rejects_raw() {
    let raw = b"this is not a sparse image";
    assert!(!is_sparse_magic(&[raw[0], raw[1], raw[2], raw[3]]));
}

#[test]
fn sparse_header_parses_and_expands() {
    let data = [
        0x3au8, 0xff, 0x26, 0xed, 0x01, 0x00, 0x00, 0x00, 0x1c, 0x00, 0x0c, 0x00, 0x00, 0x10,
        0x00, 0x00, 0x77, 0x39, 0x14, 0x00, 0xb1, 0x00, 0x00, 0x00, 0xaa, 0x00, 0x00, 0xcc,
    ];
    let h = SparseFileHeader::parse(&data).unwrap();
    assert_eq!(
        h,
        SparseFileHeader { block_size: 4096, blocks: 1325431, chunks: 177, checksum: 0xcc0000aa }
    );
    assert_eq!(h.expanded_size(), 1325431u64 * 4096);
    let mut bad = data;
    bad[4] = 2;
    assert_eq!(SparseFileHeader::parse(&bad), None);
}

#[test]
fn split_chunks_alternate_and_cover_footer() {
    let blk = 4096u64;
    let extents = vec![(0u64, 2 * blk, true), (2 * blk, 100, false), (2 * blk, 3 * blk, false)];
    let part = 10 * blk;
    let eff = part - CRYPT_FOOTER_OFFSET;
    let chunks = build_split_chunks(&extents, eff, part, blk).unwrap();
    assert_eq!(chunks.len(), 3);
    assert_eq!(
        chunks[0],
        SparseChunk { kind: ChunkKind::Raw, blocks: 2, total_size: 12 + 2 * 4096, offset: 0, size: 8192 }
    );
    assert_eq!(
        chunks[1],
        SparseChunk { kind: ChunkKind::DontCare, blocks: 3, total_size: 12, offset: 0, size: 0 }
    );
    assert_eq!(
        chunks[2],
        SparseChunk { kind: ChunkKind::DontCare, blocks: 4, total_size: 12, offset: 0, size: 0 }
    );
    let header = android_sparse_image::ChunkHeader::new_raw(2, 4096);
    assert_eq!(header.total_size, chunks[0].total_size);
}

#[test]
fn split_chunks_reject_huge_extent() {
    let extents = vec![(0u64, (u32::MAX as u64 + 1) * 4096, true)];
    assert_eq!(
        build_split_chunks(&extents, 0, 0, 4096),
        Err(ChunkError::BlockCountTooLarge(u32::MAX as u64 + 1))
    );
}

#[test]
fn run_scanner_merges_equal_blocks() {
    let mut s = RunScanner::new(5 * 4096 + 100, 4096);
    assert_eq!(s.block_limit(), 5);
    for kind in [true, true, false, false, true] {
        s.push_block(kind);
    }
    assert_eq!(s.seen(), 5);
    let runs = s.finish();
    assert_eq!(runs, vec![(0, 8192, true), (8192, 8192, false), (16384, 4096, true)]);
    assert_eq!(RunScanner::new(100, 4096).finish(), vec![]);
}

#[test]
fn all_zero_detection() {
    assert!(is_all_zero(&[0u8; 4096]));
    let mut b = [0u8; 33];
    b[32] = 1;
    assert!(!is_all_zero(&b));
    assert!(is_all_zero(&[]));
}

#[test]
fn sparse_image_plan_sizes_and_limits() {
    let chunks = vec![
        SparseChunk { kind: ChunkKind::Raw, blocks: 2, total_size: 12 + 8192, offset: 0, size: 8192 },
        SparseChunk { kind: ChunkKind::DontCare, blocks: 6, total_size: 12, offset: 0, size: 0 },
    ];
    let plan = plan_sparse_image(&chunks, 1 << 20).unwrap();
    assert_eq!(plan.sparse_size, 28 + 12 + 8192 + 12);
    assert_eq!(plan.header, SparseFileHeader { block_size: 4096, blocks: 8, chunks: 2, checksum: 0 });
    assert_eq!(
        plan_sparse_image(&chunks, 100),
        Err(SparsePlanError::ExceedsMaxDownload { sparse_size: 8244, max_download: 100 })
    );
}

#[test]
fn wrap_sizes_saturate_and_clip() {
    let s = wrap_sizes(1 << 20, CRYPT_FOOTER_OFFSET, 4096, 4096);
    assert_eq!(s.effective_size, (1 << 20) - 0x4000);
    assert_eq!(s.scan_size, 4096);
    assert!(!s.erase_only);
    let s = wrap_sizes(100, 200, 50, 4096);
    assert_eq!(s.effective_size, 0);
    assert_eq!(s.scan_size, 0);
    assert!(s.erase_only);
}

#[test]
fn header_encoding_roundtrip() {
    let h = SparseFileHeader { block_size: 4096, blocks: 0x1234, chunks: 3, checksum: 0 };
    let b = h.to_bytes();
    assert_eq!(&b[0..4], &[0x3a, 0xff, 0x26, 0xed]);
    assert_eq!(&b[4..12], &[1, 0, 0, 0, 28, 0, 12, 0]);
    assert_eq!(&b[16..20], &[0x34, 0x12, 0, 0]);
    assert_eq!(SparseFileHeader::parse(&b), Some(h));
}

#[test]
fn chunk_header_encoding() {
    let raw = SparseChunk { kind: ChunkKind::Raw, blocks: 2, total_size: 8204, offset: 0, size: 8192 };
    assert_eq!(raw.header_bytes(), [0xc1, 0xca, 0, 0, 2, 0, 0, 0, 0x0c, 0x20, 0, 0]);
    let hole = SparseChunk { kind: ChunkKind::DontCare, blocks: 7, total_size: 12, offset: 0, size: 0 };
    assert_eq!(hole.header_bytes(), [0xc3, 0xca, 0, 0, 7, 0, 0, 0, 12, 0, 0, 0]);
}

#[test]
fn chunk_header_parse_and_data_size() {
    let raw = ChunkHeaderInfo::parse(&[0xc1, 0xca, 0, 0, 2, 0, 0, 0, 0x0c, 0x20, 0, 0]).unwrap();
    assert_eq!(raw, ChunkHeaderInfo { chunk_type: SparseChunkType::Raw, chunk_size: 2, total_size: 8204 });
    assert_eq!(raw.data_size(), 8192);
    let fill = ChunkHeaderInfo::parse(&[0xc2, 0xca, 0, 0, 8, 0, 0, 0, 16, 0, 0, 0]).unwrap();
    assert_eq!(fill.chunk_type, SparseChunkType::Fill);
    assert_eq!(fill.data_size(), 4);
    assert_eq!(ChunkHeaderInfo::parse(&[0xc5, 0xca, 0, 0, 8, 0, 0, 0, 16, 0, 0, 0]), None);
    let short = ChunkHeaderInfo { chunk_type: SparseChunkType::DontCare, chunk_size: 1, total_size: 4 };
    assert_eq!(short.data_size(), 0);
}

fn fill_then_raw() -> (SparseFileHeader, Vec<ChunkHeaderInfo>) {
    let header = SparseFileHeader { block_size: 4096, blocks: 1024, chunks: 2, checksum: 0 };
    let chunks = vec![
        ChunkHeaderInfo { chunk_type: SparseChunkType::Fill, chunk_size: 8, total_size: 16 },
        ChunkHeaderInfo { chunk_type: SparseChunkType::Raw, chunk_size: 1016, total_size: 12 + 1016 * 4096 },
    ];
    (header, chunks)
}

#[test]
fn split_whole_image_in_one_download() {
    let (header, chunks) = fill_then_raw();
    assert!(check_splittable(&header, &chunks));
    let splits = split_for_download(&header, &chunks, 1024 * 4096).unwrap();
    assert_eq!(splits.len(), 1);
    assert_eq!(splits[0].header, header);
    assert_eq!(splits[0].pieces.len(), 2);
    assert_eq!(splits[0].pieces[0], SplitPiece { header: chunks[0], offset: 40, size: 4 });
    assert_eq!(splits[0].pieces[1], SplitPiece { header: chunks[1], offset: 40 + 16, size: 1016 * 4096 });
    assert_eq!(splits[0].sparse_size(), Some(28 + 16 + 12 + 1016 * 4096));
}

#[test]
fn split_raw_chunk_across_downloads() {
    let header = SparseFileHeader { block_size: 4096, blocks: 4, chunks: 1, checksum: 0 };
    let chunks = vec![ChunkHeaderInfo { chunk_type: SparseChunkType::Raw, chunk_size: 4, total_size: 12 + 4 * 4096 }];
    let size: u32 = 28 + 12 + 12 + 2 * 4096;
    let splits = split_for_download(&header, &chunks, size).unwrap();
    assert_eq!(splits.len(), 2);
    let raw2 = ChunkHeaderInfo { chunk_type: SparseChunkType::Raw, chunk_size: 2, total_size: 8204 };
    assert_eq!(splits[0].header, SparseFileHeader { block_size: 4096, blocks: 2, chunks: 1, checksum: 0 });
    assert_eq!(splits[0].pieces, vec![SplitPiece { header: raw2, offset: 40, size: 8192 }]);
    let skip = ChunkHeaderInfo { chunk_type: SparseChunkType::DontCare, chunk_size: 2, total_size: 12 };
    assert_eq!(splits[1].header, SparseFileHeader { block_size: 4096, blocks: 4, chunks: 2, checksum: 0 });
    assert_eq!(
        splits[1].pieces,
        vec![SplitPiece { header: skip, offset: 0, size: 0 }, SplitPiece { header: raw2, offset: 40 + 8192, size: 8192 }]
    );
    for s in &splits {
        assert!(s.sparse_size().unwrap() <= size);
    }
}

#[test]
fn split_refuses_too_small_download() {
    let (header, chunks) = fill_then_raw();
    assert!(matches!(split_for_download(&header, &chunks, 100), Err(FlashError::SparseSplitFailed)));
    assert!(matches!(split_raw_for_download(8192, 4000), Err(FlashError::SparseSplitFailed)));
}

#[test]
fn splittable_rejects_overflowing_input() {
    let (mut header, chunks) = fill_then_raw();
    header.block_size = 0;
    assert!(!check_splittable(&header, &chunks));
    let header = SparseFileHeader { block_size: 4096, blocks: 0, chunks: 1, checksum: 0 };
    let huge = vec![ChunkHeaderInfo { chunk_type: SparseChunkType::DontCare, chunk_size: 1 << 21, total_size: 12 }];
    assert!(!check_splittable(&header, &huge));
}

#[test]
fn split_raw_image_into_sparse_download() {
    let splits = split_raw_for_download(8192, 1024 * 1024).unwrap();
    assert_eq!(splits.len(), 1);
    assert_eq!(splits[0].header, SparseFileHeader { block_size: 4096, blocks: 2, chunks: 1, checksum: 0 });
    let raw2 = ChunkHeaderInfo { chunk_type: SparseChunkType::Raw, chunk_size: 2, total_size: 8204 };
    assert_eq!(splits[0].pieces, vec![SplitPiece { header: raw2, offset: 0, size: 8192 }]);
    assert!(split_raw_for_download(0, 1024 * 1024).unwrap().is_empty());
}

#[test]
fn chunk_header_bytes_roundtrip() {
    let fill = ChunkHeaderInfo { chunk_type: SparseChunkType::Fill, chunk_size: 8, total_size: 16 };
    let b = fill.to_bytes();
    assert_eq!(b, [0xc2, 0xca, 0, 0, 8, 0, 0, 0, 16, 0, 0, 0]);
    assert_eq!(ChunkHeaderInfo::parse(&b), Some(fill));
}

#[test]
fn oversized_split_has_no_u32_size() {
    let big = ChunkHeaderInfo { chunk_type: SparseChunkType::Raw, chunk_size: 1, total_size: u32::MAX };
    let split = pawflash::sparse::SparseSplit {
        header: SparseFileHeader { block_size: 4096, blocks: 1, chunks: 1, checksum: 0 },
        pieces: vec![SplitPiece { header: big, offset: 40, size: 4096 }],
    };
    assert_eq!(split.sparse_size(), None);
}

#[test]
fn scanned_runs_become_chunks_in_order() {
    // blocks: data, data, zero, data; then a footer of one block.
    let mut scanner = RunScanner::new(4 * 4096, 4096);
    for is_data in [true, true, false, true] {
        scanner.push_block(is_data);
    }
    let extents = scanner.finish();
    assert_eq!(extents, vec![(0, 8192, true), (8192, 4096, false), (12288, 4096, true)]);
    let chunks = build_split_chunks(&extents, 4 * 4096, 5 * 4096, 4096).unwrap();
    let kinds: Vec<(ChunkKind, u32)> = chunks.iter().map(|c| (c.kind, c.blocks)).collect();
    assert_eq!(
        kinds,
        vec![(ChunkKind::Raw, 2), (ChunkKind::DontCare, 1), (ChunkKind::Raw, 1), (ChunkKind::DontCare, 1)]
    );
    assert_eq!((chunks[2].offset, chunks[2].size), (12288, 4096));
    assert_eq!(chunks.iter().map(|c| c.blocks).sum::<u32>(), 5);
}

#[test]
fn written_size_of_sparse_and_raw_images() {
    let h = SparseFileHeader { block_size: 4096, blocks: 3, chunks: 1, checksum: 0 };
    let b = h.to_bytes();
    assert_eq!(pawflash::sparse::image_written_size(Some(&b), 100), Some(3 * 4096));
    assert_eq!(pawflash::sparse::image_written_size(None, 100), Some(100));
    assert_eq!(pawflash::sparse::image_written_size(Some(&[0u8; 28]), 100), None);
}
