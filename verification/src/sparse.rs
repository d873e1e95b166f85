//! Android sparse images: header magic, the file header layout, chunks of a
//! wrapped image, and the data/hole run detection used to build them.
use vstd::prelude::*;
use android_sparse_image::ChunkType;
use crate::errors::FlashError;

verus! {

/// Magic number of an Android sparse image (first four bytes, little-endian).
pub const SPARSE_HEADER_MAGIC: u32 = 0xed26ff3a;
/// Length of the sparse file header in bytes.
pub const SPARSE_FILE_HEADER_LEN: usize = 28;
/// Length of a sparse chunk header in bytes.
pub const SPARSE_CHUNK_HEADER_LEN: usize = 12;
/// Block size of generated sparse images.
pub const SPARSE_BLOCK_SIZE: u32 = 4096;

/// Crypto footer offset used by legacy FDE (Full Disk Encryption).
/// TWRP preserves this space during mkfs and wipes it afterward
/// to remove encryption.
pub const CRYPT_FOOTER_OFFSET: u64 = 0x4000;

/// Little-endian value of four bytes.
pub open spec fn le_u32(b: Seq<u8>) -> nat {
    b[0] as nat + (b[1] as nat) * 0x100 + (b[2] as nat) * 0x10000 + (b[3] as nat) * 0x1000000
}

/// Little-endian value of two bytes.
pub open spec fn le_u16(b: Seq<u8>) -> nat {
    b[0] as nat + (b[1] as nat) * 0x100
}

fn read_le_u32(b: &[u8], at: usize) -> (r: u32)
    requires
        at + 4 <= b@.len(),
    ensures
        r as nat == le_u32(b@.subrange(at as int, at + 4)),
{
    let r: u32 = (b[at] as u32) + (b[at + 1] as u32) * 0x100 + (b[at + 2] as u32) * 0x10000 + (
    b[at + 3] as u32) * 0x1000000;
    r
}

/// Whether the first four bytes of a file are the sparse image magic.
pub fn is_sparse_magic(magic: &[u8; 4]) -> (r: bool)
    ensures
        r == (le_u32(magic@) == SPARSE_HEADER_MAGIC),
{
    let v = read_le_u32(magic, 0);
    assert(magic@.subrange(0, 4) =~= magic@);
    v == SPARSE_HEADER_MAGIC
}

/// Global header of a sparse image.
#[derive(Debug, Clone, Copy, PartialEq, Eq, Structural)]
pub struct SparseFileHeader {
    /// Block size in bytes.
    pub block_size: u32,
    /// Number of blocks in the expanded image.
    pub blocks: u32,
    /// Number of chunks in the sparse image.
    pub chunks: u32,
    /// Optional CRC32 checksum.
    pub checksum: u32,
}

/// What a well-formed 28-byte header says: magic, version 1.0, header
/// length 28 and chunk-header length 12 are checked; the four remaining
/// little-endian words are the fields.
pub open spec fn spec_parse_file_header(b: Seq<u8>) -> Option<SparseFileHeader> {
    if le_u32(b.subrange(0, 4)) == SPARSE_HEADER_MAGIC && le_u16(b.subrange(4, 6)) == 1
        && le_u16(b.subrange(6, 8)) == 0 && le_u16(b.subrange(8, 10)) == 28 && le_u16(
        b.subrange(10, 12),
    ) == 12 {
        Some(
            SparseFileHeader {
                block_size: le_u32(b.subrange(12, 16)) as u32,
                blocks: le_u32(b.subrange(16, 20)) as u32,
                chunks: le_u32(b.subrange(20, 24)) as u32,
                checksum: le_u32(b.subrange(24, 28)) as u32,
            },
        )
    } else {
        None
    }
}

/// Parse a sparse file header with `android_sparse_image::FileHeader::from_bytes`.
/// The contract restates that function's checks and field layout as its
/// source shows them.
#[verifier::external_body]
fn parse_file_header_bytes(bytes: &[u8; 28]) -> (r: Option<SparseFileHeader>)
    ensures
        r == spec_parse_file_header(bytes@),
{
    match android_sparse_image::FileHeader::from_bytes(bytes) {
        Ok(h) => Some(
            SparseFileHeader {
                block_size: h.block_size,
                blocks: h.blocks,
                chunks: h.chunks,
                checksum: h.checksum,
            },
        ),
        Err(_) => None,
    }
}

impl SparseFileHeader {
    /// Parse the 28-byte header at the start of a sparse image.
    pub fn parse(bytes: &[u8; 28]) -> (r: Option<SparseFileHeader>)
        ensures
            r == spec_parse_file_header(bytes@),
    {
        parse_file_header_bytes(bytes)
    }

    /// Size of the image once expanded on the partition:
    /// `blocks × block_size`.
    pub fn expanded_size(&self) -> (r: u64)
        ensures
            r == self.blocks as nat * self.block_size as nat,
    {
        assert(self.blocks as nat * self.block_size as nat <= u32::MAX as nat * u32::MAX as nat)
            by (nonlinear_arith);
        (self.blocks as u64) * (self.block_size as u64)
    }
}

/// The bytes an image takes once written to a partition: for a sparse
/// image (given its 28 header bytes) the expanded size, `None` when that
/// header does not parse; for another image its file size.
pub fn image_written_size(sparse_head: Option<&[u8; 28]>, file_len: u64) -> (r: Option<u64>)
    ensures
        match sparse_head {
            Some(b) => match spec_parse_file_header(b@) {
                Some(h) => r == Some((h.blocks as nat * h.block_size as nat) as u64),
                None => r is None,
            },
            None => r == Some(file_len),
        },
{
    match sparse_head {
        Some(b) => match SparseFileHeader::parse(b) {
            Some(h) => Some(h.expanded_size()),
            None => None,
        },
        None => Some(file_len),
    }
}

/// `b` is the 28-byte encoding of `h`: magic, version 1.0, header and
/// chunk-header lengths, then the four fields, all little-endian.
pub open spec fn header_encodes(b: Seq<u8>, h: SparseFileHeader) -> bool {
    &&& b.len() == 28
    &&& le_u32(b.subrange(0, 4)) == SPARSE_HEADER_MAGIC
    &&& le_u16(b.subrange(4, 6)) == 1
    &&& le_u16(b.subrange(6, 8)) == 0
    &&& le_u16(b.subrange(8, 10)) == 28
    &&& le_u16(b.subrange(10, 12)) == 12
    &&& le_u32(b.subrange(12, 16)) == h.block_size
    &&& le_u32(b.subrange(16, 20)) == h.blocks
    &&& le_u32(b.subrange(20, 24)) == h.chunks
    &&& le_u32(b.subrange(24, 28)) == h.checksum
}

/// `android_sparse_image::FileHeader::to_bytes`; the contract restates the
/// layout its source writes.
#[verifier::external_body]
fn file_header_bytes(h: &SparseFileHeader) -> (r: [u8; 28])
    ensures
        header_encodes(r@, *h),
{
    android_sparse_image::FileHeader {
        block_size: h.block_size,
        blocks: h.blocks,
        chunks: h.chunks,
        checksum: h.checksum,
    }.to_bytes()
}

impl SparseFileHeader {
    /// The 28 bytes that start a sparse image with this header.
    pub fn to_bytes(&self) -> (r: [u8; 28])
        ensures
            header_encodes(r@, *self),
    {
        file_header_bytes(self)
    }
}

/// Reading back an encoded header gives the header: parsing undoes
/// encoding.
pub proof fn law_header_roundtrip(b: Seq<u8>, h: SparseFileHeader)
    requires
        header_encodes(b, h),
    ensures
        spec_parse_file_header(b) == Some(h),
{
}

/// Kind of a chunk in a generated sparse image.
#[derive(Debug, Clone, Copy, PartialEq, Eq, Structural)]
pub enum ChunkKind {
    /// Header followed by the chunk's data.
    Raw,
    /// No data; the device may fill the blocks with anything (zeros).
    DontCare,
}

/// One chunk of a sparse image together with where its data comes from.
#[derive(Debug, Clone, Copy, PartialEq, Eq, Structural)]
pub struct SparseChunk {
    pub kind: ChunkKind,
    /// Output size in blocks.
    pub blocks: u32,
    /// Size of the chunk in the sparse image (header and data).
    pub total_size: u32,
    /// Offset of the chunk data in the input file.
    pub offset: usize,
    /// Bytes of data copied from the input file.
    pub size: usize,
}

/// The header of a generated chunk, as the sparse format writes it.
pub open spec fn chunk_info_of(c: SparseChunk) -> ChunkHeaderInfo {
    ChunkHeaderInfo {
        chunk_type: match c.kind {
            ChunkKind::Raw => SparseChunkType::Raw,
            ChunkKind::DontCare => SparseChunkType::DontCare,
        },
        chunk_size: c.blocks,
        total_size: c.total_size,
    }
}

/// `b` is the 12-byte header of chunk `c`: type code, a reserved zero,
/// block count and total size, all little-endian.
pub open spec fn chunk_header_encodes(b: Seq<u8>, c: SparseChunk) -> bool {
    chunk_info_encodes(b, chunk_info_of(c))
}

impl SparseChunk {
    /// The header of this chunk.
    pub fn info(&self) -> (r: ChunkHeaderInfo)
        ensures
            r == chunk_info_of(*self),
    {
        let chunk_type = match self.kind {
            ChunkKind::Raw => SparseChunkType::Raw,
            ChunkKind::DontCare => SparseChunkType::DontCare,
        };
        ChunkHeaderInfo { chunk_type, chunk_size: self.blocks, total_size: self.total_size }
    }

    /// The 12-byte header that introduces this chunk in a sparse image.
    pub fn header_bytes(&self) -> (r: [u8; 12])
        ensures
            chunk_header_encodes(r@, *self),
    {
        let info = self.info();
        chunk_header_bytes(&info)
    }
}

/// Header size of a raw chunk of `blocks` blocks of `block_size` bytes, as
/// `ChunkHeader::new_raw` computes it (saturating).
pub open spec fn raw_total_size(blocks: u32, block_size: u32) -> u32 {
    let data = if blocks as nat * block_size as nat > u32::MAX {
        u32::MAX as nat
    } else {
        blocks as nat * block_size as nat
    };
    if SPARSE_CHUNK_HEADER_LEN + data > u32::MAX {
        u32::MAX
    } else {
        (SPARSE_CHUNK_HEADER_LEN + data) as u32
    }
}

fn raw_total(blocks: u32, block_size: u32) -> (r: u32)
    ensures
        r == raw_total_size(blocks, block_size),
{
    assert((blocks as nat) * (block_size as nat) <= (u32::MAX as nat) * (u32::MAX as nat))
        by (nonlinear_arith);
    let wide: u64 = (blocks as u64) * (block_size as u64);
    let data: u64 = if wide > u32::MAX as u64 {
        u32::MAX as u64
    } else {
        wide
    };
    let total: u64 = 12 + data;
    if total > u32::MAX as u64 {
        u32::MAX
    } else {
        total as u32
    }
}

/// A (offset, length, holds-data) extent of a file.
pub type Extent = (u64, u64, bool);

/// The chunk an extent becomes, when it covers at least one whole block.
pub open spec fn chunk_of_extent(e: Extent, blk: u64) -> SparseChunk {
    let blocks = (e.1 / blk) as u32;
    if e.2 {
        SparseChunk {
            kind: ChunkKind::Raw,
            blocks,
            total_size: raw_total_size(blocks, SPARSE_BLOCK_SIZE),
            offset: if e.0 <= usize::MAX {
                e.0 as usize
            } else {
                usize::MAX
            },
            size: if e.1 <= usize::MAX {
                e.1 as usize
            } else {
                usize::MAX
            },
        }
    } else {
        SparseChunk {
            kind: ChunkKind::DontCare,
            blocks,
            total_size: SPARSE_CHUNK_HEADER_LEN as u32,
            offset: 0,
            size: 0,
        }
    }
}

/// Chunks for the extents that cover at least one whole block, in order.
pub open spec fn chunks_of(extents: Seq<Extent>, blk: u64) -> Seq<SparseChunk>
    decreases extents.len(),
{
    if extents.len() == 0 {
        seq![]
    } else {
        let prev = chunks_of(extents.drop_last(), blk);
        if extents.last().1 / blk == 0 {
            prev
        } else {
            prev.push(chunk_of_extent(extents.last(), blk))
        }
    }
}

/// Block count of the first extent whose block count does not fit in 32 bits.
pub open spec fn first_oversized(extents: Seq<Extent>, blk: u64) -> Option<u64>
    decreases extents.len(),
{
    if extents.len() == 0 {
        None
    } else {
        match first_oversized(extents.drop_last(), blk) {
            Some(b) => Some(b),
            None => if extents.last().1 / blk > u32::MAX {
                Some((extents.last().1 / blk) as u64)
            } else {
                None
            },
        }
    }
}

/// Blocks between the end of the filesystem and the end of the partition.
pub open spec fn footer_blocks(effective_size: u64, part_size: u64, blk: u64) -> nat {
    if part_size > effective_size {
        ((part_size - effective_size) / (blk as int)) as nat
    } else {
        0
    }
}

/// The don't-care chunk that wipes the footer region, when it has blocks.
pub open spec fn footer_chunks(effective_size: u64, part_size: u64, blk: u64) -> Seq<SparseChunk> {
    let fb = footer_blocks(effective_size, part_size, blk);
    if fb > 0 {
        seq![
            SparseChunk {
                kind: ChunkKind::DontCare,
                blocks: fb as u32,
                total_size: SPARSE_CHUNK_HEADER_LEN as u32,
                offset: 0,
                size: 0,
            },
        ]
    } else {
        seq![]
    }
}

/// Why chunks could not be built.
#[derive(Debug, Clone, Copy, PartialEq, Eq, Structural)]
pub enum ChunkError {
    /// An extent spans more blocks than a chunk header can hold.
    BlockCountTooLarge(u64),
    /// The footer region spans more blocks than a chunk header can hold.
    FooterBlockCountTooLarge(u64),
}

/// Build alternating RAW / DONTCARE chunks from file extents; extents
/// shorter than one block are dropped, and the region between
/// `effective_size` and `part_size` becomes a trailing DONTCARE chunk.
pub fn build_split_chunks(extents: &[Extent], effective_size: u64, part_size: u64, blk: u64) -> (r:
    Result<Vec<SparseChunk>, ChunkError>)
    requires
        blk > 0,
    ensures
        match r {
            Ok(v) => first_oversized(extents@, blk) is None && footer_blocks(
                effective_size,
                part_size,
                blk,
            ) <= u32::MAX && v@ == chunks_of(extents@, blk) + footer_chunks(
                effective_size,
                part_size,
                blk,
            ),
            Err(ChunkError::BlockCountTooLarge(b)) => first_oversized(extents@, blk) == Some(b),
            Err(ChunkError::FooterBlockCountTooLarge(b)) => first_oversized(extents@, blk) is None
                && b == footer_blocks(effective_size, part_size, blk) && b > u32::MAX,
        },
{
    let mut chunks: Vec<SparseChunk> = Vec::new();
    let mut i: usize = 0;
    while i < extents.len()
        invariant
            i <= extents@.len(),
            blk > 0,
            first_oversized(extents@.take(i as int), blk) is None,
            chunks@ == chunks_of(extents@.take(i as int), blk),
        decreases extents@.len() - i,
    {
        let (offset, len, is_data) = extents[i];
        let ghost pre = extents@.take(i as int);
        let ghost cur = extents@.take(i + 1);
        assert(cur.drop_last() =~= pre);
        assert(cur.last() == extents@[i as int]);
        let blocks = len / blk;
        if blocks > 0 {
            if blocks > u32::MAX as u64 {
                proof {
                    lemma_first_oversized_prefix(extents@, i as int + 1, blk);
                }
                return Err(ChunkError::BlockCountTooLarge(blocks));
            }
            let blocks_u32 = blocks as u32;
            if is_data {
                let off: usize = if offset <= usize::MAX as u64 {
                    offset as usize
                } else {
                    usize::MAX
                };
                let size: usize = if len <= usize::MAX as u64 {
                    len as usize
                } else {
                    usize::MAX
                };
                chunks.push(
                    SparseChunk {
                        kind: ChunkKind::Raw,
                        blocks: blocks_u32,
                        total_size: raw_total(blocks_u32, SPARSE_BLOCK_SIZE),
                        offset: off,
                        size,
                    },
                );
            } else {
                chunks.push(
                    SparseChunk {
                        kind: ChunkKind::DontCare,
                        blocks: blocks_u32,
                        total_size: SPARSE_CHUNK_HEADER_LEN as u32,
                        offset: 0,
                        size: 0,
                    },
                );
            }
        }
        i += 1;
    }
    assert(extents@.take(extents@.len() as int) =~= extents@);
    let ghost body = chunks@;
    if part_size > effective_size {
        let fb = (part_size - effective_size) / blk;
        if fb > 0 {
            if fb > u32::MAX as u64 {
                return Err(ChunkError::FooterBlockCountTooLarge(fb));
            }
            chunks.push(
                SparseChunk {
                    kind: ChunkKind::DontCare,
                    blocks: fb as u32,
                    total_size: SPARSE_CHUNK_HEADER_LEN as u32,
                    offset: 0,
                    size: 0,
                },
            );
        }
    }
    assert(chunks@ =~= body + footer_chunks(effective_size, part_size, blk));
    Ok(chunks)
}

proof fn lemma_first_oversized_prefix(extents: Seq<Extent>, k: int, blk: u64)
    requires
        0 < k <= extents.len(),
        blk > 0,
        first_oversized(extents.take(k - 1), blk) is None,
        extents[k - 1].1 / blk > u32::MAX,
    ensures
        first_oversized(extents, blk) == Some((extents[k - 1].1 / blk) as u64),
    decreases extents.len() - k,
{
    if k < extents.len() {
        assert(extents.drop_last().take(k - 1) =~= extents.take(k - 1));
        lemma_first_oversized_prefix(extents.drop_last(), k, blk);
        assert(extents.drop_last().take(k - 1) =~= extents.take(k - 1));
        assert(extents.drop_last()[k - 1] == extents[k - 1]);
    } else {
        assert(extents.drop_last() =~= extents.take(k - 1));
    }
}


/// Every byte of `b` is zero.
pub open spec fn all_zero(b: Seq<u8>) -> bool {
    forall|i: int| 0 <= i < b.len() ==> b[i] == 0
}

/// Whether a block of data is entirely zero.
pub fn is_all_zero(buf: &[u8]) -> (r: bool)
    ensures
        r == all_zero(buf@),
{
    let mut i: usize = 0;
    while i < buf.len()
        invariant
            i <= buf@.len(),
            forall|k: int| 0 <= k < i ==> buf@[k] == 0,
        decreases buf@.len() - i,
    {
        if buf[i] != 0 {
            return false;
        }
        i += 1;
    }
    true
}

/// Run-length encoding of a sequence of block kinds: (first block, number
/// of blocks, kind) for each maximal run of equal kinds, in order.
pub open spec fn runs(f: Seq<bool>) -> Seq<(nat, nat, bool)>
    decreases f.len(),
{
    if f.len() == 0 {
        seq![]
    } else {
        let r = runs(f.drop_last());
        if r.len() > 0 && r.last().2 == f.last() {
            r.update(r.len() - 1, (r.last().0, r.last().1 + 1, f.last()))
        } else {
            r.push(((f.len() - 1) as nat, 1nat, f.last()))
        }
    }
}

/// The runs as byte extents (offset, length, holds-data) for blocks of
/// `blk` bytes.
pub open spec fn runs_extents(f: Seq<bool>, blk: nat) -> Seq<Extent> {
    runs(f).map_values(|r: (nat, nat, bool)| ((r.0 * blk) as u64, (r.1 * blk) as u64, r.2))
}

/// Runs partition the blocks: they start at block 0, each is non-empty,
/// each starts where the previous one ends, the last ends at the last
/// block, neighbouring runs differ in kind, and every block has the kind
/// of the run that holds it.
pub open spec fn runs_partition(f: Seq<bool>, r: Seq<(nat, nat, bool)>) -> bool {
    &&& (f.len() == 0) == (r.len() == 0)
    &&& r.len() > 0 ==> r[0].0 == 0 && r.last().0 + r.last().1 == f.len()
    &&& forall|i: int| 0 <= i < r.len() ==> #[trigger] r[i].1 >= 1
    &&& forall|i: int| 0 <= i < r.len() - 1 ==> #[trigger] r[i + 1].0 == r[i].0 + r[i].1 && r[i
        + 1].2 != r[i].2
    &&& forall|i: int, j: int|
        0 <= i < j < r.len() ==> #[trigger] r[i].0 + r[i].1 <= #[trigger] r[j].0
    &&& forall|i: int, k: int|
        0 <= i < r.len() && r[i].0 <= k < r[i].0 + r[i].1 ==> #[trigger] f[k] == #[trigger] r[i].2
}

/// The runs of a block sequence partition it into maximal runs of one kind.
pub proof fn law_runs_partition(f: Seq<bool>)
    ensures
        runs_partition(f, runs(f)),
    decreases f.len(),
{
    if f.len() > 0 {
        let p = f.drop_last();
        law_runs_partition(p);
        let r0 = runs(p);
        let r = runs(f);
        let n = f.len() - 1;
        assert forall|i: int, j: int| 0 <= i < j < r.len() implies #[trigger] r[i].0 + r[i].1
            <= #[trigger] r[j].0 by {
            assert(r[i] == r0[i]);
            if j < r0.len() {
                assert(r0[i].0 + r0[i].1 <= r0[j].0);
            } else {
                if i < r0.len() - 1 {
                    assert(r0[i].0 + r0[i].1 <= r0[r0.len() - 1].0);
                }
            }
        }
        assert forall|i: int, k: int|
            0 <= i < r.len() && r[i].0 <= k < r[i].0 + r[i].1 implies #[trigger] f[k]
            == #[trigger] r[i].2 by {
            if k < n {
                if i < r0.len() {
                    assert(p[k] == f[k]);
                    if i == r0.len() - 1 {
                        assert(r0[i].0 <= k < r0[i].0 + r0[i].1);
                    }
                } else {
                    assert(r[i].0 == n);
                }
            }
        }
        if r0.len() > 0 && r0.last().2 == f.last() {
            assert forall|i: int| 0 <= i < r.len() - 1 implies #[trigger] r[i + 1].0 == r[i].0
                + r[i].1 && r[i + 1].2 != r[i].2 by {
                assert(r[i] == r0[i]);
                if i + 1 < r0.len() - 1 {
                    assert(r[i + 1] == r0[i + 1]);
                }
            }
        } else {
            assert forall|i: int| 0 <= i < r.len() - 1 implies #[trigger] r[i + 1].0 == r[i].0
                + r[i].1 && r[i + 1].2 != r[i].2 by {
                assert(r[i] == r0[i]);
                if i + 1 < r0.len() {
                    assert(r[i + 1] == r0[i + 1]);
                }
            }
        }
    }
}

/// Total number of blocks of runs.
pub open spec fn run_blocks(r: Seq<(nat, nat, bool)>) -> nat
    decreases r.len(),
{
    if r.len() == 0 {
        0
    } else {
        run_blocks(r.drop_last()) + r.last().1
    }
}

proof fn lemma_run_blocks(f: Seq<bool>)
    ensures
        run_blocks(runs(f)) == f.len(),
    decreases f.len(),
{
    if f.len() > 0 {
        let r0 = runs(f.drop_last());
        lemma_run_blocks(f.drop_last());
        if r0.len() > 0 && r0.last().2 == f.last() {
            let r = runs(f);
            assert(r.drop_last() =~= r0.drop_last());
        } else {
            assert(runs(f).drop_last() =~= r0);
        }
    }
}

/// The byte extent of a run of blocks of `blk` bytes.
pub open spec fn run_extent(x: (nat, nat, bool), blk: nat) -> Extent {
    ((x.0 * blk) as u64, (x.1 * blk) as u64, x.2)
}

/// The chunk a run of blocks becomes in a wrapped image: raw data read
/// from the run's bytes of the file, or don't-care blocks.
pub open spec fn run_chunk(x: (nat, nat, bool), blk: nat) -> SparseChunk {
    chunk_of_extent(run_extent(x, blk), blk as u64)
}

proof fn lemma_chunks_of_runs(r: Seq<(nat, nat, bool)>, blk: u64, n: nat)
    requires
        blk > 0,
        n * blk <= usize::MAX,
        n <= u32::MAX,
        forall|i: int| 0 <= i < r.len() ==> #[trigger] r[i].1 >= 1 && r[i].0 + r[i].1 <= n,
    ensures
        chunks_of(r.map_values(|x: (nat, nat, bool)| run_extent(x, blk as nat)), blk) == r.map_values(
            |x: (nat, nat, bool)| run_chunk(x, blk as nat),
        ),
        sum_blocks(r.map_values(|x: (nat, nat, bool)| run_chunk(x, blk as nat))) == run_blocks(r),
    decreases r.len(),
{
    let e = r.map_values(|x: (nat, nat, bool)| run_extent(x, blk as nat));
    let c = r.map_values(|x: (nat, nat, bool)| run_chunk(x, blk as nat));
    if r.len() > 0 {
        let p = r.drop_last();
        lemma_chunks_of_runs(p, blk, n);
        assert(e.drop_last() =~= p.map_values(|x: (nat, nat, bool)| run_extent(x, blk as nat)));
        assert(c.drop_last() =~= p.map_values(|x: (nat, nat, bool)| run_chunk(x, blk as nat)));
        let x = r.last();
        assert(x.1 >= 1 && x.0 + x.1 <= n) by {
            assert(r[r.len() - 1] == x);
        }
        assert(x.1 * blk <= n * blk) by (nonlinear_arith)
            requires
                x.1 <= n,
        ;
        assert(x.0 * blk <= n * blk) by (nonlinear_arith)
            requires
                x.0 <= n,
        ;
        assert((x.1 * blk) / (blk as int) == x.1) by (nonlinear_arith)
            requires
                blk > 0,
        ;
        assert(e.last() == run_extent(x, blk as nat));
        assert(e.last().1 / blk == x.1);
        assert(c.last() == run_chunk(x, blk as nat));
        assert(c.last().blocks == x.1);
    } else {
        assert(e =~= Seq::<Extent>::empty());
    }
}

proof fn lemma_sum_blocks_append(a: Seq<SparseChunk>, b: Seq<SparseChunk>)
    ensures
        sum_blocks(a + b) == sum_blocks(a) + sum_blocks(b),
    decreases b.len(),
{
    if b.len() > 0 {
        lemma_sum_blocks_append(a, b.drop_last());
        assert((a + b).drop_last() =~= a + b.drop_last());
    } else {
        assert(a + b =~= a);
    }
}

/// The runs of a block scan, as byte extents, tile the scanned bytes: the
/// first starts at byte 0, each starts where the previous one ends, the
/// last ends at the end of the last block, every extent is a whole number
/// of blocks, neighbours differ in kind, and every byte has the kind of
/// the block that holds it.
pub proof fn law_extents_tile_bytes(f: Seq<bool>, blk: u64)
    requires
        blk > 0,
        f.len() * blk <= u64::MAX,
    ensures
        ({
            let e = runs_extents(f, blk as nat);
            &&& (f.len() == 0) == (e.len() == 0)
            &&& e.len() > 0 ==> e[0].0 == 0 && e.last().0 + e.last().1 == f.len() * blk
            &&& forall|i: int| 0 <= i < e.len() ==> #[trigger] e[i].1 >= blk && (e[i].1 as int) % (blk as int) == 0
            &&& forall|i: int| 0 <= i < e.len() - 1 ==> #[trigger] e[i + 1].0 == e[i].0 + e[i].1 && e[i + 1].2 != e[i].2
            &&& forall|i: int, k: int|
                0 <= i < e.len() && e[i].0 <= k < e[i].0 + e[i].1 ==> #[trigger] f[k / (blk as int)] == #[trigger] e[i].2
        }),
{
    let r = runs(f);
    let e = runs_extents(f, blk as nat);
    let b = blk as int;
    law_runs_partition(f);
    assert forall|i: int| 0 <= i < r.len() implies #[trigger] r[i].0 + r[i].1 <= f.len() by {
        if i < r.len() - 1 {
            assert(r[i].0 + r[i].1 <= r[r.len() - 1].0);
        }
    }
    assert forall|i: int| 0 <= i < r.len() implies (#[trigger] r[i]).0 * b + r[i].1 * b <= f.len() * b
        && e[i] == ((r[i].0 * b) as u64, (r[i].1 * b) as u64, r[i].2) by {
        let x = r[i];
        assert(x.0 * b + x.1 * b <= f.len() * b) by (nonlinear_arith)
            requires
                x.0 + x.1 <= f.len(),
                b > 0,
        ;
    }
    assert forall|i: int| 0 <= i < e.len() implies #[trigger] e[i].1 >= blk && (e[i].1 as int) % b == 0 by {
        let x = r[i];
        assert(x.1 * b >= b && (x.1 * b) % b == 0) by (nonlinear_arith)
            requires
                x.1 >= 1,
                b > 0,
        ;
    }
    assert forall|i: int| 0 <= i < e.len() - 1 implies #[trigger] e[i + 1].0 == e[i].0 + e[i].1 && e[i
        + 1].2 != e[i].2 by {
        let x = r[i];
        let y = r[i + 1];
        assert(y.0 * b == x.0 * b + x.1 * b) by (nonlinear_arith)
            requires
                y.0 == x.0 + x.1,
        ;
    }
    if e.len() > 0 {
        let x = r[r.len() - 1];
        assert(x.0 * b + x.1 * b == f.len() * b) by (nonlinear_arith)
            requires
                x.0 + x.1 == f.len(),
        ;
        assert(r[0].0 * b == 0) by (nonlinear_arith)
            requires
                r[0].0 == 0,
        ;
    }
    assert forall|i: int, k: int| 0 <= i < e.len() && e[i].0 <= k < e[i].0 + e[i].1 implies #[trigger] f[k / b]
        == #[trigger] e[i].2 by {
        let x = r[i];
        assert(x.0 <= k / b < x.0 + x.1) by (nonlinear_arith)
            requires
                x.0 * b <= k < x.0 * b + x.1 * b,
                b > 0,
        ;
        assert(f[k / b] == x.2);
    }
}

/// A wrapped image made from a block scan expands to the scanned blocks in
/// order and then the footer: each run of data blocks becomes one raw chunk
/// of the run's length read from the run's bytes of the file, each run of
/// zero blocks one don't-care chunk of the run's length, and the chunks
/// count every scanned block once, followed by the footer blocks.
pub proof fn law_wrap_chunks(f: Seq<bool>, blk: u64, effective_size: u64, part_size: u64)
    requires
        blk > 0,
        f.len() <= u32::MAX,
        f.len() * blk <= usize::MAX,
        footer_blocks(effective_size, part_size, blk) <= u32::MAX,
    ensures
        ({
            let r = runs(f);
            let c = chunks_of(runs_extents(f, blk as nat), blk);
            &&& c.len() == r.len()
            &&& forall|i: int|
                0 <= i < c.len() ==> (#[trigger] c[i]).blocks == r[i].1 && (c[i].kind == ChunkKind::Raw)
                    == r[i].2 && (r[i].2 ==> c[i].offset == r[i].0 * blk && c[i].size == r[i].1 * blk)
            &&& sum_blocks(c) == f.len()
            &&& sum_blocks(c + footer_chunks(effective_size, part_size, blk)) == f.len() + footer_blocks(
                effective_size,
                part_size,
                blk,
            )
        }),
{
    let r = runs(f);
    let b = blk as int;
    law_runs_partition(f);
    assert forall|i: int| 0 <= i < r.len() implies #[trigger] r[i].1 >= 1 && r[i].0 + r[i].1 <= f.len() by {
        if i < r.len() - 1 {
            assert(r[i].0 + r[i].1 <= r[r.len() - 1].0);
        }
    }
    lemma_chunks_of_runs(r, blk, f.len());
    lemma_run_blocks(f);
    assert(runs_extents(f, blk as nat) =~= r.map_values(|x: (nat, nat, bool)| run_extent(x, blk as nat)));
    let c = chunks_of(runs_extents(f, blk as nat), blk);
    assert forall|i: int| 0 <= i < c.len() implies (#[trigger] c[i]).blocks == r[i].1 && (c[i].kind
        == ChunkKind::Raw) == r[i].2 && (r[i].2 ==> c[i].offset == r[i].0 * blk && c[i].size == r[i].1
        * blk) by {
        let x = r[i];
        assert(x.1 * b <= f.len() * b && x.0 * b <= f.len() * b && (x.1 * b) / b == x.1) by (nonlinear_arith)
            requires
                x.0 + x.1 <= f.len(),
                b > 0,
        ;
        assert(c[i] == run_chunk(x, blk as nat));
    }
    lemma_sum_blocks_append(c, footer_chunks(effective_size, part_size, blk));
    let fc = footer_chunks(effective_size, part_size, blk);
    let fb = footer_blocks(effective_size, part_size, blk);
    if fb > 0 {
        assert(fc.drop_last() =~= Seq::<SparseChunk>::empty());
        assert(sum_blocks(fc.drop_last()) == 0);
        assert(fc.last().blocks == fb as u32);
        assert(fb as u32 == fb);
    } else {
        assert(fc =~= Seq::<SparseChunk>::empty());
    }
    assert(c == r.map_values(|x: (nat, nat, bool)| run_chunk(x, blk as nat)));
    assert(sum_blocks(c) == f.len());
    assert(sum_blocks(fc) == footer_blocks(effective_size, part_size, blk));
}

/// Collects the data/hole runs of a file, one block at a time, for files
/// scanned by reading blocks rather than by seeking.
pub struct RunScanner {
    blk: u64,
    limit: u64,
    seen_blocks: u64,
    run_start: u64,
    run_is_data: bool,
    closed: Vec<Extent>,
    kinds: Ghost<Seq<bool>>,
}

impl RunScanner {
    /// The scanner's bookkeeping agrees with the block kinds it was given.
    pub closed spec fn wf(self) -> bool {
        &&& self.blk > 0
        &&& self.limit * self.blk <= u64::MAX
        &&& self.seen_blocks == self.kinds@.len()
        &&& self.seen_blocks <= self.limit
        &&& self.seen_blocks == 0 ==> self.closed@.len() == 0 && self.run_start == 0
        &&& self.seen_blocks > 0 ==> {
            &&& self.run_start < self.seen_blocks
            &&& runs_extents(self.kinds@, self.blk as nat) =~= self.closed@.push(
                (
                    (self.run_start * self.blk) as u64,
                    ((self.seen_blocks - self.run_start) * self.blk) as u64,
                    self.run_is_data,
                ),
            )
            &&& runs(self.kinds@).last() == (
                self.run_start as nat,
                (self.seen_blocks - self.run_start) as nat,
                self.run_is_data,
            )
        }
    }

    /// Block kinds pushed so far (`true` = holds data).
    pub closed spec fn kinds(self) -> Seq<bool> {
        self.kinds@
    }

    /// Block size in bytes.
    pub closed spec fn block_size(self) -> nat {
        self.blk as nat
    }

    /// Number of blocks the scan covers.
    pub closed spec fn limit(self) -> nat {
        self.limit as nat
    }

    /// A scanner for the first `effective_size / blk` blocks of a file.
    pub fn new(effective_size: u64, blk: u64) -> (r: RunScanner)
        requires
            blk > 0,
        ensures
            r.wf(),
            r.kinds() == Seq::<bool>::empty(),
            r.block_size() == blk,
            r.limit() == effective_size / blk,
    {
        let limit = effective_size / blk;
        assert(limit * blk <= effective_size) by (nonlinear_arith)
            requires
                limit == effective_size / blk,
                blk > 0,
        ;
        RunScanner {
            blk,
            limit,
            seen_blocks: 0,
            run_start: 0,
            run_is_data: false,
            closed: Vec::new(),
            kinds: Ghost(Seq::empty()),
        }
    }

    /// Number of blocks the scan covers.
    pub fn block_limit(&self) -> (r: u64)
        ensures
            r == self.limit(),
    {
        self.limit
    }

    /// Number of blocks pushed so far.
    pub fn seen(&self) -> (r: u64)
        requires
            self.wf(),
        ensures
            r == self.kinds().len(),
    {
        self.seen_blocks
    }

    /// Record the kind of the next block.
    pub fn push_block(&mut self, is_data: bool)
        requires
            old(self).wf(),
            old(self).kinds().len() < old(self).limit(),
        ensures
            final(self).wf(),
            final(self).kinds() == old(self).kinds().push(is_data),
            final(self).block_size() == old(self).block_size(),
            final(self).limit() == old(self).limit(),
    {
        let ghost old_kinds = self.kinds@;
        let ghost new_kinds = old_kinds.push(is_data);
        let ghost blk = self.blk as nat;
        let cur = self.seen_blocks;
        let ghost old_is = self.run_is_data;
        let ghost old_start = self.run_start;
        proof {
            if cur > 0 {
                assert(runs(old_kinds).last() == (old_start as nat, (cur - old_start) as nat, old_is));
            }
            assert(new_kinds.drop_last() =~= old_kinds);
            assert((cur + 1) * self.blk <= self.limit * self.blk) by (nonlinear_arith)
                requires
                    cur + 1 <= self.limit,
            ;
            assert(cur * self.blk <= (cur + 1) * self.blk) by (nonlinear_arith);
        }
        if cur == 0 {
            let ghost r1 = runs(new_kinds);
            assert(runs(old_kinds) =~= Seq::<(nat, nat, bool)>::empty());
            assert(r1 =~= seq![(0nat, 1nat, is_data)]);
            self.run_is_data = is_data;
            self.run_start = 0;
        } else if is_data != self.run_is_data {
            let start = self.run_start;
            proof {
                assert(start * self.blk <= cur * self.blk) by (nonlinear_arith)
                    requires
                        start <= cur,
                ;
                assert((cur - start) * self.blk <= cur * self.blk) by (nonlinear_arith)
                    requires
                        start <= cur,
                ;
                assert((cur - start) * self.blk == cur * self.blk - start * self.blk)
                    by (nonlinear_arith);
            }
            let len = (cur - start) * self.blk;
            let ext: Extent = (start * self.blk, len, self.run_is_data);
            self.closed.push(ext);
            self.run_start = cur;
            self.run_is_data = is_data;
        } else {
        }
        self.seen_blocks = cur + 1;
        self.kinds = Ghost(new_kinds);
        proof {
            let r1 = runs(new_kinds);
            let r0 = runs(old_kinds);
            if cur > 0 {
                assert(r0.len() > 0);
            }
            assert(runs_extents(new_kinds, blk) =~= r1.map_values(
                |r: (nat, nat, bool)| ((r.0 * blk) as u64, (r.1 * blk) as u64, r.2),
            ));
            assert(r1.last() == (
                self.run_start as nat,
                (self.seen_blocks - self.run_start) as nat,
                self.run_is_data,
            ));
            if cur > 0 && is_data == old_is {
                assert(new_kinds.drop_last() == old_kinds);
                assert(new_kinds.last() == is_data);
                assert(old_is == is_data);
                assert(r0.last().2 == is_data);
                assert(r1 =~= r0.update(r0.len() - 1, (r0.last().0, r0.last().1 + 1, is_data)));
                assert(runs_extents(new_kinds, blk) =~= self.closed@.push(
                    (
                        (self.run_start * self.blk) as u64,
                        ((self.seen_blocks - self.run_start) * self.blk) as u64,
                        self.run_is_data,
                    ),
                )) by {
                    assert(runs_extents(old_kinds, blk).len() == r0.len());
                    assert forall|i: int| 0 <= i < r1.len() - 1 implies runs_extents(
                        new_kinds,
                        blk,
                    )[i] == self.closed@[i] by {
                        assert(r1[i] == r0[i]);
                        assert(runs_extents(old_kinds, blk)[i] == self.closed@[i]);
                    }
                }
            } else if cur > 0 {
                assert(r1 =~= r0.push((cur as nat, 1nat, is_data)));
                assert(runs_extents(new_kinds, blk) =~= self.closed@.push(
                    (
                        (self.run_start * self.blk) as u64,
                        ((self.seen_blocks - self.run_start) * self.blk) as u64,
                        self.run_is_data,
                    ),
                )) by {
                    assert forall|i: int| 0 <= i < r0.len() implies runs_extents(
                        new_kinds,
                        blk,
                    )[i] == self.closed@[i] by {
                        assert(r1[i] == r0[i]);
                        assert(runs_extents(old_kinds, blk)[i] == self.closed@[i]);
                    }
                }
            }
        }
    }

    /// The extents of all runs seen, in order.
    pub fn finish(self) -> (r: Vec<Extent>)
        requires
            self.wf(),
        ensures
            r@ == runs_extents(self.kinds(), self.block_size()),
    {
        let mut closed = self.closed;
        if self.seen_blocks > 0 {
            proof {
                assert(self.run_start * self.blk <= self.seen_blocks * self.blk) by (nonlinear_arith)
                    requires
                        self.run_start <= self.seen_blocks,
                ;
                assert((self.seen_blocks - self.run_start) * self.blk <= self.seen_blocks * self.blk)
                    by (nonlinear_arith)
                    requires
                        self.run_start <= self.seen_blocks,
                ;
                assert(self.seen_blocks * self.blk <= self.limit * self.blk) by (nonlinear_arith)
                    requires
                        self.seen_blocks <= self.limit,
                ;
            }
            let len = (self.seen_blocks - self.run_start) * self.blk;
            closed.push((self.run_start * self.blk, len, self.run_is_data));
        } else {
            assert(runs(self.kinds@) =~= Seq::<(nat, nat, bool)>::empty());
        }
        closed
    }
}

/// Sizes that drive wrapping a generated filesystem image.
#[derive(Debug, Clone, Copy, PartialEq, Eq, Structural)]
pub struct WrapSizes {
    /// Partition size minus the footer (saturating).
    pub effective_size: u64,
    /// Bytes of the file to scan for data: the smaller of the effective
    /// size and the file's original size.
    pub scan_size: u64,
    /// The partition holds no whole block; it is only erased.
    pub erase_only: bool,
}

/// Sizes for wrapping a file of `orig_size` bytes into a partition of
/// `part_size` bytes that keeps a `footer_size` footer.
pub fn wrap_sizes(part_size: u64, footer_size: u64, orig_size: u64, blk: u64) -> (r: WrapSizes)
    requires
        blk > 0,
    ensures
        r.effective_size == if part_size >= footer_size {
            part_size - footer_size
        } else {
            0
        },
        r.scan_size == if r.effective_size <= orig_size {
            r.effective_size
        } else {
            orig_size
        },
        r.erase_only == (part_size / blk == 0),
{
    let effective_size = if part_size >= footer_size {
        part_size - footer_size
    } else {
        0
    };
    let scan_size = if effective_size <= orig_size {
        effective_size
    } else {
        orig_size
    };
    WrapSizes { effective_size, scan_size, erase_only: part_size / blk == 0 }
}

/// Sum of the block counts of chunks.
pub open spec fn sum_blocks(c: Seq<SparseChunk>) -> nat
    decreases c.len(),
{
    if c.len() == 0 {
        0
    } else {
        sum_blocks(c.drop_last()) + c.last().blocks as nat
    }
}

/// Sum of the in-image sizes of chunks.
pub open spec fn sum_total(c: Seq<SparseChunk>) -> nat
    decreases c.len(),
{
    if c.len() == 0 {
        0
    } else {
        sum_total(c.drop_last()) + c.last().total_size as nat
    }
}

/// Header and size of a single-download sparse image.
#[derive(Debug, Clone, Copy, PartialEq, Eq, Structural)]
pub struct SparseImagePlan {
    pub header: SparseFileHeader,
    /// Bytes of the whole sparse image: file header plus every chunk.
    pub sparse_size: u32,
}

/// Why a set of chunks cannot be sent as one sparse image.
#[derive(Debug, Clone, Copy, PartialEq, Eq, Structural)]
pub enum SparsePlanError {
    /// More chunks than a header can count.
    TooManyChunks,
    /// The image is larger than 4 GiB.
    ImageTooLarge,
    /// The image is larger than the device accepts in one download.
    ExceedsMaxDownload { sparse_size: u32, max_download: u32 },
}

/// Header and size of the sparse image made of `chunks`, or why it cannot
/// be sent in one download of at most `max_download` bytes.
pub fn plan_sparse_image(chunks: &[SparseChunk], max_download: u32) -> (r: Result<
    SparseImagePlan,
    SparsePlanError,
>)
    requires
        chunks@.len() <= u32::MAX ==> sum_blocks(chunks@) <= u32::MAX
            && SPARSE_FILE_HEADER_LEN + sum_total(chunks@) <= usize::MAX,
    ensures
        chunks@.len() > u32::MAX ==> r == Err::<SparseImagePlan, SparsePlanError>(
            SparsePlanError::TooManyChunks,
        ),
        chunks@.len() <= u32::MAX && SPARSE_FILE_HEADER_LEN + sum_total(chunks@) > u32::MAX ==> r
            == Err::<SparseImagePlan, SparsePlanError>(SparsePlanError::ImageTooLarge),
        chunks@.len() <= u32::MAX && SPARSE_FILE_HEADER_LEN + sum_total(chunks@) <= u32::MAX
            ==> {
            let size = (SPARSE_FILE_HEADER_LEN + sum_total(chunks@)) as u32;
            if size > max_download {
                r == Err::<SparseImagePlan, SparsePlanError>(
                    SparsePlanError::ExceedsMaxDownload { sparse_size: size, max_download },
                )
            } else {
                r == Ok::<SparseImagePlan, SparsePlanError>(
                    SparseImagePlan {
                        header: SparseFileHeader {
                            block_size: SPARSE_BLOCK_SIZE,
                            blocks: sum_blocks(chunks@) as u32,
                            chunks: chunks@.len() as u32,
                            checksum: 0,
                        },
                        sparse_size: size,
                    },
                )
            }
        },
{
    if chunks.len() > u32::MAX as usize {
        return Err(SparsePlanError::TooManyChunks);
    }
    let n_chunks = chunks.len() as u32;
    let mut blocks: u32 = 0;
    let mut total: usize = SPARSE_FILE_HEADER_LEN;
    let mut i: usize = 0;
    while i < chunks.len()
        invariant
            i <= chunks@.len(),
            chunks@.len() <= u32::MAX,
            sum_blocks(chunks@) <= u32::MAX,
            SPARSE_FILE_HEADER_LEN + sum_total(chunks@) <= usize::MAX,
            blocks == sum_blocks(chunks@.take(i as int)),
            total == SPARSE_FILE_HEADER_LEN + sum_total(chunks@.take(i as int)),
        decreases chunks@.len() - i,
    {
        proof {
            assert(chunks@.take(i + 1).drop_last() =~= chunks@.take(i as int));
            lemma_sums_prefix(chunks@, i + 1);
        }
        blocks = blocks + chunks[i].blocks;
        total = total + chunks[i].total_size as usize;
        i += 1;
    }
    assert(chunks@.take(chunks@.len() as int) =~= chunks@);
    if total > u32::MAX as usize {
        return Err(SparsePlanError::ImageTooLarge);
    }
    let sparse_size = total as u32;
    if sparse_size > max_download {
        return Err(SparsePlanError::ExceedsMaxDownload { sparse_size, max_download });
    }
    Ok(
        SparseImagePlan {
            header: SparseFileHeader {
                block_size: SPARSE_BLOCK_SIZE,
                blocks,
                chunks: n_chunks,
                checksum: 0,
            },
            sparse_size,
        },
    )
}

proof fn lemma_sums_prefix(c: Seq<SparseChunk>, k: int)
    requires
        0 <= k <= c.len(),
    ensures
        sum_blocks(c.take(k)) <= sum_blocks(c),
        sum_total(c.take(k)) <= sum_total(c),
    decreases c.len() - k,
{
    if k < c.len() {
        lemma_sums_prefix(c.drop_last(), k);
        assert(c.drop_last().take(k) =~= c.take(k));
    } else {
        assert(c.take(k) =~= c);
    }
}


// ── Splitting an image for download ──────────────────────────────────

/// Type of a chunk in a sparse image file.
#[derive(Debug, Clone, Copy, PartialEq, Eq, Structural)]
pub enum SparseChunkType {
    Raw,
    Fill,
    DontCare,
    Crc32,
}

/// A chunk header read from a sparse image file.
#[derive(Debug, Clone, Copy, PartialEq, Eq, Structural)]
pub struct ChunkHeaderInfo {
    pub chunk_type: SparseChunkType,
    /// Output size of the chunk in blocks.
    pub chunk_size: u32,
    /// Size of the chunk in the sparse image, header included.
    pub total_size: u32,
}

/// The type code of a chunk type.
pub open spec fn sparse_type_code(t: SparseChunkType) -> nat {
    match t {
        SparseChunkType::Raw => 0xcac1,
        SparseChunkType::Fill => 0xcac2,
        SparseChunkType::DontCare => 0xcac3,
        SparseChunkType::Crc32 => 0xcac4,
    }
}

/// `b` is the 12-byte encoding of chunk header `h`: type code, a reserved
/// zero, block count and total size, all little-endian.
pub open spec fn chunk_info_encodes(b: Seq<u8>, h: ChunkHeaderInfo) -> bool {
    &&& b.len() == 12
    &&& le_u16(b.subrange(0, 2)) == sparse_type_code(h.chunk_type)
    &&& le_u16(b.subrange(2, 4)) == 0
    &&& le_u32(b.subrange(4, 8)) == h.chunk_size
    &&& le_u32(b.subrange(8, 12)) == h.total_size
}

/// `android_sparse_image::ChunkHeader::to_bytes`; the contract restates
/// the layout its source writes.
#[verifier::external_body]
fn chunk_header_bytes(h: &ChunkHeaderInfo) -> (r: [u8; 12])
    ensures
        chunk_info_encodes(r@, *h),
{
    let chunk_type = match h.chunk_type {
        SparseChunkType::Raw => ChunkType::Raw,
        SparseChunkType::Fill => ChunkType::Fill,
        SparseChunkType::DontCare => ChunkType::DontCare,
        SparseChunkType::Crc32 => ChunkType::Crc32,
    };
    android_sparse_image::ChunkHeader { chunk_type, chunk_size: h.chunk_size, total_size: h.total_size }.to_bytes()
}

/// Reading back an encoded chunk header gives the header: parsing undoes
/// encoding.
pub proof fn law_chunk_header_roundtrip(b: Seq<u8>, h: ChunkHeaderInfo)
    requires
        chunk_info_encodes(b, h),
    ensures
        spec_parse_chunk_header(b) == Some(h),
{
}

/// What a 12-byte chunk header says: a known type code, a reserved
/// half-word that is not checked, the block count and the total size, all
/// little-endian.
pub open spec fn spec_parse_chunk_header(b: Seq<u8>) -> Option<ChunkHeaderInfo> {
    let code = le_u16(b.subrange(0, 2));
    let t = if code == 0xcac1 {
        Some(SparseChunkType::Raw)
    } else if code == 0xcac2 {
        Some(SparseChunkType::Fill)
    } else if code == 0xcac3 {
        Some(SparseChunkType::DontCare)
    } else if code == 0xcac4 {
        Some(SparseChunkType::Crc32)
    } else {
        None
    };
    match t {
        Some(chunk_type) => Some(
            ChunkHeaderInfo {
                chunk_type,
                chunk_size: le_u32(b.subrange(4, 8)) as u32,
                total_size: le_u32(b.subrange(8, 12)) as u32,
            },
        ),
        None => None,
    }
}

/// `android_sparse_image::ChunkHeader::from_bytes`; the contract restates
/// the type codes and field layout its source reads.
#[verifier::external_body]
fn parse_chunk_header_bytes(bytes: &[u8; 12]) -> (r: Option<ChunkHeaderInfo>)
    ensures
        r == spec_parse_chunk_header(bytes@),
{
    android_sparse_image::ChunkHeader::from_bytes(bytes).ok().map(|h| library_chunk(&h))
}

/// An `android_sparse_image` chunk header as the library's, field for
/// field.
#[verifier::external_body]
fn library_chunk(h: &android_sparse_image::ChunkHeader) -> ChunkHeaderInfo {
    let chunk_type = match h.chunk_type {
        ChunkType::Raw => SparseChunkType::Raw,
        ChunkType::Fill => SparseChunkType::Fill,
        ChunkType::DontCare => SparseChunkType::DontCare,
        ChunkType::Crc32 => SparseChunkType::Crc32,
    };
    ChunkHeaderInfo { chunk_type, chunk_size: h.chunk_size, total_size: h.total_size }
}

impl ChunkHeaderInfo {
    /// Parse the 12-byte header of a chunk.
    pub fn parse(bytes: &[u8; 12]) -> (r: Option<ChunkHeaderInfo>)
        ensures
            r == spec_parse_chunk_header(bytes@),
    {
        parse_chunk_header_bytes(bytes)
    }

    /// The 12 bytes of this header in a sparse image.
    pub fn to_bytes(&self) -> (r: [u8; 12])
        ensures
            chunk_info_encodes(r@, *self),
    {
        chunk_header_bytes(self)
    }

    /// Bytes of data that follow the header in the file.
    pub fn data_size(&self) -> (r: usize)
        ensures
            r == if self.total_size >= 12 {
                self.total_size - 12
            } else {
                0
            },
    {
        if self.total_size >= 12 {
            (self.total_size - 12) as usize
        } else {
            0
        }
    }
}

/// A chunk of a split: its header and the bytes of the input file that
/// follow it.
#[derive(Debug, Clone, Copy, PartialEq, Eq, Structural)]
pub struct SplitPiece {
    pub header: ChunkHeaderInfo,
    /// Offset of the chunk data in the input file.
    pub offset: usize,
    /// Bytes of data copied from the input file.
    pub size: usize,
}

/// One download: a file header and the chunks that follow it.
#[derive(Debug)]
pub struct SparseSplit {
    pub header: SparseFileHeader,
    pub pieces: Vec<SplitPiece>,
}

/// A split as plain values.
pub open spec fn split_view(s: SparseSplit) -> (SparseFileHeader, Seq<SplitPiece>) {
    (s.header, s.pieces@)
}

/// Splits as plain values.
pub open spec fn splits_view(v: Seq<SparseSplit>) -> Seq<(SparseFileHeader, Seq<SplitPiece>)> {
    v.map_values(|s: SparseSplit| split_view(s))
}

/// Sum of the chunk sizes (header included) of the pieces.
pub open spec fn pieces_total(p: Seq<SplitPiece>) -> nat
    decreases p.len(),
{
    if p.len() == 0 {
        0
    } else {
        pieces_total(p.drop_last()) + p.last().header.total_size as nat
    }
}

/// A split fits in one download of `size` bytes.
pub open spec fn split_fits(s: (SparseFileHeader, Seq<SplitPiece>), size: u32) -> bool {
    SPARSE_FILE_HEADER_LEN + pieces_total(s.1) <= size
}

/// What `android_sparse_image::split::split_image` gives for a parsed image.
pub uninterp spec fn split_image_of(header: SparseFileHeader, chunks: Seq<ChunkHeaderInfo>, size: u32) -> Option<
    Seq<(SparseFileHeader, Seq<SplitPiece>)>,
>;

/// What `android_sparse_image::split::split_raw` gives for a raw image.
pub uninterp spec fn split_raw_of(raw_size: usize, size: u32) -> Option<Seq<(SparseFileHeader, Seq<SplitPiece>)>>;

/// Sum of the block counts of chunks.
pub open spec fn sum_chunk_sizes(c: Seq<ChunkHeaderInfo>) -> nat
    decreases c.len(),
{
    if c.len() == 0 {
        0
    } else {
        sum_chunk_sizes(c.drop_last()) + c.last().chunk_size as nat
    }
}

/// Sum of the total sizes of chunks.
pub open spec fn sum_total_sizes(c: Seq<ChunkHeaderInfo>) -> nat
    decreases c.len(),
{
    if c.len() == 0 {
        0
    } else {
        sum_total_sizes(c.drop_last()) + c.last().total_size as nat
    }
}

/// Inputs on which splitting does no arithmetic that overflows: a block
/// size that is positive and leaves room for the headers, at most
/// `u32::MAX` blocks in all, chunks of at most `u32::MAX` bytes of output,
/// and file offsets that fit in `usize`.
pub open spec fn splittable(header: SparseFileHeader, chunks: Seq<ChunkHeaderInfo>) -> bool {
    &&& header.block_size > 0
    &&& header.block_size <= u32::MAX - 52
    &&& sum_chunk_sizes(chunks) <= u32::MAX
    &&& forall|i: int|
        0 <= i < chunks.len() ==> (#[trigger] chunks[i]).chunk_size as nat * header.block_size as nat
            <= u32::MAX
    &&& 40 + sum_total_sizes(chunks) + u32::MAX <= usize::MAX
}

/// Calls `android_sparse_image::split::split_image`. Claimed: the result
/// is a function of the header, the chunks and the size, each split
/// fits in `size` bytes, as its documentation says, and a size below a
/// file header, two chunk headers and one block is refused. On other inputs than
/// `splittable` ones its arithmetic overflows.
#[verifier::external_body]
fn split_sparse_image(header: &SparseFileHeader, chunks: &Vec<ChunkHeaderInfo>, size: u32) -> (r:
    Option<Vec<SparseSplit>>)
    requires
        splittable(*header, chunks@),
    ensures
        match r {
            Some(v) => split_image_of(*header, chunks@, size) == Some(splits_view(v@)),
            None => split_image_of(*header, chunks@, size) is None,
        },
        r matches Some(v) ==> forall|i: int| 0 <= i < v@.len() ==> split_fits(#[trigger] splits_view(v@)[i], size),
        (size as nat) < 52 + header.block_size ==> r is None,
{
    let h = android_sparse_image::FileHeader {
        block_size: header.block_size,
        blocks: header.blocks,
        chunks: header.chunks,
        checksum: header.checksum,
    };
    let splits = android_sparse_image::split::split_image(&h, &outside_chunks(chunks), size).ok()?;
    Some(library_splits(splits))
}

/// Calls `android_sparse_image::split::split_raw`. Claimed: the result is
/// a function of the raw size and the split size, each split fits in
/// `size` bytes, as its documentation says, and it fails only on a size
/// below a file header, two chunk headers and one 4096-byte block. Beyond 4 GiB its block offset
/// arithmetic overflows.
#[verifier::external_body]
fn split_raw_image(raw_size: usize, size: u32) -> (r: Option<Vec<SparseSplit>>)
    requires
        raw_size <= u32::MAX,
    ensures
        match r {
            Some(v) => split_raw_of(raw_size, size) == Some(splits_view(v@)),
            None => split_raw_of(raw_size, size) is None,
        },
        r matches Some(v) ==> forall|i: int| 0 <= i < v@.len() ==> split_fits(#[trigger] splits_view(v@)[i], size),
        r is None <==> size < 4148,
{
    let splits = android_sparse_image::split::split_raw(raw_size, size).ok()?;
    Some(library_splits(splits))
}

/// Chunk headers of the library turned into `android_sparse_image` ones,
/// field for field.
#[verifier::external_body]
fn outside_chunks(chunks: &Vec<ChunkHeaderInfo>) -> Vec<android_sparse_image::ChunkHeader> {
    let kind = |t: SparseChunkType| match t {
        SparseChunkType::Raw => ChunkType::Raw,
        SparseChunkType::Fill => ChunkType::Fill,
        SparseChunkType::DontCare => ChunkType::DontCare,
        SparseChunkType::Crc32 => ChunkType::Crc32,
    };
    let outside = |c: &ChunkHeaderInfo| android_sparse_image::ChunkHeader { chunk_type: kind(c.chunk_type), chunk_size: c.chunk_size, total_size: c.total_size };
    chunks.iter().map(outside).collect()
}

/// `android_sparse_image` splits turned into the library's, field for
/// field.
#[verifier::external_body]
fn library_splits(splits: Vec<android_sparse_image::split::Split>) -> Vec<SparseSplit> {
    let piece = |c: android_sparse_image::split::SplitChunk| SplitPiece { header: library_chunk(&c.header), offset: c.offset, size: c.size };
    let header = |h: android_sparse_image::FileHeader| SparseFileHeader { block_size: h.block_size, blocks: h.blocks, chunks: h.chunks, checksum: h.checksum };
    splits.into_iter().map(|s| SparseSplit { header: header(s.header), pieces: s.chunks.into_iter().map(piece).collect() }).collect()
}

/// A chunk header of the `android_sparse_image` crate.
#[verifier::external_type_specification]
#[verifier::external_body]
pub struct ExOutsideChunkHeader(android_sparse_image::ChunkHeader);

/// A split of the `android_sparse_image` crate.
#[verifier::external_type_specification]
#[verifier::external_body]
pub struct ExOutsideSplit(android_sparse_image::split::Split);

/// Whether splitting this image stays clear of overflow.
pub fn check_splittable(header: &SparseFileHeader, chunks: &Vec<ChunkHeaderInfo>) -> (r: bool)
    ensures
        r == splittable(*header, chunks@),
{
    if header.block_size == 0 || header.block_size > u32::MAX - 52 {
        return false;
    }
    let mut blocks: u64 = 0;
    let mut total: u128 = 0;
    let mut i: usize = 0;
    while i < chunks.len()
        invariant
            i <= chunks@.len(),
            0 < header.block_size <= u32::MAX - 52,
            blocks == sum_chunk_sizes(chunks@.take(i as int)),
            blocks <= u32::MAX,
            total == sum_total_sizes(chunks@.take(i as int)),
            total <= i * (u32::MAX as nat),
            forall|k: int|
                0 <= k < i ==> (#[trigger] chunks@[k]).chunk_size as nat * header.block_size as nat
                    <= u32::MAX,
        decreases chunks@.len() - i,
    {
        let c = chunks[i];
        assert(chunks@.take(i + 1).drop_last() =~= chunks@.take(i as int));
        assert((c.chunk_size as nat) * (header.block_size as nat) <= (u32::MAX as nat) * (u32::MAX as nat))
            by (nonlinear_arith);
        if (c.chunk_size as u64) * (header.block_size as u64) > u32::MAX as u64 {
            proof {
                lemma_sum_prefix_le(chunks@, i as int);
            }
            return false;
        }
        blocks = blocks + c.chunk_size as u64;
        if blocks > u32::MAX as u64 {
            proof {
                lemma_sum_prefix_le(chunks@, i + 1);
            }
            return false;
        }
        total = total + c.total_size as u128;
        proof {
            assert(total <= (i + 1) * (u32::MAX as nat)) by (nonlinear_arith)
                requires
                    total <= i * (u32::MAX as nat) + u32::MAX,
            ;
        }
        i += 1;
    }
    assert(chunks@.take(chunks@.len() as int) =~= chunks@);
    40 + total + (u32::MAX as u128) <= usize::MAX as u128
}

proof fn lemma_sum_prefix_le(c: Seq<ChunkHeaderInfo>, k: int)
    requires
        0 <= k <= c.len(),
    ensures
        sum_chunk_sizes(c.take(k)) <= sum_chunk_sizes(c),
    decreases c.len() - k,
{
    if k < c.len() {
        lemma_sum_prefix_le(c, k + 1);
        assert(c.take(k + 1).drop_last() =~= c.take(k));
    } else {
        assert(c.take(k) =~= c);
    }
}

/// Split a parsed sparse image into downloads of at most `max_download`
/// bytes each; a failed split is reported as such.
pub fn split_for_download(header: &SparseFileHeader, chunks: &Vec<ChunkHeaderInfo>, max_download: u32) -> (r:
    Result<Vec<SparseSplit>, FlashError>)
    requires
        splittable(*header, chunks@),
    ensures
        match r {
            Ok(v) => split_image_of(*header, chunks@, max_download) == Some(splits_view(v@)),
            Err(e) => split_image_of(*header, chunks@, max_download) is None && e is SparseSplitFailed,
        },
        r matches Ok(v) ==> forall|i: int| 0 <= i < v@.len() ==> split_fits(#[trigger] splits_view(v@)[i], max_download),
        (max_download as nat) < 52 + header.block_size ==> r is Err,
{
    match split_sparse_image(header, chunks, max_download) {
        Some(v) => Ok(v),
        None => Err(FlashError::SparseSplitFailed),
    }
}

/// Split a raw image of `raw_size` bytes into sparse downloads of at most
/// `max_download` bytes each; a failed split is reported as such.
pub fn split_raw_for_download(raw_size: u64, max_download: u32) -> (r: Result<Vec<SparseSplit>, FlashError>)
    requires
        raw_size <= u32::MAX,
    ensures
        match r {
            Ok(v) => split_raw_of(raw_size as usize, max_download) == Some(splits_view(v@)),
            Err(e) => split_raw_of(raw_size as usize, max_download) is None && e is SparseSplitFailed,
        },
        r matches Ok(v) ==> forall|i: int| 0 <= i < v@.len() ==> split_fits(#[trigger] splits_view(v@)[i], max_download),
        r is Err <==> max_download < 4148,
{
    match split_raw_image(raw_size as usize, max_download) {
        Some(v) => Ok(v),
        None => Err(FlashError::SparseSplitFailed),
    }
}

impl SparseSplit {
    /// Bytes of this split when sent: the file header and every chunk;
    /// `None` when that does not fit in a `u32`.
    pub fn sparse_size(&self) -> (r: Option<u32>)
        ensures
            r == if SPARSE_FILE_HEADER_LEN + pieces_total(self.pieces@) <= u32::MAX {
                Some((SPARSE_FILE_HEADER_LEN + pieces_total(self.pieces@)) as u32)
            } else {
                None
            },
    {
        let mut total: u32 = 28;
        let mut i: usize = 0;
        while i < self.pieces.len()
            invariant
                i <= self.pieces@.len(),
                total == SPARSE_FILE_HEADER_LEN + pieces_total(self.pieces@.take(i as int)),
            decreases self.pieces@.len() - i,
        {
            assert(self.pieces@.take(i + 1).drop_last() =~= self.pieces@.take(i as int));
            let add = self.pieces[i].header.total_size;
            if add > u32::MAX - total {
                proof {
                    lemma_pieces_prefix_le(self.pieces@, i + 1);
                }
                return None;
            }
            total = total + add;
            i += 1;
        }
        assert(self.pieces@.take(self.pieces@.len() as int) =~= self.pieces@);
        Some(total)
    }
}

proof fn lemma_pieces_prefix_le(p: Seq<SplitPiece>, k: int)
    requires
        0 <= k <= p.len(),
    ensures
        pieces_total(p.take(k)) <= pieces_total(p),
    decreases p.len() - k,
{
    if k < p.len() {
        lemma_pieces_prefix_le(p, k + 1);
        assert(p.take(k + 1).drop_last() =~= p.take(k));
    } else {
        assert(p.take(k) =~= p);
    }
}

} // verus!
