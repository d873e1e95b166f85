//! Command lines of the bundled filesystem generators (`mke2fs`,
//! `make_f2fs`). The caller appends the output path (and, for `mke2fs`, the
//! block count) and runs the tool.
use vstd::prelude::*;
use crate::text::{decimal_chars, decimal_string, owned, concat_str, string_views};
use crate::format::{FsType, FS_OPT_CASEFOLD, FS_OPT_COMPRESS};
use crate::errors::FlashError;

verus! {

/// Block size of the generated ext4 filesystems.
pub const MKFS_BLOCK_SIZE: u64 = 4096;

/// Size of the minimal `product_gsi` image.
pub const MINIMAL_PRODUCT_GSI_SIZE: u64 = 64 * 1024 * 1024;

/// Which generator runs.
#[derive(Debug, Clone, Copy, PartialEq, Eq, Structural)]
pub enum MkfsTool {
    Mke2fs,
    MakeF2fs,
}

/// A generator command line around the output path.
#[derive(Debug)]
pub struct MkfsCommand {
    pub tool: MkfsTool,
    /// Arguments before the output path.
    pub args: Vec<String>,
    /// Arguments after the output path.
    pub trailing: Vec<String>,
}

/// `stride=` of the ext4 RAID hints: the logical block size in filesystem
/// blocks, at least two.
pub open spec fn raid_stride(logical_blk_size: u32) -> nat {
    if logical_blk_size < 8192 {
        2
    } else {
        (logical_blk_size / 4096) as nat
    }
}

/// `stripe-width=` of the ext4 RAID hints: the erase block size in
/// filesystem blocks, at least the stride.
pub open spec fn raid_stripe_width(erase_blk_size: u32, logical_blk_size: u32) -> nat {
    let w = (erase_blk_size / 4096) as nat;
    if w < raid_stride(logical_blk_size) {
        raid_stride(logical_blk_size)
    } else {
        w
    }
}

/// The `-E` value carrying the RAID hints.
pub open spec fn raid_hint(erase_blk_size: u32, logical_blk_size: u32) -> Seq<char> {
    "stride="@ + decimal_chars(raid_stride(logical_blk_size)) + ",stripe-width="@
        + decimal_chars(raid_stripe_width(erase_blk_size, logical_blk_size))
}

/// `mke2fs` options for an empty ext4 data filesystem.
pub open spec fn ext4_args(erase_blk_size: u32, logical_blk_size: u32, fs_options: u32) -> Seq<
    Seq<char>,
> {
    seq!["-F"@, "-t"@, "ext4"@, "-b"@, "4096"@, "-O"@, "metadata_csum,64bit,extent"@]
        + (if erase_blk_size != 0 && logical_blk_size != 0 {
        seq!["-E"@, raid_hint(erase_blk_size, logical_blk_size)]
    } else {
        Seq::empty()
    }) + seq!["-I"@, "512"@] + (if fs_options & 1 != 0 {
        seq!["-O"@, "casefold"@, "-E"@, "encoding=utf8"@]
    } else {
        Seq::empty()
    })
}

/// `make_f2fs` options for an empty f2fs data filesystem of `part_size`
/// bytes.
pub open spec fn f2fs_args(part_size: u64, fs_options: u32) -> Seq<Seq<char>> {
    seq!["-S"@, decimal_chars(part_size as nat), "-g"@, "android"@, "-O"@, "project_quota,extra_attr"@]
        + (if fs_options & 1 != 0 {
        seq!["-O"@, "casefold"@, "-C"@, "utf8"@]
    } else {
        Seq::empty()
    }) + (if fs_options & 4 != 0 {
        seq!["-O"@, "compression"@, "-O"@, "extra_attr"@]
    } else {
        Seq::empty()
    })
}

/// Why an ext4 image of `part_size` bytes cannot be made.
pub open spec fn too_small_reason(part_size: u64) -> Seq<char> {
    "partition size "@ + decimal_chars(part_size as nat)
        + " is smaller than minimum block size 4096"@
}

fn push_arg(v: &mut Vec<String>, s: &str)
    ensures
        string_views(final(v)@) == string_views(old(v)@).push(s@),
{
    let ghost before = v@;
    v.push(owned(s));
    assert(string_views(v@) =~= string_views(before).push(s@));
}

fn push_string(v: &mut Vec<String>, s: String)
    ensures
        string_views(final(v)@) == string_views(old(v)@).push(s@),
{
    let ghost before = v@;
    let ghost sv = s@;
    v.push(s);
    assert(string_views(v@) =~= string_views(before).push(sv));
}

fn raid_hint_string(erase_blk_size: u32, logical_blk_size: u32) -> (r: String)
    ensures
        r@ == raid_hint(erase_blk_size, logical_blk_size),
{
    let mut stride: u64 = (logical_blk_size / 4096) as u64;
    let mut stripe: u64 = (erase_blk_size / 4096) as u64;
    if logical_blk_size < 8192 {
        stride = 8192 / MKFS_BLOCK_SIZE;
    }
    if stripe < stride {
        stripe = stride;
    }
    let a = concat_str("stride=", decimal_string(stride).as_str());
    let b = concat_str(a.as_str(), ",stripe-width=");
    concat_str(b.as_str(), decimal_string(stripe).as_str())
}

/// The `mke2fs` command line for an empty ext4 filesystem filling
/// `part_size` bytes, in 4096-byte blocks; the RAID hints are given only
/// when both block sizes are known.
pub fn ext4_command(part_size: u64, erase_blk_size: u32, logical_blk_size: u32, fs_options: u32) -> (r:
    Result<MkfsCommand, FlashError>)
    ensures
        part_size < 4096 <==> r is Err,
        r matches Err(e) ==> e matches FlashError::GeneratorFailed { reason } && reason@
            == too_small_reason(part_size),
        r matches Ok(c) ==> c.tool == MkfsTool::Mke2fs && string_views(c.args@) == ext4_args(
            erase_blk_size,
            logical_blk_size,
            fs_options,
        ) && string_views(c.trailing@) == seq![decimal_chars((part_size / 4096) as nat)],
{
    let blocks = part_size / MKFS_BLOCK_SIZE;
    if blocks < 1 {
        let a = concat_str("partition size ", decimal_string(part_size).as_str());
        let reason = concat_str(a.as_str(), " is smaller than minimum block size 4096");
        return Err(FlashError::GeneratorFailed { reason });
    }
    let mut args: Vec<String> = Vec::new();
    push_arg(&mut args, "-F");
    push_arg(&mut args, "-t");
    push_arg(&mut args, "ext4");
    push_arg(&mut args, "-b");
    push_arg(&mut args, "4096");
    push_arg(&mut args, "-O");
    push_arg(&mut args, "metadata_csum,64bit,extent");
    let ghost base = string_views(args@);
    if erase_blk_size != 0 && logical_blk_size != 0 {
        push_arg(&mut args, "-E");
        push_string(&mut args, raid_hint_string(erase_blk_size, logical_blk_size));
    }
    let ghost with_raid = string_views(args@);
    push_arg(&mut args, "-I");
    push_arg(&mut args, "512");
    let ghost with_inode = string_views(args@);
    if fs_options & FS_OPT_CASEFOLD != 0 {
        push_arg(&mut args, "-O");
        push_arg(&mut args, "casefold");
        push_arg(&mut args, "-E");
        push_arg(&mut args, "encoding=utf8");
    }
    assert(string_views(args@) =~= ext4_args(erase_blk_size, logical_blk_size, fs_options));
    let mut trailing: Vec<String> = Vec::new();
    push_string(&mut trailing, decimal_string(blocks));
    assert(string_views(trailing@) =~= seq![decimal_chars((part_size / 4096) as nat)]);
    Ok(MkfsCommand { tool: MkfsTool::Mke2fs, args, trailing })
}

/// The `make_f2fs` command line for an empty f2fs filesystem of
/// `part_size` bytes.
pub fn f2fs_command(part_size: u64, fs_options: u32) -> (r: MkfsCommand)
    ensures
        r.tool == MkfsTool::MakeF2fs,
        string_views(r.args@) == f2fs_args(part_size, fs_options),
        r.trailing@.len() == 0,
{
    let mut args: Vec<String> = Vec::new();
    push_arg(&mut args, "-S");
    push_string(&mut args, decimal_string(part_size));
    push_arg(&mut args, "-g");
    push_arg(&mut args, "android");
    push_arg(&mut args, "-O");
    push_arg(&mut args, "project_quota,extra_attr");
    if fs_options & FS_OPT_CASEFOLD != 0 {
        push_arg(&mut args, "-O");
        push_arg(&mut args, "casefold");
        push_arg(&mut args, "-C");
        push_arg(&mut args, "utf8");
    }
    if fs_options & FS_OPT_COMPRESS != 0 {
        push_arg(&mut args, "-O");
        push_arg(&mut args, "compression");
        push_arg(&mut args, "-O");
        push_arg(&mut args, "extra_attr");
    }
    assert(string_views(args@) =~= f2fs_args(part_size, fs_options));
    MkfsCommand { tool: MkfsTool::MakeF2fs, args, trailing: Vec::new() }
}

/// The generator command for an empty filesystem of type `fs_type`.
pub fn empty_fs_command(
    fs_type: FsType,
    part_size: u64,
    erase_blk_size: u32,
    logical_blk_size: u32,
    fs_options: u32,
) -> (r: Result<MkfsCommand, FlashError>)
    ensures
        fs_type == FsType::F2fs ==> (r matches Ok(c) && c.tool == MkfsTool::MakeF2fs
            && string_views(c.args@) == f2fs_args(part_size, fs_options) && c.trailing@.len() == 0),
        fs_type == FsType::Ext4 ==> (part_size < 4096 <==> r is Err),
        fs_type == FsType::Ext4 ==> (r matches Err(e) ==> e matches FlashError::GeneratorFailed {
            reason,
        } && reason@ == too_small_reason(part_size)),
        fs_type == FsType::Ext4 ==> (r matches Ok(c) ==> c.tool == MkfsTool::Mke2fs && string_views(
            c.args@,
        ) == ext4_args(erase_blk_size, logical_blk_size, fs_options) && string_views(c.trailing@)
            == seq![decimal_chars((part_size / 4096) as nat)]),
{
    match fs_type {
        FsType::Ext4 => ext4_command(part_size, erase_blk_size, logical_blk_size, fs_options),
        FsType::F2fs => Ok(f2fs_command(part_size, fs_options)),
    }
}

/// `mke2fs` options for the minimal `product_gsi` image.
pub open spec fn product_gsi_args() -> Seq<Seq<char>> {
    seq![
        "-F"@,
        "-t"@,
        "ext4"@,
        "-b"@,
        "4096"@,
        "-L"@,
        "product"@,
        "-U"@,
        "cdd462dd-8dd0-4006-8a5a-94e5a70c2bc3"@,
    ]
}

/// The `mke2fs` command line for the minimal `product_gsi` image: 64 MiB
/// in 4096-byte blocks, labelled `product` with a fixed UUID.
pub fn product_gsi_command() -> (r: MkfsCommand)
    ensures
        r.tool == MkfsTool::Mke2fs,
        string_views(r.args@) == product_gsi_args(),
        string_views(r.trailing@) == seq![decimal_chars(16384)],
{
    let mut args: Vec<String> = Vec::new();
    push_arg(&mut args, "-F");
    push_arg(&mut args, "-t");
    push_arg(&mut args, "ext4");
    push_arg(&mut args, "-b");
    push_arg(&mut args, "4096");
    push_arg(&mut args, "-L");
    push_arg(&mut args, "product");
    push_arg(&mut args, "-U");
    push_arg(&mut args, "cdd462dd-8dd0-4006-8a5a-94e5a70c2bc3");
    assert(string_views(args@) =~= product_gsi_args());
    let mut trailing: Vec<String> = Vec::new();
    push_string(&mut trailing, decimal_string(MINIMAL_PRODUCT_GSI_SIZE / MKFS_BLOCK_SIZE));
    assert(string_views(trailing@) =~= seq![decimal_chars(16384)]);
    MkfsCommand { tool: MkfsTool::Mke2fs, args, trailing }
}

} // verus!

verus! {

proof fn lemma_contains_concat(a: Seq<Seq<char>>, b: Seq<Seq<char>>, w: Seq<char>)
    ensures
        (a + b).contains(w) <==> a.contains(w) || b.contains(w),
{
    if (a + b).contains(w) {
        let i = choose|i: int| 0 <= i < (a + b).len() && (a + b)[i] == w;
        if i < a.len() {
            assert(a[i] == w);
        } else {
            assert(b[i - a.len()] == w);
        }
    }
    if a.contains(w) {
        let i = choose|i: int| 0 <= i < a.len() && a[i] == w;
        assert((a + b)[i] == w);
    }
    if b.contains(w) {
        let i = choose|i: int| 0 <= i < b.len() && b[i] == w;
        assert((a + b)[a.len() + i] == w);
    }
}

proof fn lemma_decimal_digits(n: nat)
    ensures
        forall|i: int| 0 <= i < decimal_chars(n).len() ==> '0' <= #[trigger] decimal_chars(n)[i] <= '9',
        decimal_chars(n).len() > 0,
    decreases n,
{
    if n >= 10 {
        lemma_decimal_digits(n / 10);
        let p = decimal_chars(n / 10);
        assert forall|i: int| 0 <= i < decimal_chars(n).len() implies '0' <= #[trigger] decimal_chars(n)[i] <= '9' by {
            if i < p.len() {
                assert(decimal_chars(n)[i] == p[i]);
            }
        }
    }
}

proof fn lemma_absent4(a: Seq<char>, b: Seq<char>, c: Seq<char>, d: Seq<char>, w: Seq<char>)
    requires
        a != w && b != w && c != w && d != w,
    ensures
        !seq![a, b, c, d].contains(w),
{
    let s = seq![a, b, c, d];
    assert forall|i: int| 0 <= i < s.len() implies s[i] != w by {
        if i == 0 {} else if i == 1 {} else if i == 2 {} else {}
    }
}

proof fn lemma_present(s: Seq<Seq<char>>, i: int, w: Seq<char>)
    requires
        0 <= i < s.len(),
        s[i] == w,
    ensures
        s.contains(w),
{
}

/// Each `--fs-options` bit of make_f2fs is used for its own feature,
/// whatever the other bits: compression is asked for exactly when the
/// compress bit (4) is set, and case-folding exactly when the casefold bit
/// (1) is set; the size and the project-quota features are always there.
pub proof fn law_f2fs_options_select_features(part_size: u64, fs_options: u32)
    ensures
        f2fs_args(part_size, fs_options).contains("compression"@) <==> fs_options & 4 != 0,
        f2fs_args(part_size, fs_options).contains("casefold"@) <==> fs_options & 1 != 0,
        f2fs_args(part_size, fs_options).take(6) == seq![
            "-S"@,
            decimal_chars(part_size as nat),
            "-g"@,
            "android"@,
            "-O"@,
            "project_quota,extra_attr"@,
        ],
{
    reveal_strlit("compression");
    reveal_strlit("casefold");
    reveal_strlit("-S");
    reveal_strlit("-g");
    reveal_strlit("android");
    reveal_strlit("-O");
    reveal_strlit("project_quota,extra_attr");
    reveal_strlit("-C");
    reveal_strlit("utf8");
    reveal_strlit("extra_attr");
    let d = decimal_chars(part_size as nat);
    lemma_decimal_digits(part_size as nat);
    let base = seq!["-S"@, d, "-g"@, "android"@, "-O"@, "project_quota,extra_attr"@];
    let cf = if fs_options & 1 != 0 { seq!["-O"@, "casefold"@, "-C"@, "utf8"@] } else { Seq::<Seq<char>>::empty() };
    let cp = if fs_options & 4 != 0 { seq!["-O"@, "compression"@, "-O"@, "extra_attr"@] } else { Seq::<Seq<char>>::empty() };
    assert(f2fs_args(part_size, fs_options) == base + cf + cp);
    assert((base + cf + cp).take(6) =~= base);
    assert(d[0] != 'c');
    assert("compression"@[0] == 'c');
    assert("casefold"@[0] == 'c');
    assert(d != "compression"@);
    assert(d != "casefold"@);
    assert forall|w: Seq<char>| w == "compression"@ || w == "casefold"@ implies !base.contains(w) by {
        assert forall|i: int| 0 <= i < base.len() implies base[i] != w by {
            if i == 0 {} else if i == 1 {} else if i == 2 {} else if i == 3 {} else if i == 4 {} else {}
        }
    }
    lemma_contains_concat(base + cf, cp, "compression"@);
    lemma_contains_concat(base, cf, "compression"@);
    lemma_contains_concat(base + cf, cp, "casefold"@);
    lemma_contains_concat(base, cf, "casefold"@);
    assert("casefold"@.len() == 8 && "compression"@.len() == 11 && "utf8"@.len() == 4 && "-O"@.len() == 2
        && "-C"@.len() == 2 && "extra_attr"@.len() == 10);
    if fs_options & 1 != 0 {
        lemma_absent4("-O"@, "casefold"@, "-C"@, "utf8"@, "compression"@);
        lemma_present(cf, 1, "casefold"@);
    }
    if fs_options & 4 != 0 {
        lemma_absent4("-O"@, "compression"@, "-O"@, "extra_attr"@, "casefold"@);
        lemma_present(cp, 1, "compression"@);
    }
}

/// The casefold bit (1) of `--fs-options` asks mke2fs for case-folding
/// exactly when it is set, whatever the other bits and the block sizes.
pub proof fn law_ext4_casefold_follows_bit(erase_blk_size: u32, logical_blk_size: u32, fs_options: u32)
    ensures
        ext4_args(erase_blk_size, logical_blk_size, fs_options).contains("casefold"@) <==> fs_options & 1 != 0,
{
    reveal_strlit("casefold");
    reveal_strlit("-F");
    reveal_strlit("-t");
    reveal_strlit("ext4");
    reveal_strlit("-b");
    reveal_strlit("4096");
    reveal_strlit("-O");
    reveal_strlit("metadata_csum,64bit,extent");
    reveal_strlit("-E");
    reveal_strlit("-I");
    reveal_strlit("512");
    reveal_strlit("encoding=utf8");
    reveal_strlit("stride=");
    let w = "casefold"@;
    let base = seq!["-F"@, "-t"@, "ext4"@, "-b"@, "4096"@, "-O"@, "metadata_csum,64bit,extent"@];
    let hint = raid_hint(erase_blk_size, logical_blk_size);
    let rh = if erase_blk_size != 0 && logical_blk_size != 0 { seq!["-E"@, hint] } else { Seq::<Seq<char>>::empty() };
    let mid = seq!["-I"@, "512"@];
    let cf = if fs_options & 1 != 0 { seq!["-O"@, "casefold"@, "-E"@, "encoding=utf8"@] } else { Seq::<Seq<char>>::empty() };
    assert(ext4_args(erase_blk_size, logical_blk_size, fs_options) == base + rh + mid + cf);
    assert(hint[0] == 's') by {
        assert(hint == "stride="@ + (decimal_chars(raid_stride(logical_blk_size)) + ",stripe-width="@
            + decimal_chars(raid_stripe_width(erase_blk_size, logical_blk_size))));
    }
    assert(w[0] == 'c');
    assert forall|i: int| 0 <= i < base.len() implies base[i] != w by {
        if i == 0 {} else if i == 1 {} else if i == 2 {} else if i == 3 {} else if i == 4 {} else if i == 5 {} else {}
    }
    assert forall|i: int| 0 <= i < rh.len() implies rh[i] != w by {
        if i == 0 {} else {}
    }
    assert forall|i: int| 0 <= i < mid.len() implies mid[i] != w by {
        if i == 0 {} else {}
    }
    lemma_contains_concat(base + rh + mid, cf, w);
    lemma_contains_concat(base + rh, mid, w);
    lemma_contains_concat(base, rh, w);
    if fs_options & 1 != 0 {
        lemma_present(cf, 1, w);
    }
}

} // verus!
